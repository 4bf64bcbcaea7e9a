//! The process-wide configuration value: constructed once, passed by
//! reference into every component, never ambient global state. Every field
//! is optional; each getter supplies the documented default.

use vstd::prelude::*;

verus! {

/// The full configuration value, as loaded from the configuration file.
pub struct Config {
    pub openai_key: Option<String>,
    pub openai_base: Option<String>,
    pub chat_model: Option<String>,
    pub analyse_model: Option<String>,
    pub embedding_model: Option<String>,
    pub dim: Option<usize>,
    pub language: Option<String>,
}

impl Config {
    /// The configured key.
    pub open spec fn spec_openai_key(&self) -> Seq<char> {
        match self.openai_key {
            Some(ref s) => s@,
            None => Seq::empty(),
        }
    }

    /// The configured service base, or the public endpoint.
    pub open spec fn spec_openai_base(&self) -> Seq<char> {
        match self.openai_base {
            Some(ref s) => s@,
            None => "https://api.openai.com/v1"@,
        }
    }

    /// The configured chat model, or the default model.
    pub open spec fn spec_chat_model(&self) -> Seq<char> {
        match self.chat_model {
            Some(ref s) => s@,
            None => "gpt-4o"@,
        }
    }

    /// The configured analysis model, or the default model.
    pub open spec fn spec_analyse_model(&self) -> Seq<char> {
        match self.analyse_model {
            Some(ref s) => s@,
            None => "gpt-4o"@,
        }
    }

    /// The configured embedding model, or the default model.
    pub open spec fn spec_embedding_model(&self) -> Seq<char> {
        match self.embedding_model {
            Some(ref s) => s@,
            None => "text-embedding-3-large"@,
        }
    }

    /// The configured embedding width, or the default width.
    pub open spec fn spec_dim(&self) -> int {
        match self.dim {
            Some(d) => d as int,
            None => 1024,
        }
    }

    /// The configured output language, or the empty language marker.
    pub open spec fn spec_language(&self) -> Seq<char> {
        match self.language {
            Some(ref s) => s@,
            None => Seq::empty(),
        }
    }

    /// The configured key. The key must be present.
    pub fn openai_key(&self) -> (r: String)
        requires
            self.openai_key is Some,
        ensures
            r@ == self.spec_openai_key(),
    {
        match &self.openai_key {
            Some(s) => s.clone(),
            None => String::new(),
        }
    }

    /// The configured service base, or the public endpoint.
    pub fn openai_base(&self) -> (r: String)
        ensures
            r@ == self.spec_openai_base(),
    {
        match &self.openai_base {
            Some(s) => s.clone(),
            None => String::from_str("https://api.openai.com/v1"),
        }
    }

    /// The configured chat model, or the default model.
    pub fn chat_model(&self) -> (r: String)
        ensures
            r@ == self.spec_chat_model(),
    {
        match &self.chat_model {
            Some(s) => s.clone(),
            None => String::from_str("gpt-4o"),
        }
    }

    /// The configured analysis model, or the default model.
    pub fn analyse_model(&self) -> (r: String)
        ensures
            r@ == self.spec_analyse_model(),
    {
        match &self.analyse_model {
            Some(s) => s.clone(),
            None => String::from_str("gpt-4o"),
        }
    }

    /// The configured embedding model, or the default model.
    pub fn embedding_model(&self) -> (r: String)
        ensures
            r@ == self.spec_embedding_model(),
    {
        match &self.embedding_model {
            Some(s) => s.clone(),
            None => String::from_str("text-embedding-3-large"),
        }
    }

    /// The configured embedding width, or the default width.
    pub fn dim(&self) -> (r: usize)
        ensures
            r == self.spec_dim(),
    {
        match self.dim {
            Some(d) => d,
            None => 1024,
        }
    }

    /// The configured output language, or the empty language marker.
    pub fn language(&self) -> (r: String)
        ensures
            r@ == self.spec_language(),
    {
        match &self.language {
            Some(s) => s.clone(),
            None => String::new(),
        }
    }
}

/// The configuration written on first use: the public endpoint, the default
/// models, a 256-wide embedding, and an empty key for the operator to fill
/// in.
impl Default for Config {
    fn default() -> (r: Config)
        ensures
            r.openai_key is Some,
            r.spec_openai_key() == Seq::<char>::empty(),
            r.spec_openai_base() == "https://api.openai.com/v1"@,
            r.spec_chat_model() == "gpt-4o"@,
            r.spec_analyse_model() == "gpt-4o"@,
            r.spec_embedding_model() == "text-embedding-3-large"@,
            r.spec_dim() == 256,
            r.spec_language() == Seq::<char>::empty(),
    {
        Config {
            openai_key: Some(String::new()),
            openai_base: Some(String::from_str("https://api.openai.com/v1")),
            chat_model: Some(String::from_str("gpt-4o")),
            analyse_model: Some(String::from_str("gpt-4o")),
            embedding_model: Some(String::from_str("text-embedding-3-large")),
            dim: Some(256),
            language: Some(String::new()),
        }
    }
}

} // verus!
