//! Plain data carried between the analysis service and the indexing
//! pipeline: entity descriptions, the structured analysis response, and a
//! reduced configuration value.

use vstd::prelude::*;

verus! {

/// One described entity: a file, class, or function, with its code and the
/// natural-language description the analysis produced.
pub struct CodeDescription {
    pub name: String,
    pub md5: Option<String>,
    pub source_code: String,
    pub purpose: String,
    pub lang: Option<String>,
    pub file: Option<String>,
    pub code_type: Option<String>,
}

/// The structured result of analysing one source file: the file's purpose
/// and the described classes and functions it contains.
pub struct GPTResponse {
    pub purpose: String,
    pub classes: Vec<CodeDescription>,
    pub functions: Vec<CodeDescription>,
}

/// One split-out entity: a class or function with its raw code.
pub struct CodeSplit {
    pub name: String,
    pub source_code: String,
    pub code_type: Option<String>,
}

/// The structured result of splitting one source file into entities.
pub struct GPTCodeSplitResponse {
    pub classes: Vec<CodeSplit>,
    pub functions: Vec<CodeSplit>,
}

/// The reduced configuration value: every field optional, with a default
/// supplied by its getter.
pub struct Config {
    pub openai_key: Option<String>,
    pub openai_base: Option<String>,
    pub chat_model: Option<String>,
    pub analyse_model: Option<String>,
    pub embedding_model: Option<String>,
    pub dim: Option<usize>,
}

impl Config {
    /// The configured key.
    pub open spec fn spec_openai_key(&self) -> Seq<char> {
        match self.openai_key {
            Some(ref s) => s@,
            None => Seq::empty(),
        }
    }

    /// The configured service base, or the public endpoint.
    pub open spec fn spec_openai_base(&self) -> Seq<char> {
        match self.openai_base {
            Some(ref s) => s@,
            None => "https://api.openai.com/v1"@,
        }
    }

    /// The configured chat model, or the default model.
    pub open spec fn spec_chat_model(&self) -> Seq<char> {
        match self.chat_model {
            Some(ref s) => s@,
            None => "gpt-4o"@,
        }
    }

    /// The configured analysis model, or the default model.
    pub open spec fn spec_analyse_model(&self) -> Seq<char> {
        match self.analyse_model {
            Some(ref s) => s@,
            None => "gpt-4o"@,
        }
    }

    /// The configured embedding model, or the default model.
    pub open spec fn spec_embedding_model(&self) -> Seq<char> {
        match self.embedding_model {
            Some(ref s) => s@,
            None => "text-embedding-3-large"@,
        }
    }

    /// The configured embedding width, or the default width.
    pub open spec fn spec_dim(&self) -> int {
        match self.dim {
            Some(d) => d as int,
            None => 265,
        }
    }

    /// The configured key. The key must be present.
    pub fn openai_key(&self) -> (r: String)
        requires
            self.openai_key is Some,
        ensures
            r@ == self.spec_openai_key(),
    {
        match &self.openai_key {
            Some(s) => s.clone(),
            None => String::new(),
        }
    }

    /// The configured service base, or the public endpoint.
    pub fn openai_base(&self) -> (r: String)
        ensures
            r@ == self.spec_openai_base(),
    {
        match &self.openai_base {
            Some(s) => s.clone(),
            None => String::from_str("https://api.openai.com/v1"),
        }
    }

    /// The configured chat model, or the default model.
    pub fn chat_model(&self) -> (r: String)
        ensures
            r@ == self.spec_chat_model(),
    {
        match &self.chat_model {
            Some(s) => s.clone(),
            None => String::from_str("gpt-4o"),
        }
    }

    /// The configured analysis model, or the default model.
    pub fn analyse_model(&self) -> (r: String)
        ensures
            r@ == self.spec_analyse_model(),
    {
        match &self.analyse_model {
            Some(s) => s.clone(),
            None => String::from_str("gpt-4o"),
        }
    }

    /// The configured embedding model, or the default model.
    pub fn embedding_model(&self) -> (r: String)
        ensures
            r@ == self.spec_embedding_model(),
    {
        match &self.embedding_model {
            Some(s) => s.clone(),
            None => String::from_str("text-embedding-3-large"),
        }
    }

    /// The configured embedding width, or the default width.
    pub fn dim(&self) -> (r: usize)
        ensures
            r == self.spec_dim(),
    {
        match self.dim {
            Some(d) => d,
            None => 265,
        }
    }
}

} // verus!
