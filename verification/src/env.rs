//! The assembled runtime environment: directories, configuration, ignore
//! rules and language extensions, together with the values read from the
//! process environment outside the library.

use crate::config::Config;
use crate::ignore_rules::Ignore;
use crate::language_extensions::LanguageExtensions;
use vstd::prelude::*;

verus! {

/// The environment a run works in. The directory probes and the process
/// environment are read outside the library and handed in as plain values.
pub struct Env {
    pub home_dir: String,
    pub work_dir: String,
    /// The per-project state directory, under the work directory.
    pub temp_dir: String,
    pub config: Config,
    pub ignore: Ignore,
    pub language_extensions: LanguageExtensions,
    /// The key found in the process environment, when one was set there.
    pub key_override: Option<String>,
    /// The service base found in the process environment, when set there.
    pub base_override: Option<String>,
    /// Whether the project's descriptor database directory already exists.
    pub db_present: bool,
}

impl Env {
    /// The resolved key: the process environment wins over the
    /// configuration; an absent key resolves to the empty string.
    pub open spec fn spec_openai_key(&self) -> Seq<char> {
        match self.key_override {
            Some(ref s) => s@,
            None => match self.config.openai_key {
                Some(ref s) => s@,
                None => Seq::empty(),
            },
        }
    }

    /// The resolved service base: the process environment wins over the
    /// configuration and its default.
    pub open spec fn spec_openai_base(&self) -> Seq<char> {
        match self.base_override {
            Some(ref s) => s@,
            None => self.config.spec_openai_base(),
        }
    }

    /// The resolved embedding width: a configured width of zero falls back
    /// to the default width.
    pub open spec fn spec_dim(&self) -> int {
        if self.config.spec_dim() == 0 {
            256
        } else {
            self.config.spec_dim()
        }
    }

    /// Assembles an environment from its parts. The state directory lies
    /// under the work directory.
    pub fn new(
        home_dir: String,
        work_dir: String,
        config: Config,
        ignore: Ignore,
        language_extensions: LanguageExtensions,
        key_override: Option<String>,
        base_override: Option<String>,
        db_present: bool,
    ) -> (r: Env)
        ensures
            r.home_dir == home_dir,
            r.work_dir == work_dir,
            r.temp_dir@ == work_dir@ + "/.readit"@,
            r.config == config,
            r.key_override == key_override,
            r.base_override == base_override,
            r.db_present == db_present,
    {
        let temp_dir = work_dir.clone().concat("/.readit");
        Env {
            home_dir,
            work_dir,
            temp_dir,
            config,
            ignore,
            language_extensions,
            key_override,
            base_override,
            db_present,
        }
    }

    /// Whether this project has never been indexed: true exactly when its
    /// descriptor database directory does not exist yet.
    pub fn is_new_project(&self) -> (r: bool)
        ensures
            r == !self.db_present,
    {
        !self.db_present
    }

    /// The per-user state directory.
    pub fn home_dir(&self) -> (r: &str)
        ensures
            r@ == self.home_dir@,
    {
        self.home_dir.as_str()
    }

    /// The project directory being indexed.
    pub fn work_dir(&self) -> (r: &str)
        ensures
            r@ == self.work_dir@,
    {
        self.work_dir.as_str()
    }

    /// The resolved key: the process environment wins over the
    /// configuration; an absent key resolves to the empty string.
    pub fn openai_key(&self) -> (r: String)
        ensures
            r@ == self.spec_openai_key(),
    {
        match &self.key_override {
            Some(s) => s.clone(),
            None => match &self.config.openai_key {
                Some(s) => s.clone(),
                None => String::new(),
            },
        }
    }

    /// Whether a usable key is present at all.
    pub fn check_openai_key(&self) -> (r: bool)
        ensures
            r == (self.spec_openai_key() != Seq::<char>::empty()),
    {
        let key = self.openai_key();
        let r = !key.as_str().is_empty();
        proof {
            if key@.len() == 0 {
                assert(key@ =~= Seq::<char>::empty());
            }
        }
        r
    }

    /// The resolved service base. A base must be available: either the
    /// process environment supplies one, or the configuration resolves to a
    /// non-empty base.
    pub fn openai_base(&self) -> (r: String)
        requires
            self.base_override is Some || self.config.spec_openai_base() != Seq::<char>::empty(),
        ensures
            r@ == self.spec_openai_base(),
    {
        match &self.base_override {
            Some(s) => s.clone(),
            None => self.config.openai_base(),
        }
    }

    /// The resolved embedding width: a configured width of zero falls back
    /// to the default width.
    pub fn dim(&self) -> (r: usize)
        ensures
            r == self.spec_dim(),
    {
        let d = self.config.dim();
        if d == 0 {
            256
        } else {
            d
        }
    }
}

} // verus!
