use readit::config::Config;
use readit::env::Env;
use readit::file_utils::{extension_of, file_filter, source_language};
use readit::ignore_rules::Ignore;
use readit::language_extensions::LanguageExtensions;
use readit::prompt_utils::{
    analyse_source_file_prompt, ask_prompt, split_source_file_prompt, summarize_prompt,
    ASK_PROMPT_HEAD, CODE_PROMPT_HEAD, LANGUAGE_NOTE,
};
use readit::text::{ends_with, starts_with, str_eq, str_le};

fn full_config() -> Config {
    Config {
        openai_key: Some("key-from-config".to_string()),
        openai_base: None,
        chat_model: None,
        analyse_model: Some("gpt-4".to_string()),
        embedding_model: None,
        dim: None,
        language: None,
    }
}

fn env_with(key: Option<&str>, config: Config, db_present: bool) -> Env {
    Env::new(
        "/home/u/.readit".to_string(),
        "/work/proj".to_string(),
        config,
        Ignore::new(),
        LanguageExtensions::new(),
        key.map(|k| k.to_string()),
        None,
        db_present,
    )
}

#[test]
fn config_getters_supply_defaults() {
    let c = full_config();
    assert_eq!(c.openai_base(), "https://api.openai.com/v1");
    assert_eq!(c.chat_model(), "gpt-4o");
    assert_eq!(c.analyse_model(), "gpt-4");
    assert_eq!(c.embedding_model(), "text-embedding-3-large");
    assert_eq!(c.dim(), 1024);
    assert_eq!(c.language(), "");
}

#[test]
fn default_config_is_the_first_run_configuration() {
    let c = Config::default();
    assert_eq!(c.openai_key, Some("".to_string()));
    assert_eq!(c.dim(), 256);
    assert_eq!(c.chat_model(), "gpt-4o");
}

#[test]
fn reduced_config_default_width() {
    let c = readit::structs::Config {
        openai_key: None,
        openai_base: None,
        chat_model: None,
        analyse_model: None,
        embedding_model: None,
        dim: None,
    };
    assert_eq!(c.dim(), 265);
    assert_eq!(c.chat_model(), "gpt-4o");
}

#[test]
fn environment_key_wins_over_configuration() {
    let env = env_with(Some("from-env"), full_config(), true);
    assert_eq!(env.openai_key(), "from-env");
    assert!(env.check_openai_key());
    let env2 = env_with(None, full_config(), true);
    assert_eq!(env2.openai_key(), "key-from-config");
    let mut bare = full_config();
    bare.openai_key = None;
    let env3 = env_with(None, bare, true);
    assert!(!env3.check_openai_key());
}

#[test]
fn env_paths_and_project_state() {
    let env = env_with(None, full_config(), false);
    assert_eq!(env.work_dir(), "/work/proj");
    assert_eq!(env.home_dir(), "/home/u/.readit");
    assert_eq!(env.temp_dir, "/work/proj/.readit");
    assert!(env.is_new_project());
    let env2 = env_with(None, full_config(), true);
    assert!(!env2.is_new_project());
}

#[test]
fn env_width_zero_falls_back() {
    let mut c = full_config();
    c.dim = Some(0);
    let env = env_with(None, c, true);
    assert_eq!(env.dim(), 256);
    let mut c2 = full_config();
    c2.dim = Some(512);
    let env2 = env_with(None, c2, true);
    assert_eq!(env2.dim(), 512);
}

#[test]
fn extensions_are_taken_after_the_last_dot() {
    assert_eq!(extension_of("main.rs"), Some(".rs".to_string()));
    assert_eq!(extension_of("archive.tar.gz"), Some(".gz".to_string()));
    assert_eq!(extension_of("noext"), None);
    assert_eq!(extension_of(".gitignore"), None);
}

#[test]
fn languages_come_from_the_extension_map() {
    let le = LanguageExtensions::new();
    assert_eq!(source_language("main.rs", &le.ext_type_map), "Rust");
    assert_eq!(source_language("app.py", &le.ext_type_map), "Python");
    assert_eq!(source_language("data.zzz", &le.ext_type_map), "unknown");
}

#[test]
fn the_filter_accepts_sources_and_skips_ignored_names() {
    let ignore = Ignore::new();
    let le = LanguageExtensions::new();
    assert!(file_filter("main.rs", false, &ignore, &le.ext_list));
    assert!(file_filter("src", true, &ignore, &le.ext_list));
    assert!(!file_filter(".git", true, &ignore, &le.ext_list));
    assert!(!file_filter("README.md", false, &ignore, &le.ext_list));
    assert!(!file_filter("test_widget.rs", false, &ignore, &le.ext_list));
    assert!(!file_filter("notes.txt", false, &ignore, &le.ext_list));
    assert!(!file_filter("noext", false, &ignore, &le.ext_list));
}

#[test]
fn text_helpers_compare_by_characters() {
    assert!(str_eq("abc", "abc"));
    assert!(!str_eq("abc", "abd"));
    assert!(!str_eq("abc", "ab"));
    assert!(str_le("abc", "abd"));
    assert!(str_le("ab", "abc"));
    assert!(!str_le("b", "abc"));
    assert!(str_le("same", "same"));
    assert!(starts_with("prefix-rest", "prefix"));
    assert!(!starts_with("pre", "prefix"));
    assert!(ends_with("file.rs", ".rs"));
    assert!(!ends_with("file.rsx", ".rs"));
}

#[test]
fn prompts_splice_their_arguments() {
    let p = analyse_source_file_prompt("Rust", "fn main() {}", "English");
    assert!(p.starts_with(CODE_PROMPT_HEAD));
    assert!(p.contains("fn main() {}"));
    assert!(p.ends_with("English."));
    let s = split_source_file_prompt("Go", "func main() {}", "English");
    assert!(s.contains("func main() {}"));
    assert!(s.contains("classes or functions"));
    let q = ask_prompt(
        "what is this?",
        &vec!["one".to_string(), "two".to_string()],
        "English",
    );
    assert!(q.starts_with(ASK_PROMPT_HEAD));
    assert!(q.contains("one\n\ntwo\n\n"));
    assert!(q.contains(LANGUAGE_NOTE));
    let m = summarize_prompt("a.rs: pa", "English");
    assert!(m.contains("a.rs: pa"));
    assert!(m.ends_with("English."));
}

#[test]
fn ignore_rules_hold_the_defaults() {
    let ignore = Ignore::new();
    assert!(ignore.directories.iter().any(|d| d == ".git"));
    assert!(ignore.files.iter().any(|f| f == "Cargo.toml"));
    assert!(ignore.file_posfix.iter().any(|s| s == ".png"));
    assert!(ignore.file_prefix.iter().any(|s| s == "test"));
}
