//! The default ignore rules: directory and file names, prefixes and
//! suffixes that the file walk skips.

use vstd::prelude::*;

verus! {

/// Ignore rules for the file walk: names matched exactly, and name
/// prefixes and suffixes, for directories and files separately.
pub struct Ignore {
    pub directories: Vec<String>,
    pub directory_prefix: Vec<String>,
    pub directory_posfix: Vec<String>,
    pub files: Vec<String>,
    pub file_prefix: Vec<String>,
    pub file_posfix: Vec<String>,
}

/// Appends one literal to a name list.
fn push_name(list: &mut Vec<String>, name: &str)
    ensures
        final(list)@.len() == old(list)@.len() + 1,
        final(list)@[old(list)@.len() as int]@ == name@,
        forall|i: int| 0 <= i < old(list)@.len() ==> final(list)@[i] == old(list)@[i],
{
    list.push(name.to_owned());
}

impl Ignore {
    /// The built-in default rules.
    pub fn new() -> (r: Ignore)
    {
        let mut directories: Vec<String> = Vec::new();
        push_name(&mut directories, ".git");
        push_name(&mut directories, ".github");
        push_name(&mut directories, ".vscode");
        push_name(&mut directories, ".idea");
        push_name(&mut directories, ".gitlab");
        push_name(&mut directories, ".readit");
        push_name(&mut directories, "db");
        push_name(&mut directories, "node_modules");
        push_name(&mut directories, "__pycache__");
        push_name(&mut directories, "dist");
        push_name(&mut directories, "build");
        push_name(&mut directories, "benchmark");
        push_name(&mut directories, "bench");
        push_name(&mut directories, "dockerfiles");
        push_name(&mut directories, "target");
        let mut directory_prefix: Vec<String> = Vec::new();
        push_name(&mut directory_prefix, "test");
        push_name(&mut directory_prefix, "Test");
        let mut directory_posfix: Vec<String> = Vec::new();
        push_name(&mut directory_posfix, "Test");
        push_name(&mut directory_posfix, "test");
        push_name(&mut directory_posfix, ".egg-info");
        let mut files: Vec<String> = Vec::new();
        push_name(&mut files, "README.md");
        push_name(&mut files, "LICENSE");
        push_name(&mut files, "requirements.txt");
        push_name(&mut files, "setup.py");
        push_name(&mut files, "Dockerfile");
        push_name(&mut files, "NOTICE");
        push_name(&mut files, "Makefile");
        push_name(&mut files, "Cargo.toml");
        push_name(&mut files, "Cargo.lock");
        push_name(&mut files, ".gitignore");
        push_name(&mut files, ".dockerignore");
        push_name(&mut files, ".gitattributes");
        push_name(&mut files, ".editorconfig");
        let mut file_prefix: Vec<String> = Vec::new();
        push_name(&mut file_prefix, "test");
        push_name(&mut file_prefix, "Test");
        let mut file_posfix: Vec<String> = Vec::new();
        push_name(&mut file_posfix, "Test");
        push_name(&mut file_posfix, "test");
        push_name(&mut file_posfix, ".pyc");
        push_name(&mut file_posfix, ".pyo");
        push_name(&mut file_posfix, ".swp");
        push_name(&mut file_posfix, ".log");
        push_name(&mut file_posfix, ".tmp");
        push_name(&mut file_posfix, ".bak");
        push_name(&mut file_posfix, ".cache");
        push_name(&mut file_posfix, ".egg-info");
        push_name(&mut file_posfix, ".egg");
        push_name(&mut file_posfix, ".md");
        push_name(&mut file_posfix, ".json");
        push_name(&mut file_posfix, ".yaml");
        push_name(&mut file_posfix, ".toml");
        push_name(&mut file_posfix, ".gz");
        push_name(&mut file_posfix, ".zip");
        push_name(&mut file_posfix, ".tar.gz");
        push_name(&mut file_posfix, ".tar.bz2");
        push_name(&mut file_posfix, ".tar.xz");
        push_name(&mut file_posfix, ".rar");
        push_name(&mut file_posfix, ".7z");
        push_name(&mut file_posfix, ".iso");
        push_name(&mut file_posfix, ".bin");
        push_name(&mut file_posfix, ".exe");
        push_name(&mut file_posfix, ".dll");
        push_name(&mut file_posfix, ".so");
        push_name(&mut file_posfix, ".dylib");
        push_name(&mut file_posfix, ".lib");
        push_name(&mut file_posfix, ".a");
        push_name(&mut file_posfix, ".o");
        push_name(&mut file_posfix, ".class");
        push_name(&mut file_posfix, ".jar");
        push_name(&mut file_posfix, ".war");
        push_name(&mut file_posfix, ".ear");
        push_name(&mut file_posfix, ".apk");
        push_name(&mut file_posfix, ".ipa");
        push_name(&mut file_posfix, ".aab");
        push_name(&mut file_posfix, ".txt");
        push_name(&mut file_posfix, ".template");
        push_name(&mut file_posfix, ".png");
        push_name(&mut file_posfix, ".jpg");
        push_name(&mut file_posfix, ".jpeg");
        push_name(&mut file_posfix, ".gif");
        push_name(&mut file_posfix, ".bmp");
        push_name(&mut file_posfix, ".tif");
        push_name(&mut file_posfix, ".tiff");
        push_name(&mut file_posfix, ".svg");
        push_name(&mut file_posfix, ".webp");
        push_name(&mut file_posfix, ".ico");
        push_name(&mut file_posfix, ".pdf");
        push_name(&mut file_posfix, ".doc");
        push_name(&mut file_posfix, ".docx");
        push_name(&mut file_posfix, ".xls");
        push_name(&mut file_posfix, ".xlsx");
        push_name(&mut file_posfix, ".ppt");
        push_name(&mut file_posfix, ".pptx");
        push_name(&mut file_posfix, ".csv");
        push_name(&mut file_posfix, ".tsv");
        push_name(&mut file_posfix, ".rst");
        push_name(&mut file_posfix, ".tex");
        push_name(&mut file_posfix, ".bib");
        push_name(&mut file_posfix, ".bibtex");
        push_name(&mut file_posfix, ".Dockerfile");
        Ignore {
            directories,
            directory_prefix,
            directory_posfix,
            files,
            file_prefix,
            file_posfix,
        }
    }
}

} // verus!
