//! The mapping from file-name extensions to source languages, and the list
//! of extensions the indexer accepts.

use vstd::prelude::*;

verus! {

/// The accepted file-name extensions, each written with its leading dot.
pub type FileExtensionList = Vec<String>;

/// The extension-to-language association, keyed by extensions written with
/// their leading dot.
pub type FileExtensionTypeMap = Vec<(String, String)>;

/// The accepted extensions and the language each one marks.
pub struct LanguageExtensions {
    pub ext_list: FileExtensionList,
    pub ext_type_map: FileExtensionTypeMap,
}

/// Appends one extension-to-language entry, keeping the extension list in
/// step with the map.
fn push_entry(list: &mut Vec<String>, map: &mut Vec<(String, String)>, ext: &str, lang: &str)
    ensures
        final(list)@.len() == old(list)@.len() + 1,
        final(map)@.len() == old(map)@.len() + 1,
        final(list)@[old(list)@.len() as int]@ == ext@,
        final(map)@[old(map)@.len() as int].0@ == ext@,
        final(map)@[old(map)@.len() as int].1@ == lang@,
        forall|i: int| 0 <= i < old(list)@.len() ==> final(list)@[i] == old(list)@[i],
        forall|i: int| 0 <= i < old(map)@.len() ==> final(map)@[i] == old(map)@[i],
{
    list.push(ext.to_owned());
    map.push((ext.to_owned(), lang.to_owned()));
}

impl LanguageExtensions {
    /// The built-in association of extensions to languages. Each extension
    /// appears once; where two languages share an extension, one owner is
    /// chosen.
    pub fn new() -> (r: LanguageExtensions)
    {
        let mut ext_list: Vec<String> = Vec::new();
        let mut map: Vec<(String, String)> = Vec::new();
        push_entry(&mut ext_list, &mut map, ".py", "Python");
        push_entry(&mut ext_list, &mut map, ".java", "Java");
        push_entry(&mut ext_list, &mut map, ".js", "JavaScript");
        push_entry(&mut ext_list, &mut map, ".jsx", "JavaScript");
        push_entry(&mut ext_list, &mut map, ".c", "C");
        push_entry(&mut ext_list, &mut map, ".h", "C");
        push_entry(&mut ext_list, &mut map, ".cpp", "C++");
        push_entry(&mut ext_list, &mut map, ".hpp", "C++");
        push_entry(&mut ext_list, &mut map, ".cc", "C++");
        push_entry(&mut ext_list, &mut map, ".cxx", "C++");
        push_entry(&mut ext_list, &mut map, ".hxx", "C++");
        push_entry(&mut ext_list, &mut map, ".cs", "C#");
        push_entry(&mut ext_list, &mut map, ".rb", "Ruby");
        push_entry(&mut ext_list, &mut map, ".rbw", "Ruby");
        push_entry(&mut ext_list, &mut map, ".go", "Go");
        push_entry(&mut ext_list, &mut map, ".swift", "Swift");
        push_entry(&mut ext_list, &mut map, ".kt", "Kotlin");
        push_entry(&mut ext_list, &mut map, ".kts", "Kotlin");
        push_entry(&mut ext_list, &mut map, ".rs", "Rust");
        push_entry(&mut ext_list, &mut map, ".ts", "TypeScript");
        push_entry(&mut ext_list, &mut map, ".tsx", "TypeScript");
        push_entry(&mut ext_list, &mut map, ".html", "HTML");
        push_entry(&mut ext_list, &mut map, ".htm", "HTML");
        push_entry(&mut ext_list, &mut map, ".css", "CSS");
        push_entry(&mut ext_list, &mut map, ".php", "PHP");
        push_entry(&mut ext_list, &mut map, ".phtml", "PHP");
        push_entry(&mut ext_list, &mut map, ".php4", "PHP");
        push_entry(&mut ext_list, &mut map, ".php3", "PHP");
        push_entry(&mut ext_list, &mut map, ".php5", "PHP");
        push_entry(&mut ext_list, &mut map, ".php7", "PHP");
        push_entry(&mut ext_list, &mut map, ".phps", "PHP");
        push_entry(&mut ext_list, &mut map, ".php-s", "PHP");
        push_entry(&mut ext_list, &mut map, ".pl", "Perl");
        push_entry(&mut ext_list, &mut map, ".pm", "Perl");
        push_entry(&mut ext_list, &mut map, ".t", "Perl");
        push_entry(&mut ext_list, &mut map, ".pod", "Perl");
        push_entry(&mut ext_list, &mut map, ".r", "R");
        push_entry(&mut ext_list, &mut map, ".rdata", "R");
        push_entry(&mut ext_list, &mut map, ".rds", "R");
        push_entry(&mut ext_list, &mut map, ".rda", "R");
        push_entry(&mut ext_list, &mut map, ".scala", "Scala");
        push_entry(&mut ext_list, &mut map, ".sc", "Scala");
        push_entry(&mut ext_list, &mut map, ".sh", "Shell");
        push_entry(&mut ext_list, &mut map, ".bash", "Shell");
        push_entry(&mut ext_list, &mut map, ".zsh", "Shell");
        push_entry(&mut ext_list, &mut map, ".csh", "Shell");
        push_entry(&mut ext_list, &mut map, ".tcsh", "Shell");
        push_entry(&mut ext_list, &mut map, ".ksh", "Shell");
        push_entry(&mut ext_list, &mut map, ".lua", "Lua");
        push_entry(&mut ext_list, &mut map, ".m", "Objective-C");
        push_entry(&mut ext_list, &mut map, ".mlx", "MATLAB");
        push_entry(&mut ext_list, &mut map, ".groovy", "Groovy");
        push_entry(&mut ext_list, &mut map, ".grt", "Groovy");
        push_entry(&mut ext_list, &mut map, ".gtpl", "Groovy");
        push_entry(&mut ext_list, &mut map, ".gsp", "Groovy");
        push_entry(&mut ext_list, &mut map, ".mm", "Objective-C");
        push_entry(&mut ext_list, &mut map, ".M", "Objective-C");
        push_entry(&mut ext_list, &mut map, ".asm", "Assembly");
        push_entry(&mut ext_list, &mut map, ".s", "Assembly");
        push_entry(&mut ext_list, &mut map, ".hs", "Haskell");
        push_entry(&mut ext_list, &mut map, ".lhs", "Haskell");
        push_entry(&mut ext_list, &mut map, ".jl", "Julia");
        push_entry(&mut ext_list, &mut map, ".f", "Fortran");
        push_entry(&mut ext_list, &mut map, ".for", "Fortran");
        push_entry(&mut ext_list, &mut map, ".f90", "Fortran");
        push_entry(&mut ext_list, &mut map, ".f95", "Fortran");
        push_entry(&mut ext_list, &mut map, ".f03", "Fortran");
        push_entry(&mut ext_list, &mut map, ".f08", "Fortran");
        push_entry(&mut ext_list, &mut map, ".f15", "Fortran");
        push_entry(&mut ext_list, &mut map, ".pas", "Pascal");
        push_entry(&mut ext_list, &mut map, ".pp", "Pascal");
        push_entry(&mut ext_list, &mut map, ".p", "Pascal");
        push_entry(&mut ext_list, &mut map, ".inc", "Pascal");
        push_entry(&mut ext_list, &mut map, ".sql", "SQL");
        push_entry(&mut ext_list, &mut map, ".xml", "XML");
        LanguageExtensions { ext_list, ext_type_map: map }
    }
}

} // verus!
