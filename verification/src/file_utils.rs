//! Name-based file filtering and language detection. The file walk itself
//! is I/O and stays outside the library; these functions decide, from a
//! file's name and kind alone, whether it is indexed and in which language.

use crate::ignore_rules::Ignore;
use crate::language_extensions::FileExtensionList;
use crate::language_extensions::FileExtensionTypeMap;
use crate::text;
use vstd::prelude::*;

verus! {

/// The index of the last dot in `s`, or -1 when there is none.
pub open spec fn spec_last_dot(s: Seq<char>) -> int
    decreases s.len(),
{
    if s.len() == 0 {
        -1
    } else if s.last() == '.' {
        s.len() - 1
    } else {
        spec_last_dot(s.drop_last())
    }
}

/// The extension of a file name, written with its leading dot. A name
/// without a dot has none, and a leading dot alone marks a hidden file,
/// not an extension.
pub open spec fn spec_extension(s: Seq<char>) -> Option<Seq<char>> {
    let d = spec_last_dot(s);
    if d <= 0 {
        None
    } else {
        Some(s.skip(d))
    }
}

/// Some entry of `list` equals `x`.
pub open spec fn spec_in_list(list: Seq<String>, x: Seq<char>) -> bool {
    exists|i: int| 0 <= i < list.len() && #[trigger] list[i]@ == x
}

/// Some entry of `list` is a prefix of `x`.
pub open spec fn spec_any_prefix(list: Seq<String>, x: Seq<char>) -> bool {
    exists|i: int| 0 <= i < list.len() && text::is_prefix(#[trigger] list[i]@, x)
}

/// Some entry of `list` is a suffix of `x`.
pub open spec fn spec_any_suffix(list: Seq<String>, x: Seq<char>) -> bool {
    exists|i: int| 0 <= i < list.len() && text::is_suffix(#[trigger] list[i]@, x)
}

/// Whether a directory entry takes part in indexing: nothing the ignore
/// rules name, prefix or suffix; every directory otherwise; and otherwise
/// exactly the files whose extension is accepted.
pub open spec fn spec_file_filter(
    name: Seq<char>,
    is_dir: bool,
    ignore: Ignore,
    ext_list: Seq<String>,
) -> bool {
    if spec_in_list(ignore.directories@, name) {
        false
    } else if spec_any_prefix(ignore.directory_prefix@, name) {
        false
    } else if spec_any_suffix(ignore.directory_posfix@, name) {
        false
    } else if spec_in_list(ignore.files@, name) {
        false
    } else if spec_any_prefix(ignore.file_prefix@, name) {
        false
    } else if spec_any_suffix(ignore.file_posfix@, name) {
        false
    } else if is_dir {
        true
    } else {
        match spec_extension(name) {
            None => false,
            Some(e) => spec_in_list(ext_list, e),
        }
    }
}

/// The first value associated with `key`, scanning the map in order.
pub open spec fn spec_lookup(map: Seq<(String, String)>, key: Seq<char>) -> Option<Seq<char>>
    decreases map.len(),
{
    if map.len() == 0 {
        None
    } else if map[0].0@ == key {
        Some(map[0].1@)
    } else {
        spec_lookup(map.drop_first(), key)
    }
}

/// The language a file name maps to: the language its extension is
/// associated with, or the unknown marker.
pub open spec fn spec_source_language(name: Seq<char>, map: Seq<(String, String)>) -> Seq<char> {
    match spec_extension(name) {
        None => "unknown"@,
        Some(e) => match spec_lookup(map, e) {
            None => "unknown"@,
            Some(l) => l,
        },
    }
}

/// A dot at `k` with no dot after it is the last dot.
proof fn lemma_last_dot_at(s: Seq<char>, k: int)
    requires
        0 <= k < s.len(),
        s[k] == '.',
        forall|j: int| k < j < s.len() ==> s[j] != '.',
    ensures
        spec_last_dot(s) == k,
    decreases s.len(),
{
    if k < s.len() - 1 {
        lemma_last_dot_at(s.drop_last(), k);
    }
}

/// A name without any dot has no last dot.
proof fn lemma_no_dot(s: Seq<char>)
    requires
        forall|j: int| 0 <= j < s.len() ==> s[j] != '.',
    ensures
        spec_last_dot(s) == -1,
    decreases s.len(),
{
    if s.len() > 0 {
        lemma_no_dot(s.drop_last());
    }
}

/// The extension of a file name, with its leading dot.
pub fn extension_of(name: &str) -> (r: Option<String>)
    ensures
        match r {
            Some(e) => spec_extension(name@) == Some(e@),
            None => spec_extension(name@) is None,
        },
{
    let n = name.unicode_len();
    let mut i: usize = n;
    while i > 0
        invariant
            n == name@.len(),
            0 <= i <= n,
            forall|j: int| i <= j < n ==> name@[j] != '.',
        decreases i,
    {
        if name.get_char(i - 1) == '.' {
            proof {
                lemma_last_dot_at(name@, i - 1);
            }
            if i - 1 == 0 {
                return None;
            }
            let ext = name.substring_char(i - 1, n);
            proof {
                assert(name@.skip(i - 1) =~= name@.subrange(i - 1, n as int));
            }
            return Some(ext.to_owned());
        }
        i = i - 1;
    }
    proof {
        lemma_no_dot(name@);
    }
    None
}

/// Whether a directory entry takes part in indexing, judged from its name
/// and kind against the ignore rules and the accepted extensions.
pub fn file_filter(name: &str, is_dir: bool, ignore: &Ignore, ext_list: &FileExtensionList) -> (r:
    bool)
    ensures
        r == spec_file_filter(name@, is_dir, *ignore, ext_list@),
{
    if text::list_contains(&ignore.directories, name) {
        return false;
    }
    if text::any_prefix_of(&ignore.directory_prefix, name) {
        return false;
    }
    if text::any_suffix_of(&ignore.directory_posfix, name) {
        return false;
    }
    if text::list_contains(&ignore.files, name) {
        return false;
    }
    if text::any_prefix_of(&ignore.file_prefix, name) {
        return false;
    }
    if text::any_suffix_of(&ignore.file_posfix, name) {
        return false;
    }
    if is_dir {
        return true;
    }
    match extension_of(name) {
        None => false,
        Some(ext) => text::list_contains(ext_list, ext.as_str()),
    }
}

/// When no leading entry matches the key, the lookup is decided by the
/// remaining entries.
proof fn lemma_lookup_skip(map: Seq<(String, String)>, key: Seq<char>, i: int)
    requires
        0 <= i <= map.len(),
        forall|j: int| 0 <= j < i ==> (#[trigger] map[j]).0@ != key,
    ensures
        spec_lookup(map, key) == spec_lookup(map.skip(i), key),
    decreases i,
{
    if i > 0 {
        assert(map.drop_first() =~= map.skip(1));
        lemma_lookup_skip(map.skip(1), key, i - 1);
        assert(map.skip(1).skip(i - 1) =~= map.skip(i));
    } else {
        assert(map.skip(0) =~= map);
    }
}

/// The language a file name maps to: the language associated with its
/// extension, or the unknown marker. The name must carry an extension.
pub fn source_language(name: &str, map: &FileExtensionTypeMap) -> (r: String)
    requires
        spec_extension(name@) is Some,
    ensures
        r@ == spec_source_language(name@, map@),
{
    let ext = match extension_of(name) {
        Some(e) => e,
        None => String::new(),
    };
    let mut i: usize = 0;
    while i < map.len()
        invariant
            0 <= i <= map@.len(),
            forall|j: int| 0 <= j < i ==> (#[trigger] map@[j]).0@ != ext@,
            spec_extension(name@) == Some(ext@),
        decreases map@.len() - i,
    {
        let entry = &map[i];
        if text::str_eq(entry.0.as_str(), ext.as_str()) {
            proof {
                lemma_lookup_skip(map@, ext@, i as int);
                assert(map@.skip(i as int)[0] == map@[i as int]);
            }
            return entry.1.clone();
        }
        i = i + 1;
    }
    proof {
        lemma_lookup_skip(map@, ext@, map@.len() as int);
        assert(map@.skip(map@.len() as int).len() == 0);
    }
    String::from_str("unknown")
}

} // verus!
