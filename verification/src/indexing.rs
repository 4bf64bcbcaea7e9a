//! Indexing orchestration logic: assembling descriptor rows from an
//! analysis response, planning which files an incremental run processes,
//! the bounded retry rule for malformed analysis output, and the fence
//! stripping applied to raw analysis text before decoding.

use crate::store::EntityKind;
use crate::store::Record;
use crate::store::Store;
use crate::store::spec_has_matching;
use crate::structs::CodeDescription;
use crate::structs::GPTResponse;
use crate::text;
use vstd::prelude::*;

verus! {

/// How many attempts the analysis exchange is given before a malformed
/// response becomes fatal.
pub const MAX_ANALYSE_ATTEMPTS: u32 = 3;

/// The label under which each entity kind is stored.
pub open spec fn spec_kind_label(kind: EntityKind) -> Seq<char> {
    match kind {
        EntityKind::File => "file"@,
        EntityKind::Class => "class"@,
        EntityKind::Function => "function"@,
    }
}

/// The exact text that is embedded for an entity: a deterministic
/// concatenation of its file, kind, name, purpose and code.
pub open spec fn spec_build_content(
    file: Seq<char>,
    kind_label: Seq<char>,
    name: Seq<char>,
    purpose: Seq<char>,
    source_code: Seq<char>,
) -> Seq<char> {
    "//file "@ + file + " \n//"@ + kind_label + " name: "@ + name + "\n\n// "@ + purpose + "\n"@
        + source_code
}

/// The label under which each entity kind is stored.
pub fn kind_label(kind: EntityKind) -> (r: &'static str)
    ensures
        r@ == spec_kind_label(kind),
{
    match kind {
        EntityKind::File => "file",
        EntityKind::Class => "class",
        EntityKind::Function => "function",
    }
}

/// Builds the exact text that is embedded for an entity.
pub fn build_content(
    file: &str,
    kind_label: &str,
    name: &str,
    purpose: &str,
    source_code: &str,
) -> (r: String)
    ensures
        r@ == spec_build_content(file@, kind_label@, name@, purpose@, source_code@),
{
    let mut r = String::from_str("//file ");
    r.append(file);
    r.append(" \n//");
    r.append(kind_label);
    r.append(" name: ");
    r.append(name);
    r.append("\n\n// ");
    r.append(purpose);
    r.append("\n");
    r.append(source_code);
    r
}

/// Whether a description carries an entity of one file completely: the
/// owning file, fingerprint, kind label and language are all present and
/// have the given values.
pub open spec fn desc_is_entity(
    d: CodeDescription,
    file: Seq<char>,
    md5: Seq<char>,
    label: Seq<char>,
    lang: Seq<char>,
    name: Seq<char>,
    purpose: Seq<char>,
    source_code: Seq<char>,
) -> bool {
    &&& match d.file {
        Some(ref s) => s@ == file,
        None => false,
    }
    &&& match d.md5 {
        Some(ref s) => s@ == md5,
        None => false,
    }
    &&& match d.code_type {
        Some(ref s) => s@ == label,
        None => false,
    }
    &&& match d.lang {
        Some(ref s) => s@ == lang,
        None => false,
    }
    &&& d.name@ == name
    &&& d.purpose@ == purpose
    &&& d.source_code@ == source_code
}

/// The descriptor rows that one analysed file yields: one row for the file
/// itself, then one per described class and one per described function,
/// all sharing the file's path, fingerprint and language.
pub fn file_descriptions(
    response: &GPTResponse,
    f_name: &str,
    f_path: &str,
    md5: &str,
    lang: &str,
    file_content: &str,
) -> (r: Vec<CodeDescription>)
    ensures
        r@.len() == 1 + response.classes@.len() + response.functions@.len(),
        desc_is_entity(
            r@[0],
            f_path@,
            md5@,
            "file"@,
            lang@,
            f_name@,
            response.purpose@,
            file_content@,
        ),
        forall|i: int|
            0 <= i < response.classes@.len() ==> desc_is_entity(
                #[trigger] r@[1 + i],
                f_path@,
                md5@,
                "class"@,
                lang@,
                response.classes@[i].name@,
                response.classes@[i].purpose@,
                response.classes@[i].source_code@,
            ),
        forall|i: int|
            0 <= i < response.functions@.len() ==> desc_is_entity(
                #[trigger] r@[1 + response.classes@.len() + i],
                f_path@,
                md5@,
                "function"@,
                lang@,
                response.functions@[i].name@,
                response.functions@[i].purpose@,
                response.functions@[i].source_code@,
            ),
{
    let mut r: Vec<CodeDescription> = Vec::new();
    r.push(
        CodeDescription {
            name: f_name.to_owned(),
            md5: Some(md5.to_owned()),
            source_code: file_content.to_owned(),
            purpose: response.purpose.clone(),
            lang: Some(lang.to_owned()),
            file: Some(f_path.to_owned()),
            code_type: Some(String::from_str("file")),
        },
    );
    let mut i: usize = 0;
    while i < response.classes.len()
        invariant
            0 <= i <= response.classes@.len(),
            r@.len() == 1 + i,
            desc_is_entity(
                r@[0],
                f_path@,
                md5@,
                "file"@,
                lang@,
                f_name@,
                response.purpose@,
                file_content@,
            ),
            forall|k: int|
                0 <= k < i ==> desc_is_entity(
                    #[trigger] r@[1 + k],
                    f_path@,
                    md5@,
                    "class"@,
                    lang@,
                    response.classes@[k].name@,
                    response.classes@[k].purpose@,
                    response.classes@[k].source_code@,
                ),
        decreases response.classes@.len() - i,
    {
        let c = &response.classes[i];
        r.push(
            CodeDescription {
                name: c.name.clone(),
                md5: Some(md5.to_owned()),
                source_code: c.source_code.clone(),
                purpose: c.purpose.clone(),
                lang: Some(lang.to_owned()),
                file: Some(f_path.to_owned()),
                code_type: Some(String::from_str("class")),
            },
        );
        i = i + 1;
    }
    let ghost classes_len = response.classes@.len() as int;
    let mut j: usize = 0;
    while j < response.functions.len()
        invariant
            0 <= j <= response.functions@.len(),
            classes_len == response.classes@.len(),
            r@.len() == 1 + classes_len + j,
            desc_is_entity(
                r@[0],
                f_path@,
                md5@,
                "file"@,
                lang@,
                f_name@,
                response.purpose@,
                file_content@,
            ),
            forall|k: int|
                0 <= k < classes_len ==> desc_is_entity(
                    #[trigger] r@[1 + k],
                    f_path@,
                    md5@,
                    "class"@,
                    lang@,
                    response.classes@[k].name@,
                    response.classes@[k].purpose@,
                    response.classes@[k].source_code@,
                ),
            forall|k: int|
                0 <= k < j ==> desc_is_entity(
                    #[trigger] r@[1 + classes_len + k],
                    f_path@,
                    md5@,
                    "function"@,
                    lang@,
                    response.functions@[k].name@,
                    response.functions@[k].purpose@,
                    response.functions@[k].source_code@,
                ),
        decreases response.functions@.len() - j,
    {
        let f = &response.functions[j];
        r.push(
            CodeDescription {
                name: f.name.clone(),
                md5: Some(md5.to_owned()),
                source_code: f.source_code.clone(),
                purpose: f.purpose.clone(),
                lang: Some(lang.to_owned()),
                file: Some(f_path.to_owned()),
                code_type: Some(String::from_str("function")),
            },
        );
        j = j + 1;
    }
    r
}

/// The entity kind a stored label denotes.
pub open spec fn spec_kind_of_label(label: Seq<char>) -> Option<EntityKind> {
    if label == "file"@ {
        Some(EntityKind::File)
    } else if label == "class"@ {
        Some(EntityKind::Class)
    } else if label == "function"@ {
        Some(EntityKind::Function)
    } else {
        None
    }
}

/// Builds the descriptor row of one described entity, from its description
/// and the embedding computed for its content. The description must be
/// complete: owning file, fingerprint, language and a known kind label all
/// present.
pub fn record_from_description(desc: &CodeDescription, embedding: Vec<i64>) -> (r: Record)
    requires
        desc.file is Some,
        desc.md5 is Some,
        desc.lang is Some,
        match desc.code_type {
            Some(ref s) => spec_kind_of_label(s@) is Some,
            None => false,
        },
    ensures
        r.file@ == desc.file->0@,
        r.content_hash@ == desc.md5->0@,
        Some(r.entity_kind) == spec_kind_of_label(desc.code_type->0@),
        r.language@ == desc.lang->0@,
        r.name@ == desc.name@,
        r.purpose@ == desc.purpose@,
        r.source_text@ == desc.source_code@,
        r.content@ == spec_build_content(
            desc.file->0@,
            desc.code_type->0@,
            desc.name@,
            desc.purpose@,
            desc.source_code@,
        ),
        r.embedding == embedding,
{
    let file = match &desc.file {
        Some(s) => s.clone(),
        None => String::new(),
    };
    let hash = match &desc.md5 {
        Some(s) => s.clone(),
        None => String::new(),
    };
    let lang = match &desc.lang {
        Some(s) => s.clone(),
        None => String::new(),
    };
    let label = match &desc.code_type {
        Some(s) => s.clone(),
        None => String::new(),
    };
    let entity_kind = if text::str_eq(label.as_str(), "file") {
        EntityKind::File
    } else if text::str_eq(label.as_str(), "class") {
        EntityKind::Class
    } else {
        EntityKind::Function
    };
    let content = build_content(
        file.as_str(),
        label.as_str(),
        desc.name.as_str(),
        desc.purpose.as_str(),
        desc.source_code.as_str(),
    );
    Record {
        file,
        content_hash: hash,
        entity_kind,
        language: lang,
        name: desc.name.clone(),
        purpose: desc.purpose.clone(),
        source_text: desc.source_code.clone(),
        content,
        embedding,
    }
}

/// Plans an incremental run: of the discovered (path, fingerprint) pairs,
/// exactly those whose pair is not yet recorded enter the processing set,
/// in discovery order. A file recorded unchanged is never planned, so
/// re-indexing it a second time adds no writes.
pub fn plan_reindex(files: &Vec<(String, String)>, store: &Store) -> (r: Vec<usize>)
    ensures
        forall|k: int| 0 <= k < r@.len() ==> 0 <= #[trigger] r@[k] < files@.len(),
        forall|k1: int, k2: int| 0 <= k1 < k2 < r@.len() ==> r@[k1] < r@[k2],
        forall|k: int|
            0 <= k < r@.len() ==> !spec_has_matching(
                store@,
                files@[#[trigger] r@[k] as int].0@,
                files@[r@[k] as int].1@,
            ),
        forall|i: int|
            0 <= i < files@.len() && !spec_has_matching(
                store@,
                (#[trigger] files@[i]).0@,
                files@[i].1@,
            ) ==> r@.contains(i as usize),
{
    let mut r: Vec<usize> = Vec::new();
    let mut i: usize = 0;
    while i < files.len()
        invariant
            0 <= i <= files@.len(),
            forall|k: int| 0 <= k < r@.len() ==> 0 <= #[trigger] r@[k] < i,
            forall|k1: int, k2: int| 0 <= k1 < k2 < r@.len() ==> r@[k1] < r@[k2],
            forall|k: int|
                0 <= k < r@.len() ==> !spec_has_matching(
                    store@,
                    files@[#[trigger] r@[k] as int].0@,
                    files@[r@[k] as int].1@,
                ),
            forall|j: int|
                0 <= j < i && !spec_has_matching(store@, (#[trigger] files@[j]).0@, files@[j].1@)
                    ==> r@.contains(j as usize),
        decreases files@.len() - i,
    {
        let entry = &files[i];
        if store.is_file_change(entry.0.as_str(), entry.1.as_str()) {
            let ghost prev = r@;
            r.push(i);
            proof {
                assert(r@[r@.len() - 1] == i);
                assert forall|j: int|
                    0 <= j < i + 1 && !spec_has_matching(
                        store@,
                        (#[trigger] files@[j]).0@,
                        files@[j].1@,
                    ) implies r@.contains(j as usize) by {
                    if j < i {
                        assert(prev.contains(j as usize));
                        let w = choose|w: int| 0 <= w < prev.len() && prev[w] == j as usize;
                        assert(r@[w] == j as usize);
                    } else {
                        assert(r@[r@.len() - 1] == j as usize);
                    }
                }
            }
        }
        i = i + 1;
    }
    r
}

/// The bounded retry rule for malformed analysis output: the raw exchange
/// is attempted again while fewer than three attempts have failed, and
/// becomes fatal on the third failure.
pub struct RetryState {
    pub failures: u32,
}

impl RetryState {
    /// A fresh exchange: no failures yet.
    pub fn new() -> (r: RetryState)
        ensures
            r.failures == 0,
    {
        RetryState { failures: 0 }
    }

    /// Registers one malformed response. The result says whether another
    /// attempt is allowed: it is exactly while fewer than three attempts
    /// have failed.
    pub fn register_failure(&mut self) -> (retry: bool)
        requires
            old(self).failures < u32::MAX,
        ensures
            final(self).failures == old(self).failures + 1,
            retry == (final(self).failures < MAX_ANALYSE_ATTEMPTS),
    {
        self.failures = self.failures + 1;
        self.failures < MAX_ANALYSE_ATTEMPTS
    }
}

/// The barrier over the concurrent per-file jobs: summary regeneration may
/// start only once every dispatched job has finished, never on a partially
/// updated store.
pub struct IndexRun {
    /// How many per-file jobs were dispatched.
    pub dispatched: usize,
    /// How many of them have finished, with success or with a failure.
    pub finished: usize,
}

impl IndexRun {
    /// The barrier is well-formed: no more jobs finished than dispatched.
    pub open spec fn wf(&self) -> bool {
        self.finished <= self.dispatched
    }

    /// A fresh fan-out of the given number of per-file jobs.
    pub fn new(dispatched: usize) -> (r: IndexRun)
        ensures
            r.wf(),
            r.dispatched == dispatched,
            r.finished == 0,
    {
        IndexRun { dispatched, finished: 0 }
    }

    /// Records that one job finished.
    pub fn record_finished(&mut self)
        requires
            old(self).wf(),
            old(self).finished < old(self).dispatched,
        ensures
            final(self).wf(),
            final(self).dispatched == old(self).dispatched,
            final(self).finished == old(self).finished + 1,
    {
        self.finished = self.finished + 1;
    }

    /// Whether summary regeneration may start: exactly when every
    /// dispatched job has finished.
    pub fn summary_allowed(&self) -> (r: bool)
        requires
            self.wf(),
        ensures
            r == (self.finished == self.dispatched),
    {
        self.finished == self.dispatched
    }
}

/// `s` with every occurrence of `pat` removed, scanning left to right and
/// skipping the matched text.
pub open spec fn spec_remove_all(s: Seq<char>, pat: Seq<char>) -> Seq<char>
    decreases s.len(),
{
    if pat.len() == 0 || s.len() < pat.len() {
        s
    } else if s.take(pat.len() as int) == pat {
        spec_remove_all(s.skip(pat.len() as int), pat)
    } else {
        seq![s[0]] + spec_remove_all(s.drop_first(), pat)
    }
}

/// The cleanup applied to raw analysis text before decoding: when the text
/// arrives wrapped in a code fence, the fence opening and every fence
/// marker are removed.
pub open spec fn spec_strip_fences(s: Seq<char>) -> Seq<char> {
    if text::is_prefix("```json\n"@, s) {
        spec_remove_all(spec_remove_all(s, "```json\n"@), "```"@)
    } else {
        s
    }
}

/// Whether `pat` occurs in `s` at position `i`.
fn matches_at(s: &str, n: usize, i: usize, pat: &str, m: usize) -> (r: bool)
    requires
        n == s@.len(),
        m == pat@.len(),
        0 <= i <= n,
    ensures
        r == (i + m <= n && s@.skip(i as int).take(m as int) == pat@),
{
    if m > n - i {
        proof {
            assert(i + m > n);
        }
        return false;
    }
    let mut k: usize = 0;
    while k < m
        invariant
            n == s@.len(),
            m == pat@.len(),
            0 <= i,
            i + m <= n,
            0 <= k <= m,
            forall|j: int| 0 <= j < k ==> s@[i + j] == pat@[j],
        decreases m - k,
    {
        if s.get_char(i + k) != pat.get_char(k) {
            proof {
                assert(s@.skip(i as int).take(m as int)[k as int] == s@[i + k]);
            }
            return false;
        }
        k = k + 1;
    }
    proof {
        assert(s@.skip(i as int).take(m as int) =~= pat@);
    }
    true
}

/// Removes every occurrence of `pat` from `s`, scanning left to right.
pub fn remove_all(s: &str, pat: &str) -> (r: String)
    requires
        pat@.len() >= 1,
    ensures
        r@ == spec_remove_all(s@, pat@),
{
    let n = s.unicode_len();
    let m = pat.unicode_len();
    let mut out = String::new();
    let mut i: usize = 0;
    proof {
        assert(s@.skip(0) =~= s@);
    }
    while i < n
        invariant
            n == s@.len(),
            m == pat@.len(),
            m >= 1,
            0 <= i <= n,
            spec_remove_all(s@, pat@) == out@ + spec_remove_all(s@.skip(i as int), pat@),
        decreases n - i,
    {
        if matches_at(s, n, i, pat, m) {
            proof {
                assert(s@.skip(i as int).skip(m as int) =~= s@.skip(i + m));
            }
            i = i + m;
        } else {
            let piece = s.substring_char(i, i + 1);
            out.append(piece);
            proof {
                assert(s@.skip(i as int)[0] == s@[i as int]);
                assert(s@.subrange(i as int, i + 1) =~= seq![s@[i as int]]);
                assert(s@.skip(i as int).drop_first() =~= s@.skip(i + 1));
                if s@.skip(i as int).len() >= m {
                    assert(spec_remove_all(s@.skip(i as int), pat@) == seq![s@[i as int]]
                        + spec_remove_all(s@.skip(i + 1), pat@));
                } else {
                    assert(s@.skip(i as int).len() < m);
                    assert(spec_remove_all(s@.skip(i as int), pat@) == s@.skip(i as int));
                    assert(s@.skip(i + 1).len() < m);
                    assert(spec_remove_all(s@.skip(i + 1), pat@) == s@.skip(i + 1));
                    assert(s@.skip(i as int) =~= seq![s@[i as int]] + s@.skip(i + 1));
                }
            }
            i = i + 1;
        }
    }
    proof {
        assert(s@.skip(n as int).len() == 0);
        assert(spec_remove_all(s@.skip(n as int), pat@) =~= s@.skip(n as int));
        assert(out@ + s@.skip(n as int) =~= out@);
    }
    out
}

/// Strips the code fences the analysis service sometimes wraps its JSON
/// in: when the text opens with a fence, the opening and every fence
/// marker are removed; otherwise the text passes through unchanged.
pub fn strip_code_fences(s: &str) -> (r: String)
    ensures
        r@ == spec_strip_fences(s@),
{
    proof {
        reveal_strlit("```json\n");
        reveal_strlit("```");
    }
    if text::starts_with(s, "```json\n") {
        let without_opening = remove_all(s, "```json\n");
        remove_all(without_opening.as_str(), "```")
    } else {
        s.to_owned()
    }
}

} // verus!
