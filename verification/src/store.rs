//! The descriptor store: one row per indexed (file, entity) pair, each row
//! carrying a fixed-width embedding. The store offers append, predicate
//! delete keyed on the file path, an equality-filtered membership probe for
//! change detection, and the delete-before-insert update cycle that keeps
//! exactly the new rows of a file after a change.

use crate::pooling::COMPONENT_LIMIT;
use crate::pooling::component_ok;
use crate::pooling::components_ok;
use crate::text;
use vstd::prelude::*;

verus! {

/// The granularity of one descriptor row.
#[derive(Clone, Copy, PartialEq, Eq, Structural, Debug)]
pub enum EntityKind {
    File,
    Class,
    Function,
}

/// One descriptor row: an indexed entity of one file, with the exact text
/// that was embedded and its fixed-width embedding.
pub struct Record {
    /// Canonical path of the owning file; groups all rows of one file.
    pub file: String,
    /// Fingerprint of the owning file's content at analysis time.
    pub content_hash: String,
    /// Granularity of this row.
    pub entity_kind: EntityKind,
    /// Detected source language of the owning file.
    pub language: String,
    /// Entity identifier: file path, class name, or function name.
    pub name: String,
    /// Natural-language description of the entity.
    pub purpose: String,
    /// Raw code of the entity.
    pub source_text: String,
    /// The exact text that was embedded.
    pub content: String,
    /// Fixed-point embedding of `content`, of the store's width.
    pub embedding: Vec<i64>,
}

/// Errors that the store reports.
#[derive(Clone, Copy, PartialEq, Eq, Structural, Debug)]
pub enum StoreError {
    /// The row's embedding does not have the store's width.
    DimensionMismatch,
    /// An embedding component lies outside the fixed-point range.
    ComponentOutOfRange,
}

/// A row is admissible for a store of width `dim`.
pub open spec fn record_wf(r: Record, dim: int) -> bool {
    &&& r.embedding@.len() == dim
    &&& components_ok(r.embedding@)
}

/// The file key under which the rolling cross-file summary is stored.
pub open spec fn spec_summary_file() -> Seq<char> {
    "whole project"@
}

/// Whether a row is the synthetic project-summary row.
pub open spec fn is_summary_row(r: Record) -> bool {
    r.file@ == spec_summary_file()
}

/// The predicate of rows that survive a delete of `file`.
pub open spec fn keeps_other_file(file: Seq<char>) -> spec_fn(Record) -> bool {
    |r: Record| r.file@ != file
}

/// The predicate of project-summary rows.
pub open spec fn summary_pred() -> spec_fn(Record) -> bool {
    |r: Record| is_summary_row(r)
}

/// The rows that remain once every row of `file` is removed.
pub open spec fn rows_without_file(rows: Seq<Record>, file: Seq<char>) -> Seq<Record> {
    rows.filter(keeps_other_file(file))
}

/// The value a row carries in a named column, for the equality-filtered
/// select; an unknown column name has no value.
pub open spec fn spec_column_value(r: Record, column: Seq<char>) -> Option<Seq<char>> {
    if column == "file"@ {
        Some(r.file@)
    } else if column == "md5"@ {
        Some(r.content_hash@)
    } else if column == "code_type"@ {
        match r.entity_kind {
            EntityKind::File => Some("file"@),
            EntityKind::Class => Some("class"@),
            EntityKind::Function => Some("function"@),
        }
    } else if column == "lang"@ {
        Some(r.language@)
    } else if column == "name"@ {
        Some(r.name@)
    } else {
        None
    }
}

/// Whether some row carries exactly this (file, fingerprint) pair.
pub open spec fn spec_has_matching(rows: Seq<Record>, file: Seq<char>, hash: Seq<char>) -> bool {
    exists|i: int|
        0 <= i < rows.len() && (#[trigger] rows[i]).file@ == file && rows[i].content_hash@ == hash
}

/// The number of project-summary rows.
pub open spec fn spec_summary_count(rows: Seq<Record>) -> int {
    rows.filter(summary_pred()).len() as int
}

/// Filtering one more element appends it exactly when it satisfies the
/// predicate.
pub proof fn lemma_filter_push<A>(s: Seq<A>, pred: spec_fn(A) -> bool, x: A)
    ensures
        s.push(x).filter(pred) == if pred(x) {
            s.filter(pred).push(x)
        } else {
            s.filter(pred)
        },
{
    reveal(Seq::filter);
    assert(s.push(x).drop_last() =~= s);
    assert(s.push(x).last() == x);
}

/// Change detection is answered by the store's rows: immediately after a row
/// carrying exactly (file, hash) has been appended, the pair is matched, so
/// `is_file_change` reports no change for it.
pub proof fn lemma_unchanged_after_insert(rows: Seq<Record>, r: Record)
    ensures
        spec_has_matching(rows.push(r), r.file@, r.content_hash@),
{
    assert(rows.push(r)[rows.len() as int] == r);
}

/// Before any row for a path exists, change detection reports a change for
/// that path, whatever fingerprint it carries.
pub proof fn lemma_changed_when_absent(rows: Seq<Record>, file: Seq<char>, hash: Seq<char>)
    requires
        forall|i: int| 0 <= i < rows.len() ==> (#[trigger] rows[i]).file@ != file,
    ensures
        !spec_has_matching(rows, file, hash),
{
}

/// Appending a row adds one to the summary count when the row is the
/// synthetic summary row, and leaves the count unchanged otherwise.
pub proof fn lemma_summary_count_insert(rows: Seq<Record>, r: Record)
    ensures
        spec_summary_count(rows.push(r)) == spec_summary_count(rows) + if is_summary_row(r) {
            1int
        } else {
            0int
        },
{
    lemma_filter_push(rows, summary_pred(), r);
}

/// The summary count distributes over concatenation of row sequences.
pub proof fn lemma_summary_count_append(a: Seq<Record>, b: Seq<Record>)
    ensures
        spec_summary_count(a + b) == spec_summary_count(a) + spec_summary_count(b),
{
    Seq::filter_distributes_over_add(a, b, summary_pred());
}

/// Deleting a file never increases the summary count, and deleting the
/// summary key itself drives the count to zero.
pub proof fn lemma_summary_count_delete(rows: Seq<Record>, file: Seq<char>)
    ensures
        spec_summary_count(rows_without_file(rows, file)) <= spec_summary_count(rows),
        file == spec_summary_file() ==> spec_summary_count(rows_without_file(rows, file)) == 0,
    decreases rows.len(),
{
    reveal(Seq::filter);
    if rows.len() > 0 {
        lemma_summary_count_delete(rows.drop_last(), file);
        let keep = keeps_other_file(file);
        assert(rows.drop_last().filter(keep) == rows_without_file(rows.drop_last(), file));
        if keep(rows.last()) {
            lemma_filter_push(rows_without_file(rows.drop_last(), file), summary_pred(), rows.last());
            assert(rows_without_file(rows, file) == rows_without_file(
                rows.drop_last(),
                file,
            ).push(rows.last()));
        }
        lemma_filter_push(rows.drop_last(), summary_pred(), rows.last());
        assert(rows == rows.drop_last().push(rows.last()));
    }
}

/// The descriptor store. Its width is fixed at construction; every row it
/// holds has an embedding of exactly that width.
pub struct Store {
    rows: Vec<Record>,
    dim: usize,
}

impl View for Store {
    type V = Seq<Record>;

    closed spec fn view(&self) -> Seq<Record> {
        self.rows@
    }
}

impl Store {
    /// The store's embedding width.
    pub closed spec fn spec_dim(&self) -> int {
        self.dim as int
    }

    /// Well-formedness: a positive bounded width, and every row admissible
    /// for it.
    pub open spec fn wf(&self) -> bool {
        &&& 1 <= self.spec_dim() <= 0x8000_0000
        &&& forall|i: int| 0 <= i < self@.len() ==> record_wf(#[trigger] self@[i], self.spec_dim())
    }

    /// An empty store of the given embedding width.
    pub fn new(dim: usize) -> (r: Store)
        requires
            1 <= dim <= 0x8000_0000usize,
        ensures
            r.wf(),
            r.spec_dim() == dim,
            r@ =~= Seq::<Record>::empty(),
    {
        Store { rows: Vec::new(), dim }
    }

    /// The store's embedding width.
    pub fn dim(&self) -> (r: usize)
        ensures
            r == self.spec_dim(),
    {
        self.dim
    }

    /// Every row, in insertion order.
    pub fn all(&self) -> (r: &Vec<Record>)
        ensures
            r@ == self@,
    {
        &self.rows
    }

    /// The number of rows.
    pub fn len(&self) -> (r: usize)
        ensures
            r == self@.len(),
    {
        self.rows.len()
    }

    /// Appends one row. The append fails, and leaves the store unchanged,
    /// exactly when the row's embedding does not fit the store's width or
    /// a component lies outside the fixed-point range.
    pub fn insert(&mut self, r: Record) -> (result: Result<(), StoreError>)
        requires
            old(self).wf(),
        ensures
            final(self).wf(),
            final(self).spec_dim() == old(self).spec_dim(),
            match result {
                Ok(()) => final(self)@ == old(self)@.push(r) && record_wf(
                    r,
                    old(self).spec_dim(),
                ),
                Err(StoreError::DimensionMismatch) => final(self)@ == old(self)@
                    && r.embedding@.len() != old(self).spec_dim(),
                Err(StoreError::ComponentOutOfRange) => final(self)@ == old(self)@
                    && r.embedding@.len() == old(self).spec_dim() && !components_ok(r.embedding@),
            },
    {
        if r.embedding.len() != self.dim {
            return Err(StoreError::DimensionMismatch);
        }
        let mut j: usize = 0;
        while j < r.embedding.len()
            invariant
                0 <= j <= r.embedding@.len(),
                forall|k: int| 0 <= k < j ==> component_ok(#[trigger] r.embedding@[k]),
                *self == *old(self),
                old(self).wf(),
                r.embedding@.len() == old(self).spec_dim(),
            decreases r.embedding@.len() - j,
        {
            let c = r.embedding[j];
            if c < -COMPONENT_LIMIT || c > COMPONENT_LIMIT {
                return Err(StoreError::ComponentOutOfRange);
            }
            j = j + 1;
        }
        self.rows.push(r);
        proof {
            assert forall|i: int| 0 <= i < self@.len() implies record_wf(
                #[trigger] self@[i],
                self.spec_dim(),
            ) by {
                if i < old(self)@.len() {
                    assert(self@[i] == old(self)@[i]);
                    assert(record_wf(old(self)@[i], old(self).spec_dim()));
                } else {
                    assert(self@[i] == r);
                }
            }
        }
        Ok(())
    }

    /// Removes every row whose file key equals `file`; all other rows stay,
    /// in order.
    pub fn delete_file(&mut self, file: &str)
        requires
            old(self).wf(),
        ensures
            final(self).wf(),
            final(self).spec_dim() == old(self).spec_dim(),
            final(self)@ == rows_without_file(old(self)@, file@),
    {
        let ghost orig = self.rows@;
        let mut i: usize = 0;
        let ghost mut j: int = 0;
        proof {
            reveal(Seq::filter);
            assert(self.rows@.take(0) =~= orig.take(0).filter(keeps_other_file(file@)));
            assert(self.rows@.skip(0) =~= orig.skip(0));
            assert(orig == old(self)@);
            assert forall|k: int| 0 <= k < orig.len() implies record_wf(
                #[trigger] orig[k],
                old(self).spec_dim(),
            ) by {
                assert(record_wf(old(self)@[k], old(self).spec_dim()));
            }
        }
        while i < self.rows.len()
            invariant
                0 <= i as int <= self.rows@.len(),
                0 <= j <= orig.len(),
                self.rows@.len() - i as int == orig.len() - j,
                self.rows@.skip(i as int) == orig.skip(j),
                self.rows@.take(i as int) == orig.take(j).filter(keeps_other_file(file@)),
                forall|k: int|
                    0 <= k < orig.len() ==> record_wf(#[trigger] orig[k], old(self).spec_dim()),
                forall|k: int|
                    0 <= k < self.rows@.len() ==> record_wf(
                        #[trigger] self.rows@[k],
                        old(self).spec_dim(),
                    ),
                self.spec_dim() == old(self).spec_dim(),
                1 <= self.spec_dim() <= 0x8000_0000,
            decreases self.rows@.len() - i,
        {
            proof {
                assert(self.rows@.skip(i as int)[0] == self.rows@[i as int]);
                assert(orig.skip(j)[0] == orig[j]);
                assert(orig.take(j + 1) =~= orig.take(j).push(orig[j]));
                lemma_filter_push(orig.take(j), keeps_other_file(file@), orig[j]);
            }
            let keep = !text::str_eq(self.rows[i].file.as_str(), file);
            if keep {
                proof {
                    assert(self.rows@.take(i as int + 1) =~= self.rows@.take(i as int).push(
                        self.rows@[i as int],
                    ));
                    assert(self.rows@.skip(i as int + 1) =~= self.rows@.skip(
                        i as int,
                    ).drop_first());
                    assert(orig.skip(j + 1) =~= orig.skip(j).drop_first());
                }
                i = i + 1;
            } else {
                let ghost before = self.rows@;
                let _removed = self.rows.remove(i);
                proof {
                    before.remove_ensures(i as int);
                    assert(self.rows@.take(i as int) =~= before.take(i as int));
                    assert(self.rows@.skip(i as int) =~= before.skip(i as int + 1));
                    assert(before.skip(i as int + 1) =~= before.skip(i as int).drop_first());
                    assert(orig.skip(j + 1) =~= orig.skip(j).drop_first());
                    assert forall|k: int| 0 <= k < self.rows@.len() implies record_wf(
                        #[trigger] self.rows@[k],
                        old(self).spec_dim(),
                    ) by {
                        assert(self.rows@[k] == before.remove(i as int)[k]);
                    }
                }
            }
            proof {
                j = j + 1;
            }
        }
        proof {
            assert(self.rows@.take(i as int) =~= self.rows@);
            assert(orig.take(j) =~= orig);
        }
    }

    /// Removes every row.
    pub fn clean_all(&mut self)
        requires
            old(self).wf(),
        ensures
            final(self).wf(),
            final(self).spec_dim() == old(self).spec_dim(),
            final(self)@ =~= Seq::<Record>::empty(),
    {
        self.rows.clear();
    }

    /// Whether some row carries exactly this (file, fingerprint) pair.
    pub fn has_matching(&self, file: &str, hash: &str) -> (r: bool)
        ensures
            r == spec_has_matching(self@, file@, hash@),
    {
        let mut i: usize = 0;
        while i < self.rows.len()
            invariant
                0 <= i <= self.rows@.len(),
                forall|k: int|
                    0 <= k < i ==> !((#[trigger] self.rows@[k]).file@ == file@
                        && self.rows@[k].content_hash@ == hash@),
            decreases self.rows@.len() - i,
        {
            let row = &self.rows[i];
            if text::str_eq(row.file.as_str(), file) && text::str_eq(
                row.content_hash.as_str(),
                hash,
            ) {
                return true;
            }
            i = i + 1;
        }
        false
    }

    /// Change detection: a file needs (re)processing exactly when no row
    /// carries its path together with its current fingerprint. This covers
    /// both brand-new files and files whose content changed.
    pub fn is_file_change(&self, file: &str, hash: &str) -> (r: bool)
        ensures
            r == !spec_has_matching(self@, file@, hash@),
    {
        !self.has_matching(file, hash)
    }

    /// The rows matching an equality predicate on one column, by index and
    /// in store order. An unknown column name matches nothing.
    pub fn search_other(&self, column: &str, value: &str) -> (r: Vec<usize>)
        ensures
            forall|k: int| 0 <= k < r@.len() ==> 0 <= #[trigger] r@[k] < self@.len(),
            forall|k1: int, k2: int| 0 <= k1 < k2 < r@.len() ==> r@[k1] < r@[k2],
            forall|k: int|
                0 <= k < r@.len() ==> spec_column_value(self@[#[trigger] r@[k] as int], column@)
                    == Some(value@),
            forall|i: int|
                0 <= i < self@.len() && spec_column_value(#[trigger] self@[i], column@) == Some(
                    value@,
                ) ==> r@.contains(i as usize),
    {
        let mut r: Vec<usize> = Vec::new();
        let mut i: usize = 0;
        while i < self.rows.len()
            invariant
                0 <= i <= self.rows@.len(),
                forall|k: int| 0 <= k < r@.len() ==> 0 <= #[trigger] r@[k] < i,
                forall|k1: int, k2: int| 0 <= k1 < k2 < r@.len() ==> r@[k1] < r@[k2],
                forall|k: int|
                    0 <= k < r@.len() ==> spec_column_value(
                        self.rows@[#[trigger] r@[k] as int],
                        column@,
                    ) == Some(value@),
                forall|j: int|
                    0 <= j < i && spec_column_value(#[trigger] self.rows@[j], column@) == Some(
                        value@,
                    ) ==> r@.contains(j as usize),
            decreases self.rows@.len() - i,
        {
            let row = &self.rows[i];
            let ghost spec_cell = spec_column_value(self.rows@[i as int], column@);
            let matched: bool;
            if text::str_eq(column, "file") {
                matched = text::str_eq(row.file.as_str(), value);
                proof {
                    assert(spec_cell == Some(self.rows@[i as int].file@));
                }
            } else if text::str_eq(column, "md5") {
                matched = text::str_eq(row.content_hash.as_str(), value);
                proof {
                    assert(spec_cell == Some(self.rows@[i as int].content_hash@));
                }
            } else if text::str_eq(column, "code_type") {
                let label: &str = match row.entity_kind {
                    EntityKind::File => "file",
                    EntityKind::Class => "class",
                    EntityKind::Function => "function",
                };
                matched = text::str_eq(label, value);
                proof {
                    assert(spec_cell == Some(label@));
                }
            } else if text::str_eq(column, "lang") {
                matched = text::str_eq(row.language.as_str(), value);
                proof {
                    assert(spec_cell == Some(self.rows@[i as int].language@));
                }
            } else if text::str_eq(column, "name") {
                matched = text::str_eq(row.name.as_str(), value);
                proof {
                    assert(spec_cell == Some(self.rows@[i as int].name@));
                }
            } else {
                matched = false;
                proof {
                    assert(spec_cell is None);
                }
            }
            proof {
                if matched {
                    assert(spec_column_value(self.rows@[i as int], column@) == Some(value@));
                } else {
                    assert(spec_column_value(self.rows@[i as int], column@) != Some(value@));
                }
            }
            if matched {
                let ghost prev = r@;
                r.push(i);
                proof {
                    assert(r@[r@.len() - 1] == i);
                    assert forall|j: int|
                        0 <= j < i + 1 && spec_column_value(
                            #[trigger] self.rows@[j],
                            column@,
                        ) == Some(value@) implies r@.contains(j as usize) by {
                        if j < i {
                            assert(prev.contains(j as usize));
                            let w = choose|w: int| 0 <= w < prev.len() && prev[w] == j as usize;
                            assert(r@[w] == j as usize);
                        } else {
                            assert(r@[r@.len() - 1] == j as usize);
                        }
                    }
                }
            }
            i = i + 1;
        }
        r
    }

    /// The delete-before-insert update cycle for one file: removes every
    /// row of `file`, then appends exactly the given new rows, so that
    /// afterwards the rows of `file` are the new rows and nothing else.
    /// Fails, with the store unchanged, when some new row is not
    /// admissible.
    pub fn update_file(&mut self, file: &str, new_rows: Vec<Record>) -> (result: Result<
        (),
        StoreError,
    >)
        requires
            old(self).wf(),
        ensures
            final(self).wf(),
            final(self).spec_dim() == old(self).spec_dim(),
            match result {
                Ok(()) => final(self)@ == rows_without_file(old(self)@, file@) + new_rows@ && (
                forall|k: int|
                    0 <= k < new_rows@.len() ==> record_wf(
                        #[trigger] new_rows@[k],
                        old(self).spec_dim(),
                    )),
                Err(_) => final(self)@ == old(self)@ && exists|k: int|
                    0 <= k < new_rows@.len() && !record_wf(
                        #[trigger] new_rows@[k],
                        old(self).spec_dim(),
                    ),
            },
    {
        let mut v: usize = 0;
        while v < new_rows.len()
            invariant
                0 <= v <= new_rows@.len(),
                forall|k: int| 0 <= k < v ==> record_wf(#[trigger] new_rows@[k], self.spec_dim()),
                *self == *old(self),
                old(self).wf(),
            decreases new_rows@.len() - v,
        {
            let row = &new_rows[v];
            if row.embedding.len() != self.dim {
                return Err(StoreError::DimensionMismatch);
            }
            let mut j: usize = 0;
            while j < row.embedding.len()
                invariant
                    0 <= j <= row.embedding@.len(),
                    forall|k: int| 0 <= k < j ==> component_ok(#[trigger] row.embedding@[k]),
                    *self == *old(self),
                    old(self).wf(),
                    0 <= v < new_rows@.len(),
                    row == new_rows@[v as int],
                decreases row.embedding@.len() - j,
            {
                let c = row.embedding[j];
                if c < -COMPONENT_LIMIT || c > COMPONENT_LIMIT {
                    return Err(StoreError::ComponentOutOfRange);
                }
                j = j + 1;
            }
            v = v + 1;
        }
        self.delete_file(file);
        let mut fresh = new_rows;
        self.rows.append(&mut fresh);
        Ok(())
    }
}

} // verus!
