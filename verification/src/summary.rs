//! Project summary regeneration: the file purposes currently in the store
//! are collected, sorted by file path for determinism, and joined into one
//! multi-line digest; the condensed summary the external collaborator
//! produces from it is then stored as the single synthetic project-summary
//! row, replacing any earlier one.

use crate::indexing::build_content;
use crate::indexing::spec_build_content;
use crate::store::EntityKind;
use crate::store::Record;
use crate::store::Store;
use crate::store::StoreError;
use crate::store::lemma_filter_push;
use crate::store::lemma_summary_count_delete;
use crate::store::rows_without_file;
use crate::store::spec_summary_count;
use crate::store::spec_summary_file;
use crate::store::summary_pred;
use crate::text;
use crate::text::lex_le;
use vstd::prelude::*;
use vstd::relations::sorted_by;
use vstd::relations::total_ordering;

verus! {

/// Order on (file, purpose) pairs: by file path, purposes breaking ties.
pub open spec fn pair_le(a: (Seq<char>, Seq<char>), b: (Seq<char>, Seq<char>)) -> bool {
    if a.0 != b.0 {
        lex_le(a.0, b.0)
    } else {
        lex_le(a.1, b.1)
    }
}

/// The pair order as a relation value.
pub open spec fn pair_le_fn() -> spec_fn((Seq<char>, Seq<char>), (Seq<char>, Seq<char>)) -> bool {
    |a: (Seq<char>, Seq<char>), b: (Seq<char>, Seq<char>)| pair_le(a, b)
}

/// The pair order is a total ordering, so a sorted arrangement of any
/// multiset of pairs is unique.
pub proof fn lemma_pair_le_total_ordering()
    ensures
        total_ordering(pair_le_fn()),
{
    let le = pair_le_fn();
    assert forall|a: (Seq<char>, Seq<char>)| #[trigger] le(a, a) by {
        text::lemma_lex_le_refl(a.0);
        text::lemma_lex_le_refl(a.1);
    }
    assert forall|a: (Seq<char>, Seq<char>), b: (Seq<char>, Seq<char>)|
        #[trigger] le(a, b) && #[trigger] le(b, a) implies a == b by {
        if a.0 == b.0 {
            text::lemma_lex_le_antisymmetric(a.1, b.1);
        } else {
            text::lemma_lex_le_antisymmetric(a.0, b.0);
        }
    }
    assert forall|a: (Seq<char>, Seq<char>), b: (Seq<char>, Seq<char>), c: (Seq<char>, Seq<char>)|
        #[trigger] le(a, b) && #[trigger] le(b, c) implies le(a, c) by {
        if a.0 == b.0 && b.0 == c.0 {
            text::lemma_lex_le_trans(a.1, b.1, c.1);
        } else if a.0 == b.0 {
            assert(lex_le(b.0, c.0));
        } else if b.0 == c.0 {
            assert(lex_le(a.0, b.0));
        } else {
            text::lemma_lex_le_trans(a.0, b.0, c.0);
            if a.0 == c.0 {
                text::lemma_lex_le_antisymmetric(a.0, b.0);
            }
        }
    }
    assert forall|a: (Seq<char>, Seq<char>), b: (Seq<char>, Seq<char>)|
        #[trigger] le(a, b) || #[trigger] le(b, a) by {
        if a.0 == b.0 {
            text::lemma_lex_le_total(a.1, b.1);
        } else {
            text::lemma_lex_le_total(a.0, b.0);
        }
    }
}

/// The predicate of file-kind rows.
pub open spec fn file_pred() -> spec_fn(Record) -> bool {
    |r: Record| r.entity_kind == EntityKind::File
}

/// The (file, purpose) pair a row contributes to the digest.
pub open spec fn pair_of(r: Record) -> (Seq<char>, Seq<char>) {
    (r.file@, r.purpose@)
}

/// The (file, purpose) pairs of the file-kind rows, in store order.
pub open spec fn file_purpose_pairs(rows: Seq<Record>) -> Seq<(Seq<char>, Seq<char>)> {
    rows.filter(file_pred()).map_values(|r: Record| pair_of(r))
}

/// The views of a vector of string pairs.
pub open spec fn pair_views(s: Seq<(String, String)>) -> Seq<(Seq<char>, Seq<char>)> {
    s.map_values(|p: (String, String)| (p.0@, p.1@))
}

/// One digest line: the file path, a separator, and the file's purpose.
pub open spec fn digest_entry(p: (Seq<char>, Seq<char>)) -> Seq<char> {
    p.0 + ": "@ + p.1
}

/// The digest lines joined with newlines.
pub open spec fn join_pairs(s: Seq<(Seq<char>, Seq<char>)>) -> Seq<char>
    decreases s.len(),
{
    if s.len() == 0 {
        Seq::empty()
    } else if s.len() == 1 {
        digest_entry(s[0])
    } else {
        digest_entry(s[0]) + "\n"@ + join_pairs(s.drop_first())
    }
}

/// The digest of a store's rows: the file purposes of its file-kind rows,
/// sorted by file path, joined into one multi-line text.
pub open spec fn spec_digest(rows: Seq<Record>) -> Seq<char> {
    join_pairs(file_purpose_pairs(rows).sort_by(pair_le_fn()))
}

/// Joining one further pair appends a newline and its line, or is just its
/// line when nothing was joined yet.
proof fn lemma_join_pairs_push(s: Seq<(Seq<char>, Seq<char>)>, p: (Seq<char>, Seq<char>))
    ensures
        join_pairs(s.push(p)) == if s.len() == 0 {
            digest_entry(p)
        } else {
            join_pairs(s) + "\n"@ + digest_entry(p)
        },
    decreases s.len(),
{
    reveal_with_fuel(join_pairs, 3);
    if s.len() == 0 {
        assert(s.push(p)[0] == p);
        assert(s.push(p).len() == 1);
    } else if s.len() == 1 {
        assert(s.push(p).drop_first() =~= seq![p]);
        assert(join_pairs(s.push(p).drop_first()) == digest_entry(p));
    } else {
        assert(s.push(p).drop_first() =~= s.drop_first().push(p));
        lemma_join_pairs_push(s.drop_first(), p);
        assert(digest_entry(s[0]) + "\n"@ + (join_pairs(s.drop_first()) + "\n"@ + digest_entry(p))
            =~= (digest_entry(s[0]) + "\n"@ + join_pairs(s.drop_first())) + "\n"@ + digest_entry(
            p,
        ));
    }
}

/// The (file, purpose) pairs of the file-kind rows, in store order.
pub fn collect_file_purposes(rows: &Vec<Record>) -> (r: Vec<(String, String)>)
    ensures
        pair_views(r@) == file_purpose_pairs(rows@),
{
    let mut r: Vec<(String, String)> = Vec::new();
    let mut i: usize = 0;
    proof {
        reveal(Seq::filter);
        assert(rows@.take(0) =~= Seq::<Record>::empty());
        assert(pair_views(r@) =~= file_purpose_pairs(rows@.take(0)));
    }
    while i < rows.len()
        invariant
            0 <= i <= rows@.len(),
            pair_views(r@) == file_purpose_pairs(rows@.take(i as int)),
        decreases rows@.len() - i,
    {
        let row = &rows[i];
        proof {
            assert(rows@.take(i + 1) =~= rows@.take(i as int).push(rows@[i as int]));
            lemma_filter_push(rows@.take(i as int), file_pred(), rows@[i as int]);
        }
        let is_file = match row.entity_kind {
            EntityKind::File => true,
            EntityKind::Class => false,
            EntityKind::Function => false,
        };
        if is_file {
            let ghost prev = r@;
            r.push((row.file.clone(), row.purpose.clone()));
            proof {
                assert(pair_views(r@) =~= pair_views(prev).push((row.file@, row.purpose@)));
                assert(file_purpose_pairs(rows@.take(i + 1)) =~= file_purpose_pairs(
                    rows@.take(i as int),
                ).push(pair_of(rows@[i as int])));
            }
        }
        i = i + 1;
    }
    proof {
        assert(rows@.take(rows@.len() as int) =~= rows@);
    }
    r
}

/// Compares two pairs in the digest order.
fn pair_le_exec(a: &(String, String), b: &(String, String)) -> (r: bool)
    ensures
        r == pair_le((a.0@, a.1@), (b.0@, b.1@)),
{
    if text::str_eq(a.0.as_str(), b.0.as_str()) {
        text::str_le(a.1.as_str(), b.1.as_str())
    } else {
        text::str_le(a.0.as_str(), b.0.as_str())
    }
}

/// Pairs sorted in the digest order, stated directly over the order.
pub open spec fn pairs_sorted(s: Seq<(Seq<char>, Seq<char>)>) -> bool {
    forall|i: int, j: int| 0 <= i < j < s.len() ==> pair_le(#[trigger] s[i], #[trigger] s[j])
}

/// The pair order is total.
proof fn lemma_pair_le_total(a: (Seq<char>, Seq<char>), b: (Seq<char>, Seq<char>))
    ensures
        pair_le(a, b) || pair_le(b, a),
{
    if a.0 == b.0 {
        text::lemma_lex_le_total(a.1, b.1);
    } else {
        text::lemma_lex_le_total(a.0, b.0);
    }
}

/// The pair order is transitive.
proof fn lemma_pair_le_trans(
    a: (Seq<char>, Seq<char>),
    b: (Seq<char>, Seq<char>),
    c: (Seq<char>, Seq<char>),
)
    requires
        pair_le(a, b),
        pair_le(b, c),
    ensures
        pair_le(a, c),
{
    if a.0 == b.0 && b.0 == c.0 {
        text::lemma_lex_le_trans(a.1, b.1, c.1);
    } else if a.0 == b.0 || b.0 == c.0 {
    } else {
        text::lemma_lex_le_trans(a.0, b.0, c.0);
        if a.0 == c.0 {
            text::lemma_lex_le_antisymmetric(a.0, b.0);
        }
    }
}

/// Sorts (file, purpose) pairs into the digest order. The result is the
/// unique sorted arrangement of the input pairs.
pub fn sort_file_pairs(pairs: Vec<(String, String)>) -> (r: Vec<(String, String)>)
    ensures
        pair_views(r@) == pair_views(pairs@).sort_by(pair_le_fn()),
        sorted_by(pair_views(r@), pair_le_fn()),
        pair_views(r@).to_multiset() == pair_views(pairs@).to_multiset(),
{
    let mut out: Vec<(String, String)> = Vec::new();
    let mut p: usize = 0;
    proof {
        broadcast use vstd::seq_lib::group_to_multiset_ensures;

        assert(pair_views(pairs@.take(0)) =~= Seq::<(Seq<char>, Seq<char>)>::empty());
        assert(pair_views(out@) =~= Seq::<(Seq<char>, Seq<char>)>::empty());
        assert(pair_views(out@).to_multiset() =~= pair_views(pairs@.take(0)).to_multiset());
    }
    while p < pairs.len()
        invariant
            0 <= p <= pairs@.len(),
            pairs_sorted(pair_views(out@)),
            pair_views(out@).to_multiset() == pair_views(pairs@.take(p as int)).to_multiset(),
        decreases pairs@.len() - p,
    {
        let entry = &pairs[p];
        let x = (entry.0.clone(), entry.1.clone());
        let ghost xv = (x.0@, x.1@);
        let ghost before = pair_views(out@);
        let mut k: usize = 0;
        while k < out.len()
            invariant_except_break
                0 <= k <= before.len(),
                pair_views(out@) == before,
                pairs_sorted(before),
                forall|j: int| 0 <= j < k ==> !pair_le(xv, #[trigger] before[j]),
                xv == (x.0@, x.1@),
            ensures
                0 <= k <= before.len(),
                pair_views(out@) == before,
                pairs_sorted(before),
                forall|j: int| 0 <= j < k ==> !pair_le(xv, #[trigger] before[j]),
                k < before.len() ==> pair_le(xv, before[k as int]),
                xv == (x.0@, x.1@),
            decreases before.len() - k,
        {
            if pair_le_exec(&x, &out[k]) {
                break ;
            }
            k = k + 1;
        }
        out.insert(k, x);
        proof {
            broadcast use vstd::seq_lib::group_to_multiset_ensures;

            let after = pair_views(out@);
            assert(after =~= before.insert(k as int, xv));
            before.insert_ensures(k as int, xv);
            vstd::seq_lib::to_multiset_insert(before, k as int, xv);
            assert(pairs@.take(p + 1) =~= pairs@.take(p as int).push(pairs@[p as int]));
            assert(pair_views(pairs@.take(p + 1)) =~= pair_views(pairs@.take(p as int)).push(xv));
            // The insertion point preserves sortedness: everything before it
            // is at most the new pair, everything after at least it.
            assert forall|i: int, j: int| 0 <= i < j < after.len() implies pair_le(
                #[trigger] after[i],
                #[trigger] after[j],
            ) by {
                if j < k {
                    assert(after[i] == before[i]);
                    assert(after[j] == before[j]);
                    assert(pair_le(before[i], before[j]));
                } else if j == k {
                    assert(after[j] == xv);
                    assert(after[i] == before[i]);
                    assert(!pair_le(xv, before[i]));
                    lemma_pair_le_total(before[i], xv);
                } else if i < k {
                    assert(after[i] == before[i]);
                    assert(after[j] == before[j - 1]);
                    assert(pair_le(before[i], before[j - 1]));
                } else if i == k {
                    assert(after[i] == xv);
                    assert(after[j] == before[j - 1]);
                    assert(k <= j - 1 < before.len());
                    assert(pair_le(xv, before[k as int]));
                    if j - 1 == k {
                        assert(pair_le(xv, before[j - 1]));
                    } else {
                        assert(pair_le(before[k as int], before[j - 1]));
                        lemma_pair_le_trans(xv, before[k as int], before[j - 1]);
                    }
                } else {
                    assert(after[i] == before[i - 1]);
                    assert(after[j] == before[j - 1]);
                    assert(pair_le(before[i - 1], before[j - 1]));
                }
            }
        }
        p = p + 1;
    }
    proof {
        assert(pairs@.take(pairs@.len() as int) =~= pairs@);
        lemma_pair_le_total_ordering();
        let le = pair_le_fn();
        assert forall|i: int, j: int| 0 <= i < j < pair_views(out@).len() implies #[trigger] le(
            pair_views(out@)[i],
            pair_views(out@)[j],
        ) by {
            assert(pair_le(pair_views(out@)[i], pair_views(out@)[j]));
        }
        assert(sorted_by(pair_views(out@), le));
        pair_views(pairs@).lemma_sort_by_ensures(le);
        vstd::seq_lib::lemma_sorted_unique(pair_views(out@), pair_views(pairs@).sort_by(le), le);
        assert(pair_views(out@) =~= pair_views(pairs@).sort_by(le));
    }
    out
}

/// Joins digest lines: each pair becomes "file: purpose", lines separated
/// by newlines.
pub fn join_digest(pairs: &Vec<(String, String)>) -> (r: String)
    ensures
        r@ == join_pairs(pair_views(pairs@)),
{
    let mut r = String::new();
    let mut i: usize = 0;
    proof {
        assert(pair_views(pairs@.take(0)) =~= Seq::<(Seq<char>, Seq<char>)>::empty());
    }
    while i < pairs.len()
        invariant
            0 <= i <= pairs@.len(),
            r@ == join_pairs(pair_views(pairs@.take(i as int))),
            r@.len() == 0 <==> pair_views(pairs@.take(i as int)).len() == 0 || r@.len() == 0,
        decreases pairs@.len() - i,
    {
        let entry = &pairs[i];
        if i > 0 {
            r.append("\n");
        }
        r.append(entry.0.as_str());
        r.append(": ");
        r.append(entry.1.as_str());
        proof {
            assert(pairs@.take(i + 1) =~= pairs@.take(i as int).push(pairs@[i as int]));
            assert(pair_views(pairs@.take(i + 1)) =~= pair_views(pairs@.take(i as int)).push(
                (entry.0@, entry.1@),
            ));
            lemma_join_pairs_push(pair_views(pairs@.take(i as int)), (entry.0@, entry.1@));
        }
        i = i + 1;
    }
    proof {
        assert(pairs@.take(pairs@.len() as int) =~= pairs@);
    }
    r
}

/// The digest the summary is regenerated from: the file purposes of the
/// store's file-kind rows, sorted by file path, one line per file.
pub fn summary_digest(store: &Store) -> (r: String)
    ensures
        r@ == spec_digest(store@),
{
    let pairs = collect_file_purposes(store.all());
    let sorted = sort_file_pairs(pairs);
    join_digest(&sorted)
}

/// The shape of a freshly regenerated summary row.
pub open spec fn is_fresh_summary_row(r: Record, purpose: Seq<char>, embedding: Seq<i64>) -> bool {
    &&& r.file@ == spec_summary_file()
    &&& r.content_hash@ == Seq::<char>::empty()
    &&& r.entity_kind == EntityKind::File
    &&& r.language@ == Seq::<char>::empty()
    &&& r.name@ == "whole project summary"@
    &&& r.purpose@ == purpose
    &&& r.source_text@ == Seq::<char>::empty()
    &&& r.content@ == spec_build_content(
        spec_summary_file(),
        "file"@,
        "whole project summary"@,
        purpose,
        Seq::<char>::empty(),
    )
    &&& r.embedding@ == embedding
}

/// Stores the regenerated project summary: any earlier summary row is
/// removed, and the new one inserted, so that exactly one summary row
/// remains afterwards. Fails, with the store unchanged, exactly when the
/// embedding is not admissible.
pub fn apply_summary(store: &mut Store, purpose: String, embedding: Vec<i64>) -> (result: Result<
    (),
    StoreError,
>)
    requires
        old(store).wf(),
    ensures
        final(store).wf(),
        final(store).spec_dim() == old(store).spec_dim(),
        result is Ok <==> embedding@.len() == old(store).spec_dim()
            && crate::pooling::components_ok(embedding@),
        match result {
            Ok(()) => {
                &&& final(store)@.len() == rows_without_file(old(store)@, spec_summary_file()).len()
                    + 1
                &&& final(store)@ == rows_without_file(old(store)@, spec_summary_file()).push(
                    final(store)@.last(),
                )
                &&& is_fresh_summary_row(final(store)@.last(), purpose@, embedding@)
                &&& spec_summary_count(final(store)@) == 1
            },
            Err(_) => final(store)@ == old(store)@,
        },
{
    let file = String::from_str("whole project");
    let name = String::from_str("whole project summary");
    let content = build_content(file.as_str(), "file", name.as_str(), purpose.as_str(), "");
    let record = Record {
        file,
        content_hash: String::new(),
        entity_kind: EntityKind::File,
        language: String::new(),
        name,
        purpose,
        source_text: String::new(),
        content,
        embedding,
    };
    // Validate before mutating, so a failure leaves the store untouched.
    if record.embedding.len() != store.dim() {
        return Err(StoreError::DimensionMismatch);
    }
    let mut j: usize = 0;
    while j < record.embedding.len()
        invariant
            0 <= j <= embedding@.len(),
            forall|k: int| 0 <= k < j ==> crate::pooling::component_ok(#[trigger] embedding@[k]),
            *store == *old(store),
            old(store).wf(),
            record.embedding@ == embedding@,
            embedding@.len() == old(store).spec_dim(),
        decreases embedding@.len() - j,
    {
        let c = record.embedding[j];
        if c < -crate::pooling::COMPONENT_LIMIT || c > crate::pooling::COMPONENT_LIMIT {
            return Err(StoreError::ComponentOutOfRange);
        }
        j = j + 1;
    }
    proof {
        assert(crate::pooling::components_ok(embedding@));
    }
    let ghost rec = record;
    store.delete_file("whole project");
    let ghost deleted = store@;
    let result = store.insert(record);
    proof {
        reveal_strlit("");
        assert(""@ =~= Seq::<char>::empty());
        assert("whole project"@ == spec_summary_file());
        match result {
            Ok(()) => {
                lemma_summary_count_delete(old(store)@, spec_summary_file());
                lemma_filter_push(deleted, summary_pred(), rec);
                assert(store@.last() == rec);
                assert(is_fresh_summary_row(rec, purpose@, embedding@));
            },
            Err(_) => {
                assert(false);
            },
        }
    }
    result
}

} // verus!
