//! The retrieval engine's core: exact nearest-neighbor ranking of the
//! store's rows against a query embedding, by squared Euclidean distance
//! over the fixed-point components, and the content strings of the top
//! rows in similarity order.

use crate::pooling::components_ok;
use crate::store::Record;
use crate::store::Store;
use vstd::prelude::*;

verus! {

/// The squared difference of the first `n` component pairs.
pub open spec fn dist_prefix(a: Seq<i64>, b: Seq<i64>, n: int) -> int
    decreases n,
{
    if n <= 0 {
        0
    } else {
        dist_prefix(a, b, n - 1) + (a[n - 1] - b[n - 1]) * (a[n - 1] - b[n - 1])
    }
}

/// Squared Euclidean distance between two equal-width embeddings.
pub open spec fn spec_dist(a: Seq<i64>, b: Seq<i64>) -> int {
    dist_prefix(a, b, a.len() as int)
}

/// A prefix distance is never negative and grows with the prefix.
proof fn lemma_dist_prefix_nonneg(a: Seq<i64>, b: Seq<i64>, n: int)
    ensures
        dist_prefix(a, b, n) >= 0,
    decreases n,
{
    if n > 0 {
        lemma_dist_prefix_nonneg(a, b, n - 1);
        assert((a[n - 1] - b[n - 1]) * (a[n - 1] - b[n - 1]) >= 0) by (nonlinear_arith);
    }
}

/// Squared Euclidean distance of two embeddings, exactly.
pub fn distance(a: &Vec<i64>, b: &Vec<i64>) -> (r: i128)
    requires
        a@.len() == b@.len(),
        a@.len() <= 0x8000_0000,
        components_ok(a@),
        components_ok(b@),
    ensures
        r == spec_dist(a@, b@),
        r >= 0,
{
    let n = a.len();
    let mut sum: i128 = 0;
    let mut i: usize = 0;
    while i < n
        invariant
            n == a@.len(),
            n == b@.len(),
            n <= 0x8000_0000,
            components_ok(a@),
            components_ok(b@),
            0 <= i <= n,
            sum == dist_prefix(a@, b@, i as int),
            0 <= sum <= i * 0x1_0000_0000_0000_0000i128,
        decreases n - i,
    {
        let diff: i64 = a[i] - b[i];
        proof {
            assert(-0x1_0000_0000 <= diff as int <= 0x1_0000_0000);
            assert(0 <= (diff as int) * (diff as int) <= 0x1_0000_0000_0000_0000)
                by (nonlinear_arith)
                requires
                    -0x1_0000_0000 <= diff as int <= 0x1_0000_0000,
            ;
        }
        let sq: i128 = (diff as i128) * (diff as i128);
        proof {
            assert((i + 1) * 0x1_0000_0000_0000_0000i128 == i * 0x1_0000_0000_0000_0000i128
                + 0x1_0000_0000_0000_0000i128) by (nonlinear_arith);
            assert((i + 1) * 0x1_0000_0000_0000_0000i128 <= 0x8000_0000i128
                * 0x1_0000_0000_0000_0000i128) by (nonlinear_arith)
                requires
                    0 <= i + 1 <= 0x8000_0000i128,
            ;
        }
        sum = sum + sq;
        i = i + 1;
    }
    sum
}

/// The distance of row `i` to the query.
pub open spec fn row_dist(rows: Seq<Record>, query: Seq<i64>, i: int) -> int {
    spec_dist(rows[i].embedding@, query)
}

/// Every row's embedding is comparable to the query: same width, bounded
/// components.
pub open spec fn rows_comparable(rows: Seq<Record>, query: Seq<i64>) -> bool {
    &&& query.len() <= 0x8000_0000
    &&& components_ok(query)
    &&& forall|i: int|
        0 <= i < rows.len() ==> (#[trigger] rows[i]).embedding@.len() == query.len()
            && components_ok(rows[i].embedding@)
}

/// A valid nearest-neighbor ranking of `rows` against `query`, keeping `k`
/// rows: the kept indices are distinct rows, ordered by non-decreasing
/// distance, and no kept row is farther than any row left out.
pub open spec fn is_nearest_ranking(
    rows: Seq<Record>,
    query: Seq<i64>,
    k: int,
    idx: Seq<usize>,
) -> bool {
    &&& idx.len() == if k < rows.len() {
        k
    } else {
        rows.len() as int
    }
    &&& forall|a: int| 0 <= a < idx.len() ==> (#[trigger] idx[a]) < rows.len()
    &&& forall|a: int, b: int| 0 <= a < b < idx.len() ==> idx[a] != idx[b]
    &&& forall|a: int, b: int|
        0 <= a < b < idx.len() ==> row_dist(rows, query, #[trigger] idx[a] as int) <= row_dist(
            rows,
            query,
            #[trigger] idx[b] as int,
        )
    &&& forall|a: int, i: int|
        0 <= a < idx.len() && 0 <= i < rows.len() && !idx.contains(i as usize) ==> row_dist(
            rows,
            query,
            #[trigger] idx[a] as int,
        ) <= #[trigger] row_dist(rows, query, i)
}

/// Whether row `i` is at most as far from the query as row `j`.
fn dist_le(rows: &Vec<Record>, query: &Vec<i64>, i: usize, j: usize) -> (r: bool)
    requires
        rows_comparable(rows@, query@),
        i < rows@.len(),
        j < rows@.len(),
    ensures
        r == (row_dist(rows@, query@, i as int) <= row_dist(rows@, query@, j as int)),
{
    let di = distance(&rows[i].embedding, query);
    let dj = distance(&rows[j].embedding, query);
    di <= dj
}

/// Ranks every row by distance to the query and keeps the `k` nearest:
/// the exact nearest-neighbor ranking.
pub fn nearest_indices(rows: &Vec<Record>, query: &Vec<i64>, k: usize) -> (r: Vec<usize>)
    requires
        rows_comparable(rows@, query@),
    ensures
        is_nearest_ranking(rows@, query@, k as int, r@),
{
    let n = rows.len();
    let mut out: Vec<usize> = Vec::new();
    let mut i: usize = 0;
    while i < n
        invariant
            n == rows@.len(),
            rows_comparable(rows@, query@),
            0 <= i <= n,
            out@.len() == i,
            forall|a: int| 0 <= a < out@.len() ==> (#[trigger] out@[a]) < i,
            forall|a: int, b: int| 0 <= a < b < out@.len() ==> out@[a] != out@[b],
            forall|v: int| 0 <= v < i ==> out@.contains(#[trigger] (v as usize)),
            forall|a: int, b: int|
                0 <= a < b < out@.len() ==> row_dist(rows@, query@, #[trigger] out@[a] as int)
                    <= row_dist(rows@, query@, #[trigger] out@[b] as int),
        decreases n - i,
    {
        let ghost before = out@;
        let mut pos: usize = 0;
        while pos < out.len()
            invariant_except_break
                out@ == before,
                0 <= pos <= before.len(),
                rows_comparable(rows@, query@),
                i < n == rows@.len(),
                forall|a: int| 0 <= a < before.len() ==> (#[trigger] before[a]) < i,
                forall|a: int, b: int| 0 <= a < b < before.len() ==> before[a] != before[b],
                forall|a: int, b: int|
                    0 <= a < b < before.len() ==> row_dist(rows@, query@, #[trigger] before[a] as int)
                        <= row_dist(rows@, query@, #[trigger] before[b] as int),
                forall|j: int|
                    0 <= j < pos ==> row_dist(rows@, query@, #[trigger] before[j] as int)
                        <= row_dist(rows@, query@, i as int),
            ensures
                out@ == before,
                0 <= pos <= before.len(),
                forall|a: int| 0 <= a < before.len() ==> (#[trigger] before[a]) < i,
                forall|a: int, b: int| 0 <= a < b < before.len() ==> before[a] != before[b],
                forall|a: int, b: int|
                    0 <= a < b < before.len() ==> row_dist(rows@, query@, #[trigger] before[a] as int)
                        <= row_dist(rows@, query@, #[trigger] before[b] as int),
                forall|j: int|
                    0 <= j < pos ==> row_dist(rows@, query@, #[trigger] before[j] as int)
                        <= row_dist(rows@, query@, i as int),
                pos < before.len() ==> row_dist(rows@, query@, i as int) < row_dist(
                    rows@,
                    query@,
                    before[pos as int] as int,
                ),
            decreases before.len() - pos,
        {
            if !dist_le(rows, query, out[pos], i) {
                break ;
            }
            pos = pos + 1;
        }
        out.insert(pos, i);
        proof {
            before.insert_ensures(pos as int, i);
            let after = out@;
            assert(after =~= before.insert(pos as int, i));
            assert forall|v: int| 0 <= v < i + 1 implies after.contains(#[trigger] (v as usize)) by {
                if v == i as int {
                    assert(after[pos as int] == i);
                } else {
                    assert(before.contains(v as usize));
                    let w = choose|w: int| 0 <= w < before.len() && before[w] == v as usize;
                    if w < pos {
                        assert(after[w] == v as usize);
                    } else {
                        assert(after[w + 1] == v as usize);
                    }
                }
            }
            assert forall|a: int, b: int| 0 <= a < b < after.len() implies after[a] != after[b] by {
                if b < pos {
                    assert(after[a] == before[a]);
                    assert(after[b] == before[b]);
                } else if b == pos {
                    assert(after[b] == i);
                    assert(after[a] == before[a]);
                } else if a < pos {
                    assert(after[a] == before[a]);
                    assert(after[b] == before[b - 1]);
                } else if a == pos {
                    assert(after[a] == i);
                    assert(after[b] == before[b - 1]);
                } else {
                    assert(after[a] == before[a - 1]);
                    assert(after[b] == before[b - 1]);
                }
            }
            assert forall|a: int, b: int| 0 <= a < b < after.len() implies row_dist(
                rows@,
                query@,
                #[trigger] after[a] as int,
            ) <= row_dist(rows@, query@, #[trigger] after[b] as int) by {
                if b < pos {
                    assert(after[a] == before[a]);
                    assert(after[b] == before[b]);
                } else if b == pos {
                    assert(after[b] == i);
                    assert(after[a] == before[a]);
                } else if a < pos {
                    assert(after[a] == before[a]);
                    assert(after[b] == before[b - 1]);
                } else if a == pos {
                    assert(after[a] == i);
                    assert(after[b] == before[b - 1]);
                    assert(pos <= b - 1 < before.len());
                    assert(row_dist(rows@, query@, i as int) < row_dist(
                        rows@,
                        query@,
                        before[pos as int] as int,
                    ));
                    if b - 1 > pos {
                        assert(row_dist(rows@, query@, before[pos as int] as int) <= row_dist(
                            rows@,
                            query@,
                            before[b - 1] as int,
                        ));
                    }
                } else {
                    assert(after[a] == before[a - 1]);
                    assert(after[b] == before[b - 1]);
                }
            }
        }
        i = i + 1;
    }
    // Every index occurs once: the full ranking is a permutation of the rows.
    let keep = if k < n {
        k
    } else {
        n
    };
    let ghost full = out@;
    out.truncate(keep);
    proof {
        assert(out@ =~= full.take(keep as int));
        assert forall|a: int, i2: int|
            0 <= a < out@.len() && 0 <= i2 < rows@.len() && !out@.contains(i2 as usize) implies
            row_dist(rows@, query@, #[trigger] out@[a] as int) <= #[trigger] row_dist(
            rows@,
            query@,
            i2,
        ) by {
            assert(full.contains(i2 as usize));
            let w = choose|w: int| 0 <= w < full.len() && full[w] == i2 as usize;
            if w < keep {
                assert(out@[w] == i2 as usize);
                assert(out@.contains(i2 as usize));
            } else {
                assert(out@[a] == full[a]);
                if a < w {
                    assert(row_dist(rows@, query@, full[a] as int) <= row_dist(
                        rows@,
                        query@,
                        full[w] as int,
                    ));
                }
            }
        }
    }
    out
}

impl Store {
    /// The retrieval engine's search: ranks every row by similarity of its
    /// embedding to the query embedding and hands back the content strings
    /// of up to `k` nearest rows, most similar first.
    pub fn search(&self, query: &Vec<i64>, k: usize) -> (r: Vec<String>)
        requires
            self.wf(),
            query@.len() == self.spec_dim(),
            components_ok(query@),
        ensures
            exists|idx: Seq<usize>|
                {
                    &&& #[trigger] is_nearest_ranking(self@, query@, k as int, idx)
                    &&& r@.len() == idx.len()
                    &&& forall|m: int| 0 <= m < r@.len() ==> r@[m]@ == self@[idx[m] as int].content@
                },
    {
        let rows = self.all();
        proof {
            assert(rows_comparable(rows@, query@));
        }
        let idx = nearest_indices(rows, query, k);
        let mut r: Vec<String> = Vec::new();
        let mut m: usize = 0;
        while m < idx.len()
            invariant
                0 <= m <= idx@.len(),
                rows@ == self@,
                forall|a: int| 0 <= a < idx@.len() ==> (#[trigger] idx@[a]) < rows@.len(),
                r@.len() == m,
                forall|a: int| 0 <= a < m ==> r@[a]@ == self@[#[trigger] idx@[a] as int].content@,
            decreases idx@.len() - m,
        {
            r.push(rows[idx[m]].content.clone());
            m = m + 1;
        }
        proof {
            let chosen = idx@;
            assert(is_nearest_ranking(self@, query@, k as int, chosen));
        }
        r
    }
}

} // verus!
