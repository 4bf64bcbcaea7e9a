//! Embedding client adapter logic: splitting oversized text into chunks on
//! line boundaries, and folding the per-chunk embedding vectors back into a
//! single fixed-dimension vector by average pooling.
//!
//! The remote embedding call itself is performed outside the library; these
//! functions carry everything around that call: the greedy chunking that
//! feeds it and the pooling fold applied to what it returns.

use crate::pooling::BUFFER_LIMIT;
use crate::pooling::components_ok;
use crate::pooling::pooled_value;
use crate::pooling::pooling;
use vstd::prelude::*;

verus! {

/// Character ceiling for one chunk handed to the embedding service.
pub const CONTEXT_CEILING: usize = 8192;

/// The lines of `s`, split on newline characters, with the current line
/// prefix `cur` carried as an accumulator. Splitting an empty text yields
/// one empty line, as splitting on a separator does.
pub open spec fn split_lines_acc(s: Seq<char>, cur: Seq<char>) -> Seq<Seq<char>>
    decreases s.len(),
{
    if s.len() == 0 {
        seq![cur]
    } else if s[0] == '\n' {
        seq![cur] + split_lines_acc(s.drop_first(), Seq::empty())
    } else {
        split_lines_acc(s.drop_first(), cur.push(s[0]))
    }
}

/// The lines of `s`, split on newline characters.
pub open spec fn spec_split_lines(s: Seq<char>) -> Seq<Seq<char>> {
    split_lines_acc(s, Seq::empty())
}

/// A group of lines joined back with newline separators.
pub open spec fn chunk_of(group: Seq<Seq<char>>) -> Seq<char>
    decreases group.len(),
{
    if group.len() == 0 {
        Seq::empty()
    } else if group.len() == 1 {
        group[0]
    } else {
        group[0].push('\n') + chunk_of(group.drop_first())
    }
}

/// Greedy packing of lines into groups: lines are accumulated into the
/// current group `cur` (whose accumulated character count is `sum`) while
/// the count stays under the ceiling; once a line would reach it, the
/// current group is flushed and a new group starts with that line.
pub open spec fn pack_lines_acc(
    lines: Seq<Seq<char>>,
    ceiling: int,
    cur: Seq<Seq<char>>,
    sum: int,
) -> Seq<Seq<Seq<char>>>
    decreases lines.len(),
{
    if lines.len() == 0 {
        if cur.len() == 0 {
            Seq::empty()
        } else {
            seq![cur]
        }
    } else {
        let line = lines[0];
        if sum + line.len() < ceiling {
            pack_lines_acc(lines.drop_first(), ceiling, cur.push(line), sum + line.len())
        } else {
            let flushed: Seq<Seq<Seq<char>>> = if cur.len() == 0 {
                Seq::empty()
            } else {
                seq![cur]
            };
            flushed + pack_lines_acc(lines.drop_first(), ceiling, seq![line], line.len() as int)
        }
    }
}

/// The line groups that greedy packing forms for content `s`.
pub open spec fn spec_chunk_groups(s: Seq<char>, ceiling: int) -> Seq<Seq<Seq<char>>> {
    pack_lines_acc(spec_split_lines(s), ceiling, Seq::empty(), 0)
}

/// The chunk texts that greedy packing produces for content `s`.
pub open spec fn spec_chunks(s: Seq<char>, ceiling: int) -> Seq<Seq<char>> {
    spec_chunk_groups(s, ceiling).map_values(|group: Seq<Seq<char>>| chunk_of(group))
}

/// A run of non-newline characters ending at the text's end or at a newline
/// forms exactly one line of the split: the accumulated prefix `cur`
/// extended by the scanned run.
proof fn lemma_split_lines_run(s: Seq<char>, start: int, i: int, cur: Seq<char>)
    requires
        0 <= start <= i <= s.len(),
        forall|j: int| start <= j < i ==> s[j] != '\n',
        i == s.len() || s[i] == '\n',
    ensures
        split_lines_acc(s.skip(start), cur) == if i == s.len() {
            seq![cur + s.subrange(start, i)]
        } else {
            seq![cur + s.subrange(start, i)] + split_lines_acc(s.skip(i + 1), Seq::<char>::empty())
        },
    decreases i - start,
{
    if start == i {
        assert(cur + s.subrange(start, i) =~= cur);
        if i == s.len() {
            assert(s.skip(start).len() == 0);
        } else {
            assert(s.skip(start)[0] == s[start]);
            assert(s.skip(start).drop_first() =~= s.skip(start + 1));
        }
    } else {
        assert(s.skip(start)[0] == s[start]);
        assert(s.skip(start).drop_first() =~= s.skip(start + 1));
        lemma_split_lines_run(s, start + 1, i, cur.push(s[start]));
        assert(cur.push(s[start]) + s.subrange(start + 1, i) =~= cur + s.subrange(start, i));
    }
}

/// Splitting never yields an empty sequence of lines.
proof fn lemma_split_lines_nonempty(s: Seq<char>, cur: Seq<char>)
    ensures
        split_lines_acc(s, cur).len() >= 1,
    decreases s.len(),
{
    if s.len() != 0 && s[0] != '\n' {
        lemma_split_lines_nonempty(s.drop_first(), cur.push(s[0]));
    }
}

/// Packing a non-empty sequence of lines yields at least one chunk, as does
/// packing with a non-empty group already accumulated.
proof fn lemma_pack_nonempty(lines: Seq<Seq<char>>, ceiling: int, cur: Seq<Seq<char>>, sum: int)
    requires
        lines.len() >= 1 || cur.len() >= 1,
    ensures
        pack_lines_acc(lines, ceiling, cur, sum).len() >= 1,
    decreases lines.len(),
{
    if lines.len() != 0 {
        let line = lines[0];
        if sum + line.len() < ceiling {
            lemma_pack_nonempty(lines.drop_first(), ceiling, cur.push(line), sum + line.len());
        } else {
            lemma_pack_nonempty(lines.drop_first(), ceiling, seq![line], line.len() as int);
        }
    }
}

/// Greedy packing drops no line: the groups carry, in order, the
/// accumulated group followed by every line handed in.
proof fn lemma_pack_keeps_lines(lines: Seq<Seq<char>>, ceiling: int, cur: Seq<Seq<char>>, sum: int)
    ensures
        pack_lines_acc(lines, ceiling, cur, sum).flatten() == cur + lines,
    decreases lines.len(),
{
    let packed = pack_lines_acc(lines, ceiling, cur, sum);
    if lines.len() == 0 {
        if cur.len() == 0 {
            assert(packed.flatten() =~= cur + lines);
        } else {
            packed.lemma_flatten_one_element();
            assert(cur + lines =~= cur);
        }
    } else {
        let line = lines[0];
        if sum + line.len() < ceiling {
            lemma_pack_keeps_lines(lines.drop_first(), ceiling, cur.push(line), sum + line.len());
            assert(cur.push(line) + lines.drop_first() =~= cur + lines);
        } else {
            let packrest = pack_lines_acc(lines.drop_first(), ceiling, seq![line], line.len() as int);
            lemma_pack_keeps_lines(lines.drop_first(), ceiling, seq![line], line.len() as int);
            if cur.len() == 0 {
                assert(packed =~= packrest);
                assert(seq![line] + lines.drop_first() =~= cur + lines);
            } else {
                assert(packed =~= seq![cur] + packrest);
                assert((seq![cur] + packrest)[0] == cur);
                assert((seq![cur] + packrest).drop_first() =~= packrest);
                assert(packed.flatten() == cur + packrest.flatten());
                assert(cur + (seq![line] + lines.drop_first()) =~= cur + lines);
            }
        }
    }
}

/// Chunking loses no content: the line groups that greedy packing forms,
/// flattened back together, are exactly the lines of the original text.
pub proof fn lemma_chunks_keep_lines(s: Seq<char>, ceiling: int)
    ensures
        spec_chunk_groups(s, ceiling).flatten() == spec_split_lines(s),
{
    lemma_pack_keeps_lines(spec_split_lines(s), ceiling, Seq::empty(), 0);
    assert(Seq::<Seq<char>>::empty() + spec_split_lines(s) =~= spec_split_lines(s));
}

/// Every text splits into at least one chunk.
pub proof fn lemma_chunks_nonempty(s: Seq<char>, ceiling: int)
    ensures
        spec_chunks(s, ceiling).len() >= 1,
{
    lemma_split_lines_nonempty(s, Seq::empty());
    lemma_pack_nonempty(spec_split_lines(s), ceiling, Seq::empty(), 0);
}

/// Joining a further line onto a group appends a separator and the line,
/// or is just the line when the group was empty.
proof fn lemma_chunk_of_push(group: Seq<Seq<char>>, line: Seq<char>)
    ensures
        chunk_of(group.push(line)) == if group.len() == 0 {
            line
        } else {
            chunk_of(group).push('\n') + line
        },
    decreases group.len(),
{
    reveal_with_fuel(chunk_of, 3);
    if group.len() == 0 {
        assert(group.push(line)[0] =~= line);
        assert(group.push(line).len() == 1);
        assert(chunk_of(group.push(line)) =~= line);
    } else if group.len() == 1 {
        assert(group.push(line).drop_first() =~= seq![line]);
        assert(chunk_of(group.push(line).drop_first()) == line);
        assert(chunk_of(group.push(line)) == group[0].push('\n') + line);
    } else {
        assert(group.push(line).drop_first() =~= group.drop_first().push(line));
        lemma_chunk_of_push(group.drop_first(), line);
        assert(group[0].push('\n') + (chunk_of(group.drop_first()).push('\n') + line) =~= (
        group[0].push('\n') + chunk_of(group.drop_first())).push('\n') + line);
    }
}

/// The lines of `s`, as strings.
fn split_lines(s: &str) -> (r: Vec<String>)
    ensures
        r@.map_values(|l: String| l@) == spec_split_lines(s@),
{
    let n = s.unicode_len();
    let mut lines: Vec<String> = Vec::new();
    let mut start: usize = 0;
    let mut i: usize = 0;
    proof {
        assert(s@.skip(0) =~= s@);
    }
    while i < n
        invariant
            n == s@.len(),
            0 <= start <= i <= n,
            forall|j: int| start <= j < i ==> s@[j] != '\n',
            spec_split_lines(s@) == lines@.map_values(|l: String| l@) + split_lines_acc(
                s@.skip(start as int),
                Seq::<char>::empty(),
            ),
        decreases n - i,
    {
        let c = s.get_char(i);
        if c == '\n' {
            let line = s.substring_char(start, i);
            let ghost prev = lines@;
            lines.push(line.to_owned());
            proof {
                lemma_split_lines_run(s@, start as int, i as int, Seq::<char>::empty());
                assert(Seq::<char>::empty() + s@.subrange(start as int, i as int) =~= s@.subrange(
                    start as int,
                    i as int,
                ));
                assert(lines@.map_values(|l: String| l@) =~= prev.map_values(|l: String| l@)
                    + seq![s@.subrange(start as int, i as int)]);
                assert(prev.map_values(|l: String| l@) + (seq![
                    s@.subrange(start as int, i as int),
                ] + split_lines_acc(s@.skip(i as int + 1), Seq::<char>::empty()))
                    =~= lines@.map_values(|l: String| l@) + split_lines_acc(
                    s@.skip(i as int + 1),
                    Seq::<char>::empty(),
                ));
            }
            start = i + 1;
        }
        i = i + 1;
    }
    let last = s.substring_char(start, n);
    let ghost prev = lines@;
    lines.push(last.to_owned());
    proof {
        lemma_split_lines_run(s@, start as int, n as int, Seq::<char>::empty());
        assert(Seq::<char>::empty() + s@.subrange(start as int, n as int) =~= s@.subrange(
            start as int,
            n as int,
        ));
        assert(lines@.map_values(|l: String| l@) =~= prev.map_values(|l: String| l@) + seq![
            s@.subrange(start as int, n as int),
        ]);
    }
    lines
}

/// Splits text into chunks for embedding: lines are packed greedily into
/// chunks whose accumulated character count stays under the ceiling; once a
/// line would reach the ceiling, the current chunk is flushed and a new one
/// starts with that line. No line is dropped, and the final chunk is kept.
pub fn split_string(s: &str, ceiling: usize) -> (r: Vec<String>)
    requires
        1 <= ceiling,
    ensures
        r@.map_values(|c: String| c@) == spec_chunks(s@, ceiling as int),
        r@.len() >= 1,
{
    let lines = split_lines(s);
    let ghost all_lines = lines@.map_values(|l: String| l@);
    let mut chunks: Vec<String> = Vec::new();
    let ghost mut emitted: Seq<Seq<Seq<char>>> = Seq::empty();
    let mut cur = String::new();
    let ghost mut cur_group: Seq<Seq<char>> = Seq::empty();
    let mut cur_count: usize = 0;
    let mut sum: usize = 0;
    let mut p: usize = 0;
    proof {
        assert(all_lines.skip(0) =~= all_lines);
        assert(Seq::<Seq<Seq<char>>>::empty() + pack_lines_acc(
            all_lines,
            ceiling as int,
            Seq::empty(),
            0,
        ) =~= pack_lines_acc(all_lines, ceiling as int, Seq::empty(), 0));
    }
    while p < lines.len()
        invariant
            1 <= ceiling,
            all_lines == lines@.map_values(|l: String| l@),
            0 <= p <= lines@.len(),
            cur_count == cur_group.len(),
            cur_count <= p,
            cur@ == chunk_of(cur_group),
            chunks@.len() == emitted.len(),
            forall|k: int| 0 <= k < emitted.len() ==> chunks@[k]@ == chunk_of(#[trigger] emitted[k]),
            spec_chunk_groups(s@, ceiling as int) == emitted + pack_lines_acc(
                all_lines.skip(p as int),
                ceiling as int,
                cur_group,
                sum as int,
            ),
        decreases lines@.len() - p,
    {
        proof {
            assert(all_lines.skip(p as int)[0] == all_lines[p as int]);
            assert(all_lines.skip(p as int).drop_first() =~= all_lines.skip(p as int + 1));
        }
        let line = &lines[p];
        let line_len = line.as_str().unicode_len();
        if sum < ceiling && line_len < ceiling - sum {
            if cur_count == 0 {
                cur = line.clone();
            } else {
                cur.append("\n");
                cur.append(line.as_str());
            }
            proof {
                reveal_strlit("\n");
                lemma_chunk_of_push(cur_group, line@);
                if cur_group.len() > 0 {
                    assert(chunk_of(cur_group) + "\n"@ + line@ =~= chunk_of(cur_group).push('\n')
                        + line@);
                }
                cur_group = cur_group.push(line@);
            }
            cur_count = cur_count + 1;
            sum = sum + line_len;
        } else {
            if cur_count > 0 {
                chunks.push(cur);
                proof {
                    emitted = emitted.push(cur_group);
                }
            }
            cur = line.clone();
            proof {
                cur_group = seq![line@];
                assert(chunk_of(cur_group) == line@);
                assert(spec_chunk_groups(s@, ceiling as int) == emitted + pack_lines_acc(
                    all_lines.skip(p as int + 1),
                    ceiling as int,
                    cur_group,
                    line@.len() as int,
                ));
            }
            cur_count = 1;
            sum = line_len;
        }
        p = p + 1;
    }
    proof {
        assert(all_lines.skip(p as int) =~= Seq::<Seq<char>>::empty());
    }
    if cur_count > 0 {
        chunks.push(cur);
        proof {
            emitted = emitted.push(cur_group);
        }
    }
    proof {
        assert(spec_chunk_groups(s@, ceiling as int) =~= emitted);
        assert(chunks@.map_values(|c: String| c@) =~= spec_chunks(s@, ceiling as int));
        lemma_chunks_nonempty(s@, ceiling as int);
    }
    chunks
}

/// The concatenation, in chunk order, of the first `p` of the per-chunk
/// embedding vectors.
pub open spec fn flat_prefix(parts: Seq<Seq<i64>>, p: int) -> Seq<i64>
    decreases p,
{
    if p <= 0 {
        Seq::empty()
    } else {
        flat_prefix(parts, p - 1) + parts[p - 1]
    }
}

/// The flat buffer accumulated from all per-chunk embedding vectors.
pub open spec fn spec_flat_embeddings(parts: Seq<Seq<i64>>) -> Seq<i64> {
    flat_prefix(parts, parts.len() as int)
}

/// Folds the per-chunk embedding vectors returned for an oversized input
/// back into a single vector of exactly `dim` components: the vectors are
/// concatenated in chunk order into a flat buffer of length
/// `dim * parts.len()`, and fixed-stride average pooling reduces that
/// buffer to `dim` components, each the pooled value of its window.
pub fn fold_embeddings(dim: usize, parts: &Vec<Vec<i64>>) -> (r: Vec<i64>)
    requires
        1 <= dim,
        1 <= parts@.len(),
        parts@.len() * dim <= BUFFER_LIMIT,
        forall|p: int| 0 <= p < parts@.len() ==> #[trigger] parts@[p]@.len() == dim,
        forall|p: int| 0 <= p < parts@.len() ==> components_ok(#[trigger] parts@[p]@),
    ensures
        r@.len() == dim,
        forall|i: int|
            0 <= i < r@.len() ==> r@[i] == pooled_value(
                spec_flat_embeddings(parts@.map_values(|v: Vec<i64>| v@)),
                i,
                parts@.len() as int,
            ),
        components_ok(r@),
{
    let ghost views = parts@.map_values(|v: Vec<i64>| v@);
    let mut flat: Vec<i64> = Vec::new();
    let mut p: usize = 0;
    while p < parts.len()
        invariant
            views == parts@.map_values(|v: Vec<i64>| v@),
            0 <= p <= parts@.len(),
            parts@.len() * dim as int <= BUFFER_LIMIT,
            1 <= dim,
            forall|q: int| 0 <= q < parts@.len() ==> #[trigger] parts@[q]@.len() == dim,
            forall|q: int| 0 <= q < parts@.len() ==> components_ok(#[trigger] parts@[q]@),
            flat@ == flat_prefix(views, p as int),
            flat@.len() == p * dim,
            components_ok(flat@),
        decreases parts@.len() - p,
    {
        proof {
            assert(p * dim as int + dim as int == (p + 1) * dim as int) by (nonlinear_arith);
            assert((p + 1) * dim as int <= parts@.len() * dim as int) by (nonlinear_arith)
                requires
                    p + 1 <= parts@.len(),
                    dim as int >= 0,
            ;
        }
        let part = &parts[p];
        let mut q: usize = 0;
        while q < part.len()
            invariant
                0 <= q <= part@.len(),
                part@ == views[p as int],
                part@.len() == dim,
                p < views.len(),
                components_ok(part@),
                flat@ == flat_prefix(views, p as int) + part@.take(q as int),
                components_ok(flat@),
                flat_prefix(views, p as int).len() == p * dim,
                (p + 1) * dim as int <= BUFFER_LIMIT,
                flat@.len() == flat_prefix(views, p as int).len() + q,
            decreases part@.len() - q,
        {
            flat.push(part[q]);
            proof {
                assert(part@.take(q as int + 1) =~= part@.take(q as int).push(part@[q as int]));
                assert(flat@ =~= flat_prefix(views, p as int) + part@.take(q as int + 1));
            }
            q = q + 1;
        }
        proof {
            assert(part@.take(part@.len() as int) =~= part@);
        }
        p = p + 1;
    }
    proof {
        assert(flat@ == spec_flat_embeddings(views));
        assert(parts@.len() * dim as int == flat@.len());
        assert(dim <= flat@.len()) by (nonlinear_arith)
            requires
                flat@.len() == parts@.len() * dim as int,
                parts@.len() >= 1,
                dim as int >= 1,
        ;
    }
    let folded = pooling(dim, &flat);
    proof {
        crate::pooling::lemma_pool_restores_dim(parts@.len() as int, dim as int);
        assert(parts@.len() * dim as int == flat@.len());
    }
    folded
}

} // verus!
