//! Fixed-stride average pooling: folds a flat buffer down to a fixed target
//! length. Embedding components are carried as fixed-point integers, so the
//! pooled value of a window is its sum divided by the window width (floor
//! division); the window sum itself is stated exactly, which pins the
//! arithmetic mean of every window.

use vstd::arithmetic::div_mod::lemma_div_basics_5;
use vstd::arithmetic::div_mod::lemma_div_is_ordered;
use vstd::arithmetic::div_mod::lemma_div_multiples_vanish;
use vstd::arithmetic::div_mod::lemma_div_multiples_vanish_fancy;
use vstd::arithmetic::div_mod::lemma_fundamental_div_mod;
use vstd::arithmetic::div_mod::lemma_mod_bound;
use vstd::prelude::*;

verus! {

/// Bound on the magnitude of one embedding component, chosen so that any
/// window sum of a buffer of admissible length fits in an `i64`.
pub const COMPONENT_LIMIT: i64 = 0x8000_0000;

/// Bound on the length of a flat buffer handed to the pooling reducer.
pub const BUFFER_LIMIT: usize = 0x8000_0000;

/// One embedding component stays within the fixed-point range.
pub open spec fn component_ok(x: i64) -> bool {
    -COMPONENT_LIMIT <= x <= COMPONENT_LIMIT
}

/// Every component of a vector stays within the fixed-point range.
pub open spec fn components_ok(s: Seq<i64>) -> bool {
    forall|j: int| 0 <= j < s.len() ==> component_ok(#[trigger] s[j])
}

/// The pooling stride for a buffer of length `len` and target length `dim`.
pub open spec fn pool_stride(len: int, dim: int) -> int {
    len / dim
}

/// The number of values that fixed-stride pooling produces: with pool width
/// equal to the stride, `(len - stride) / stride + 1`.
pub open spec fn pool_out_len(len: int, dim: int) -> int {
    (len - pool_stride(len, dim)) / pool_stride(len, dim) + 1
}

/// Sum of the `width` components starting at `start`.
pub open spec fn window_sum(s: Seq<i64>, start: int, width: int) -> int
    decreases width,
{
    if width <= 0 {
        0
    } else {
        s[start] + window_sum(s, start + 1, width - 1)
    }
}

/// The pooled value of output index `i`: the sum of the stride-wide window
/// starting at `i * stride`, divided by the window width. The quotient is
/// the floor of the window's arithmetic mean.
pub open spec fn pooled_value(s: Seq<i64>, i: int, stride: int) -> int {
    window_sum(s, i * stride, stride) / stride
}

/// A window sum of at most `width` components, each within the component
/// range, is bounded by `width * COMPONENT_LIMIT`.
proof fn lemma_window_sum_bound(s: Seq<i64>, start: int, width: int)
    requires
        0 <= width,
        0 <= start,
        start + width <= s.len(),
        components_ok(s),
    ensures
        -(width * COMPONENT_LIMIT as int) <= window_sum(s, start, width) <= width
            * COMPONENT_LIMIT as int,
    decreases width,
{
    if width > 0 {
        lemma_window_sum_bound(s, start + 1, width - 1);
        assert(width * COMPONENT_LIMIT as int == (width - 1) * COMPONENT_LIMIT as int
            + COMPONENT_LIMIT as int) by (nonlinear_arith);
    }
}

/// Extending a window by one component on the right adds that component to
/// the window sum.
proof fn lemma_window_sum_step(s: Seq<i64>, start: int, width: int)
    requires
        0 <= width,
    ensures
        window_sum(s, start, width + 1) == window_sum(s, start, width) + s[start + width],
    decreases width,
{
    reveal_with_fuel(window_sum, 3);
    if width > 0 {
        lemma_window_sum_step(s, start + 1, width - 1);
    }
}

/// Floor division of a bounded signed value by a small positive divisor.
fn floor_div(x: i64, d: u64) -> (r: i64)
    requires
        1 <= d <= 0x8000_0000u64,
        -0x4000_0000_0000_0000 <= x <= 0x4000_0000_0000_0000,
    ensures
        r as int == x as int / d as int,
{
    if x >= 0 {
        let q = (x as u64) / d;
        q as i64
    } else {
        let mag = (-x) as u64;
        let q = mag / d;
        let rem = mag % d;
        proof {
            lemma_fundamental_div_mod(mag as int, d as int);
            lemma_mod_bound(mag as int, d as int);
        }
        if rem == 0 {
            proof {
                assert(x as int == d as int * -(q as int)) by (nonlinear_arith)
                    requires
                        mag == d as int * (q as int),
                        x as int == -(mag as int),
                ;
                lemma_div_multiples_vanish(-(q as int), d as int);
            }
            -(q as i64)
        } else {
            proof {
                assert(x as int == d as int * (-(q as int) - 1) + (d as int - rem as int))
                    by (nonlinear_arith)
                    requires
                        mag as int == d as int * (q as int) + rem as int,
                        x as int == -(mag as int),
                ;
                lemma_div_multiples_vanish_fancy(-(q as int) - 1, d as int - rem as int, d as int);
            }
            -(q as i64) - 1
        }
    }
}

/// Fixed-stride average pooling over a fixed-point buffer.
///
/// The result has exactly `(len - stride) / stride + 1` components, and the
/// component at index `i` is the floor of the mean of the stride-wide input
/// window starting at offset `i * stride`: its contract states the window
/// sum exactly, so the mean `sum / stride` is pinned as a rational value.
pub fn pooling(dim: usize, input: &Vec<i64>) -> (r: Vec<i64>)
    requires
        1 <= dim <= input@.len(),
        input@.len() <= BUFFER_LIMIT,
        components_ok(input@),
    ensures
        r@.len() == pool_out_len(input@.len() as int, dim as int),
        forall|i: int|
            0 <= i < r@.len() ==> r@[i] == pooled_value(
                input@,
                i,
                pool_stride(input@.len() as int, dim as int),
            ),
        components_ok(r@),
{
    let len = input.len();
    proof {
        lemma_div_basics_5(len as int, dim as int);
        vstd::arithmetic::div_mod::lemma_div_by_self(dim as int);
        lemma_div_is_ordered(dim as int, len as int, dim as int);
    }
    let stride = len / dim;
    let ghost st = stride as int;
    let out_width = (len - stride) / stride + 1;
    let ghost ow = out_width as int;
    proof {
        // Every window, up to the last one, stays inside the buffer.
        lemma_fundamental_div_mod(len as int - st, st);
        lemma_mod_bound(len as int - st, st);
        assert((ow - 1) * st == st * ((len as int - st) / st)) by (nonlinear_arith)
            requires
                ow - 1 == (len as int - st) / st,
        ;
    }
    let mut out: Vec<i64> = Vec::new();
    let mut i: usize = 0;
    while i < out_width
        invariant
            st == pool_stride(len as int, dim as int),
            1 <= st <= len <= BUFFER_LIMIT,
            ow == pool_out_len(len as int, dim as int),
            (ow - 1) * st <= len - st,
            len == input@.len(),
            components_ok(input@),
            0 <= i <= out_width,
            i == out@.len(),
            stride == st,
            out_width == ow,
            forall|k: int| 0 <= k < out@.len() ==> out@[k] == pooled_value(input@, k, st),
            components_ok(out@),
        decreases out_width - i,
    {
        proof {
            assert(i * st <= (ow - 1) * st) by (nonlinear_arith)
                requires
                    i <= ow - 1,
                    st >= 0,
            ;
        }
        let base = i * stride;
        let mut sum: i64 = 0;
        let mut m: usize = 0;
        while m < stride
            invariant
                0 <= m <= st,
                base == i as int * st,
                base + st <= len,
                len == input@.len(),
                components_ok(input@),
                sum == window_sum(input@, base as int, m as int),
                -(m * COMPONENT_LIMIT as int) <= sum <= m * COMPONENT_LIMIT as int,
                stride == st,
                1 <= st <= len <= BUFFER_LIMIT,
            decreases st - m,
        {
            proof {
                lemma_window_sum_step(input@, base as int, m as int);
                assert((m + 1) * COMPONENT_LIMIT as int == m * COMPONENT_LIMIT as int
                    + COMPONENT_LIMIT as int) by (nonlinear_arith);
                assert((m + 1) * COMPONENT_LIMIT as int <= BUFFER_LIMIT as int
                    * COMPONENT_LIMIT as int) by (nonlinear_arith)
                    requires
                        0 <= m + 1 <= BUFFER_LIMIT as int,
                ;
            }
            sum = sum + input[base + m];
            m = m + 1;
        }
        proof {
            lemma_window_sum_bound(input@, base as int, st);
            assert(st * COMPONENT_LIMIT as int <= BUFFER_LIMIT as int * COMPONENT_LIMIT as int)
                by (nonlinear_arith)
                requires
                    0 <= st <= BUFFER_LIMIT as int,
            ;
        }
        let quotient = floor_div(sum, stride as u64);
        proof {
            // The floor of the window mean stays within the component range.
            lemma_div_is_ordered(window_sum(input@, base as int, st), st * COMPONENT_LIMIT as int, st);
            lemma_div_is_ordered(-(st * COMPONENT_LIMIT as int), window_sum(input@, base as int, st), st);
            assert(st * COMPONENT_LIMIT as int / st == COMPONENT_LIMIT as int) by {
                assert(st * COMPONENT_LIMIT as int == st * (COMPONENT_LIMIT as int));
                lemma_div_multiples_vanish(COMPONENT_LIMIT as int, st);
            }
            assert(-(st * COMPONENT_LIMIT as int) / st == -COMPONENT_LIMIT as int) by {
                assert(-(st * COMPONENT_LIMIT as int) == st * (-COMPONENT_LIMIT as int))
                    by (nonlinear_arith);
                lemma_div_multiples_vanish(-COMPONENT_LIMIT as int, st);
            }
        }
        out.push(quotient);
        i = i + 1;
    }
    out
}

/// The pooling geometry restores the target length exactly whenever the
/// buffer is a whole number of target-length segments: a buffer of length
/// `k * dim` with `k >= 1` pools down to exactly `dim` values.
pub proof fn lemma_pool_restores_dim(k: int, dim: int)
    requires
        k >= 1,
        dim >= 1,
    ensures
        pool_stride(k * dim, dim) == k,
        pool_out_len(k * dim, dim) == dim,
{
    assert(k * dim == dim * k) by (nonlinear_arith);
    lemma_div_multiples_vanish(k, dim);
    assert(pool_stride(k * dim, dim) == k);
    assert(k * dim - k == k * (dim - 1)) by (nonlinear_arith);
    lemma_div_multiples_vanish(dim - 1, k);
}

} // verus!
