//! Separable convolution: coefficient windows and the two resampling passes.
//!
//! A resampling pass computes every output byte component as a clipped,
//! bias-seeded weighted sum of source components.  The weighted sum walks a
//! window of source components a fixed stride apart — consecutive columns of
//! one row for the horizontal pass, the same column of consecutive rows for
//! the vertical pass — so both passes share one mathematical core, stated
//! here over flat byte sequences.

pub mod filters;
pub mod optimisations;
pub mod u8x4;
pub mod vertical_u8;

use vstd::arithmetic::power2::pow2;
use vstd::math::abs;
use vstd::prelude::*;

verus! {

/// The slice of a source axis contributing to one output coordinate:
/// source indices `start .. start + size`.
#[derive(Debug, Clone, Copy, PartialEq, Eq, Structural)]
pub struct Bound {
    pub start: u32,
    pub size: u32,
}

impl Bound {
    /// One past the last contributing source index.
    pub open spec fn end(self) -> int {
        self.start + self.size
    }
}

/// Sum of the first `n` products `data[base + j*step] * ks[j]`.
pub open spec fn dot_prefix(data: Seq<u8>, base: int, step: int, ks: Seq<i16>, n: int) -> int
    decreases n,
{
    if n <= 0 {
        0
    } else {
        dot_prefix(data, base, step, ks, n - 1) + data[base + (n - 1) * step] * ks[n - 1]
    }
}

/// Weighted sum of the window `ks` over components `data[base + j*step]`.
pub open spec fn dot(data: Seq<u8>, base: int, step: int, ks: Seq<i16>) -> int {
    dot_prefix(data, base, step, ks, ks.len() as int)
}

/// Sum of `|ks[j]|` over the first `n` weights.
pub open spec fn abs_sum_prefix(ks: Seq<i16>, n: int) -> int
    decreases n,
{
    if n <= 0 {
        0
    } else {
        abs_sum_prefix(ks, n - 1) + abs(ks[n - 1] as int)
    }
}

/// Sum of the magnitudes of all weights of a window.
pub open spec fn abs_sum(ks: Seq<i16>) -> int {
    abs_sum_prefix(ks, ks.len() as int)
}

/// `clamp(v >> p, 0, 255)`: the fixed-point accumulator `v`, dropped by the
/// `p` fraction bits and saturated to one byte.  `v / pow2(p)` rounds toward
/// minus infinity, as an arithmetic right shift does.
pub open spec fn clip8(v: int, p: nat) -> u8 {
    let q = v / pow2(p) as int;
    if q < 0 {
        0u8
    } else if q > 255 {
        255u8
    } else {
        q as u8
    }
}

/// One output component of a resampling pass: the rounding bias
/// `pow2(p - 1)` plus the weighted sum of the window, then clipped.
pub open spec fn conv_comp(data: Seq<u8>, base: int, step: int, ks: Seq<i16>, p: nat) -> u8 {
    clip8(pow2((p - 1) as nat) as int + dot(data, base, step, ks), p)
}

/// Prefixes of the magnitude sum never shrink.
pub proof fn lemma_abs_sum_prefix_monotonic(ks: Seq<i16>, n1: int, n2: int)
    requires
        n1 <= n2,
    ensures
        abs_sum_prefix(ks, n1) <= abs_sum_prefix(ks, n2),
    decreases n2 - n1,
{
    if n1 < n2 {
        lemma_abs_sum_prefix_monotonic(ks, n1, n2 - 1);
    }
}

/// Every magnitude-sum prefix is nonnegative.
pub proof fn lemma_abs_sum_prefix_nonneg(ks: Seq<i16>, n: int)
    ensures
        0 <= abs_sum_prefix(ks, n),
    decreases n,
{
    if n > 0 {
        lemma_abs_sum_prefix_nonneg(ks, n - 1);
    }
}

/// A byte component times a signed 16-bit weight stays within
/// `±255 * 32768`.
pub proof fn lemma_comp_weight_product_bound(c: int, k: int) by (nonlinear_arith)
    requires
        0 <= c <= 255,
        -32768 <= k <= 32767,
    ensures
        -255 * abs(k) <= c * k <= 255 * abs(k),
        -255 * 32768 <= c * k <= 255 * 32767,
{
}

/// The weighted sum of a prefix is bounded by `255` times the prefix's
/// magnitude sum, whatever bytes the window reads.
pub proof fn lemma_dot_prefix_bound(data: Seq<u8>, base: int, step: int, ks: Seq<i16>, n: int)
    ensures
        -255 * abs_sum_prefix(ks, n) <= dot_prefix(data, base, step, ks, n) <= 255
            * abs_sum_prefix(ks, n),
    decreases n,
{
    if n > 0 {
        lemma_dot_prefix_bound(data, base, step, ks, n - 1);
        lemma_comp_weight_product_bound(data[base + (n - 1) * step] as int, ks[n - 1] as int);
    }
}

} // verus!
