//! Fixed-point coefficient windows and the saturating clip.
//!
//! Floating filter weights are quantized, outside this crate, to signed
//! 16-bit integers scaled by `pow2(precision)`; a [`Normalizer16`] carries
//! the quantized windows after checking every property the convolution
//! executor relies on — most importantly a per-window magnitude budget that
//! keeps the 32-bit accumulator away from overflow for any byte input.

use crate::convolution::{abs_sum, abs_sum_prefix, clip8, lemma_abs_sum_prefix_monotonic,
    Bound};
use vstd::arithmetic::div_mod::{lemma_div_multiples_vanish_fancy, lemma_fundamental_div_mod};
use vstd::arithmetic::power2::lemma2_to64;
use vstd::bits::lemma_u64_shl_is_mul;
use vstd::math::abs;
use vstd::prelude::*;

verus! {

/// 8 bits of result and two guard bits for filter overshoot leave at most
/// this many fraction bits in a 32-bit accumulator.
pub const PRECISION_BITS: u8 = 32 - 8 - 2;

/// Least precision accepted; fast paths may rely on it.
pub const MIN_PRECISION: u8 = 4;

/// Cap on the sum of weight magnitudes of one window, chosen so that
/// `pow2(PRECISION_BITS - 1) + 255 * MAX_WINDOW_ABS_SUM` fits an `i32`.
pub const MAX_WINDOW_ABS_SUM: u32 = 0x80_0000;

/// The mathematical content of a [`Normalizer16`]: quantized weights in
/// fixed-size windows, one window and one [`Bound`] per output coordinate.
pub ghost struct CoeffsModel {
    /// Quantized weights, window `i` occupying
    /// `values[window_size*i .. window_size*(i+1)]`; only the first
    /// `bounds[i].size` entries of a window are applied.
    pub values: Seq<i16>,
    /// Fraction bits of the fixed-point weights.
    pub precision: nat,
    /// Uniform stride between consecutive windows.
    pub window_size: nat,
    /// Contributing source slice per output coordinate.
    pub bounds: Seq<Bound>,
}

impl CoeffsModel {
    /// The weights the convolution applies for output coordinate `i`.
    pub open spec fn window(self, i: int) -> Seq<i16> {
        self.values.subrange(
            self.window_size * i,
            self.window_size * i + self.bounds[i].size,
        )
    }

    /// Everything the executor relies on: precision within range, windows
    /// laid out back to back, no window overrunning its stride, every
    /// window within the magnitude budget, and bounds whose starts and ends
    /// both grow with the output coordinate.
    pub open spec fn wf(self) -> bool {
        &&& MIN_PRECISION <= self.precision < PRECISION_BITS
        &&& 1 <= self.window_size
        &&& self.values.len() == self.window_size * self.bounds.len()
        &&& forall|i: int|
            0 <= i < self.bounds.len() ==> (#[trigger] self.bounds[i]).size <= self.window_size
        &&& forall|i: int|
            0 <= i < self.bounds.len() ==> abs_sum(#[trigger] self.window(i))
                <= MAX_WINDOW_ABS_SUM
        &&& forall|i: int, j: int|
            #![trigger self.bounds[i], self.bounds[j]]
            0 <= i <= j < self.bounds.len() ==> self.bounds[i].start <= self.bounds[j].start
                && self.bounds[i].end() <= self.bounds[j].end()
    }

    /// The same windows with every bound moved `dy` source coordinates
    /// toward zero, as the vertical pass uses them over the intermediate
    /// image.
    pub open spec fn shifted(self, dy: int) -> CoeffsModel {
        CoeffsModel {
            values: self.values,
            precision: self.precision,
            window_size: self.window_size,
            bounds: Seq::new(
                self.bounds.len(),
                |i: int|
                    Bound {
                        start: (self.bounds[i].start - dy) as u32,
                        size: self.bounds[i].size,
                    },
            ),
        }
    }
}

/// The model assembled from the four parts a [`Normalizer16`] is built of.
pub open spec fn coeffs_model(
    values: Seq<i16>,
    window_size: nat,
    bounds: Seq<Bound>,
    precision: nat,
) -> CoeffsModel {
    CoeffsModel { values, precision, window_size, bounds }
}

/// Window `i` of a well-formed model lies within the weight sequence.
pub proof fn lemma_window_in_values(m: CoeffsModel, i: int) by (nonlinear_arith)
    requires
        m.wf(),
        0 <= i < m.bounds.len(),
    ensures
        0 <= m.window_size * i,
        m.window_size * i + m.bounds[i].size <= m.values.len(),
        m.window_size * i + m.window_size <= m.values.len(),
{
}

/// Quantized filter weights, as signed 16-bit fixed-point numbers.
///
/// Built by [`Normalizer16::new`], which admits exactly the weight sets the
/// convolution executor is verified against.
#[derive(Debug, Clone)]
pub struct Normalizer16 {
    values: Vec<i16>,
    precision: u8,
    window_size: usize,
    bounds: Vec<Bound>,
}

impl View for Normalizer16 {
    type V = CoeffsModel;

    closed spec fn view(&self) -> CoeffsModel {
        CoeffsModel {
            values: self.values@,
            precision: self.precision as nat,
            window_size: self.window_size as nat,
            bounds: self.bounds@,
        }
    }
}

/// One output coordinate's quantized weights: where the contributing source
/// slice starts, and the weight per contributing source coordinate.
#[derive(Debug, Clone)]
pub struct CoefficientsI16Chunk {
    pub start: u32,
    pub values: Vec<i16>,
}

impl Normalizer16 {
    /// Accepts quantized windows for the executor.  `values` holds
    /// `bounds.len()` windows of `window_size` weights each, of which
    /// window `i` applies the first `bounds[i].size`; `precision` is the
    /// count of fraction bits.  Returns `None` exactly when the parts do
    /// not form a well-formed coefficient set.
    #[verifier::loop_isolation(false)]
    pub fn new(values: Vec<i16>, window_size: usize, bounds: Vec<Bound>, precision: u8) -> (r:
        Option<Normalizer16>)
        ensures
            r is Some <==> coeffs_model(
                values@,
                window_size as nat,
                bounds@,
                precision as nat,
            ).wf(),
            r matches Some(n) ==> n@ == coeffs_model(
                values@,
                window_size as nat,
                bounds@,
                precision as nat,
            ),
    {
        let ghost m = coeffs_model(values@, window_size as nat, bounds@, precision as nat);
        if precision < MIN_PRECISION || precision >= PRECISION_BITS {
            return None;
        }
        if window_size == 0 {
            return None;
        }
        let n_windows = bounds.len();
        let n_values = values.len();
        let total = match window_size.checked_mul(n_windows) {
            Some(t) => t,
            None => {
                proof {
                    lemma_mul_ints(
                        m.window_size as int,
                        m.bounds.len() as int,
                        window_size as int,
                        n_windows as int,
                    );
                }
                return None;
            },
        };
        proof {
            lemma_mul_ints(
                m.window_size as int,
                m.bounds.len() as int,
                window_size as int,
                n_windows as int,
            );
        }
        if n_values != total {
            return None;
        }
        let mut i: usize = 0;
        while i < n_windows
            invariant
                i <= n_windows,
                forall|k: int|
                    0 <= k < i ==> (#[trigger] bounds@[k]).size <= window_size,
                forall|k: int|
                    0 <= k < i ==> abs_sum(#[trigger] m.window(k)) <= MAX_WINDOW_ABS_SUM,
            decreases n_windows - i,
        {
            let b = *vstd::slice::slice_index_get(bounds.as_slice(), i);
            if b.size as usize > window_size {
                return None;
            }
            proof {
                lemma_window_span(window_size as int, i as int, n_windows as int);
            }
            let base: usize = window_size * i;
            let sz: usize = b.size as usize;
            let mut s: u32 = 0;
            let mut j: usize = 0;
            while j < sz
                invariant
                    j <= sz,
                    s == abs_sum_prefix(m.window(i as int), j as int),
                    s <= MAX_WINDOW_ABS_SUM,
                decreases sz - j,
            {
                let k: i16 = *vstd::slice::slice_index_get(values.as_slice(), base + j);
                let a: u32 = if k < 0 {
                    (-(k as i32)) as u32
                } else {
                    k as u32
                };
                proof {
                    assert(m.window(i as int)[j as int] == k);
                    assert(a == abs(k as int));
                }
                s = s + a;
                if s > MAX_WINDOW_ABS_SUM {
                    proof {
                        lemma_abs_sum_prefix_monotonic(
                            m.window(i as int),
                            j + 1,
                            m.window(i as int).len() as int,
                        );
                    }
                    return None;
                }
                j = j + 1;
            }
            i = i + 1;
        }
        let mut i: usize = 0;
        while n_windows > 0 && i < n_windows - 1
            invariant
                n_windows > 0 ==> i <= n_windows - 1,
                forall|k: int| 0 <= k < i ==> adjacent_ordered(bounds@, k),
            decreases n_windows - i,
        {
            let a = *vstd::slice::slice_index_get(bounds.as_slice(), i);
            let b = *vstd::slice::slice_index_get(bounds.as_slice(), i + 1);
            if a.start > b.start {
                return None;
            }
            if (a.start as u64) + (a.size as u64) > (b.start as u64) + (b.size as u64) {
                return None;
            }
            i = i + 1;
        }
        proof {
            assert forall|p: int, q: int|
                #![trigger m.bounds[p], m.bounds[q]]
                0 <= p <= q < m.bounds.len() implies m.bounds[p].start <= m.bounds[q].start
                && m.bounds[p].end() <= m.bounds[q].end() by {
                lemma_ordered_chain(m.bounds, p, q);
            }
        }
        Some(Normalizer16 { values, precision, window_size, bounds })
    }

    /// The quantized weights, one chunk per output coordinate, each holding
    /// only the weights its bound applies.
    #[verifier::loop_isolation(false)]
    pub fn normalized_chunks(&self) -> (r: Vec<CoefficientsI16Chunk>)
        requires
            self@.wf(),
        ensures
            r@.len() == self@.bounds.len(),
            forall|i: int|
                0 <= i < r@.len() ==> (#[trigger] r@[i]).start == self@.bounds[i].start
                    && r@[i].values@ == self@.window(i),
    {
        let n_windows = self.bounds.len();
        let n_values = self.values.len();
        let mut res: Vec<CoefficientsI16Chunk> = Vec::new();
        let mut i: usize = 0;
        while i < n_windows
            invariant
                i <= n_windows,
                res@.len() == i,
                forall|k: int|
                    0 <= k < i ==> (#[trigger] res@[k]).start == self@.bounds[k].start
                        && res@[k].values@ == self@.window(k),
            decreases n_windows - i,
        {
            let b = *vstd::slice::slice_index_get(self.bounds.as_slice(), i);
            proof {
                lemma_window_in_values(self@, i as int);
                assert(self@.window_size * i as int == (self.window_size as int) * (i as int));
                assert(self@.values.len() == n_values);
            }
            let base: usize = self.window_size * i;
            let sz: usize = b.size as usize;
            let mut chunk: Vec<i16> = Vec::new();
            let mut j: usize = 0;
            while j < sz
                invariant
                    j <= sz,
                    chunk@.len() == j,
                    forall|t: int| 0 <= t < j ==> chunk@[t] == self@.values[base + t],
                decreases sz - j,
            {
                chunk.push(*vstd::slice::slice_index_get(self.values.as_slice(), base + j));
                j = j + 1;
            }
            proof {
                assert(chunk@ =~= self@.window(i as int));
            }
            res.push(CoefficientsI16Chunk { start: b.start, values: chunk });
            i = i + 1;
        }
        res
    }

    /// Count of fraction bits of the quantized weights.
    pub fn precision(&self) -> (r: u8)
        ensures
            r == self@.precision,
    {
        self.precision
    }

    /// Uniform stride between consecutive windows.
    pub fn window_size(&self) -> (r: usize)
        ensures
            r == self@.window_size,
    {
        self.window_size
    }

    /// The contributing source slice per output coordinate.
    pub fn bounds(&self) -> (r: &Vec<Bound>)
        ensures
            r@ == self@.bounds,
    {
        &self.bounds
    }

    /// The quantized weights, all windows back to back.
    pub fn values(&self) -> (r: &Vec<i16>)
        ensures
            r@ == self@.values,
    {
        &self.values
    }

    /// Moves every bound `dy` source coordinates toward zero, as the
    /// vertical pass uses the windows over an intermediate image whose row
    /// zero is source row `dy`.
    #[verifier::loop_isolation(false)]
    pub fn shift_bounds(&mut self, dy: u32)
        requires
            old(self)@.wf(),
            forall|i: int|
                0 <= i < old(self)@.bounds.len() ==> dy <= (#[trigger] old(
                    self,
                )@.bounds[i]).start,
        ensures
            final(self)@ == old(self)@.shifted(dy as int),
            final(self)@.wf(),
    {
        let n = self.bounds.len();
        let mut i: usize = 0;
        while i < n
            invariant
                i <= n,
                self.values@ == old(self).values@,
                self.precision == old(self).precision,
                self.window_size == old(self).window_size,
                self.bounds@.len() == n,
                forall|k: int|
                    0 <= k < i ==> #[trigger] self.bounds@[k] == (Bound {
                        start: (old(self).bounds@[k].start - dy) as u32,
                        size: old(self).bounds@[k].size,
                    }),
                forall|k: int| i <= k < n ==> #[trigger] self.bounds@[k] == old(self).bounds@[k],
            decreases n - i,
        {
            let b = *vstd::slice::slice_index_get(self.bounds.as_slice(), i);
            self.bounds.set(i, Bound { start: b.start - dy, size: b.size });
            i = i + 1;
        }
        proof {
            assert(self@.bounds =~= old(self)@.shifted(dy as int).bounds);
            assert(self@ == old(self)@.shifted(dy as int));
            lemma_shifted_wf(old(self)@, dy as int);
        }
    }

    /// Saturating clip of an accumulator value: drops the fraction bits and
    /// clamps the result to one byte, for every `v`.
    pub fn clip(&self, v: i32) -> (r: u8)
        requires
            self@.wf(),
        ensures
            r == clip8(v as int, self@.precision),
    {
        let p = self.precision;
        proof {
            lemma2_to64();
            lemma_u64_shl_is_mul(1u64, p as u64);
        }
        let d: u64 = 1u64 << (p as u64);
        proof {
            lemma_u64_shl_is_mul(d, 31u64);
        }
        let off: u64 = d << 31u64;
        let shifted: u64 = ((v as i64) + (off as i64)) as u64;
        let q_u: u64 = shifted / d;
        let ghost qv = (v as int) / (d as int);
        proof {
            lemma_fundamental_div_mod(v as int, d as int);
            let rv = (v as int) % (d as int);
            assert(-0x8000_0000 <= qv <= 0x8000_0000) by (nonlinear_arith)
                requires
                    -0x8000_0000 <= v as int <= 0x8000_0000,
                    2 <= d as int,
                    v as int == (d as int) * qv + rv,
                    0 <= rv < d as int,
            ;
            assert(shifted as int == (d as int) * (qv + 0x8000_0000) + rv) by (nonlinear_arith)
                requires
                    v as int == (d as int) * qv + rv,
                    off == (d as int) * 0x8000_0000,
                    shifted == v + off,
            ;
            lemma_div_multiples_vanish_fancy(qv + 0x8000_0000, rv, d as int);
            assert(q_u as int == qv + 0x8000_0000);
        }
        let lo: u64 = 0x8000_0000;
        if q_u < lo {
            0
        } else if q_u > lo + 255 {
            255
        } else {
            (q_u - lo) as u8
        }
    }
}

/// Shifting all bounds of a well-formed model toward zero keeps it
/// well-formed, keeps every window, and moves every bound's end by the
/// shift.
pub proof fn lemma_shifted_wf(m: CoeffsModel, dy: int)
    requires
        m.wf(),
        0 <= dy,
        forall|i: int| 0 <= i < m.bounds.len() ==> dy <= (#[trigger] m.bounds[i]).start,
    ensures
        m.shifted(dy).wf(),
        forall|i: int|
            0 <= i < m.bounds.len() ==> (#[trigger] m.shifted(dy).bounds[i]).end()
                == m.bounds[i].end() - dy,
        forall|i: int|
            0 <= i < m.bounds.len() ==> #[trigger] m.shifted(dy).window(i) == m.window(i),
{
    let s = m.shifted(dy);
    assert forall|i: int| 0 <= i < s.bounds.len() implies (#[trigger] s.bounds[i]).size
        <= s.window_size by {
        assert(m.bounds[i].size <= m.window_size);
    }
    assert forall|i: int|
        0 <= i < m.bounds.len() implies #[trigger] s.window(i) == m.window(i) by {
        assert(s.bounds[i].size == m.bounds[i].size);
    }
    assert forall|i: int| 0 <= i < s.bounds.len() implies abs_sum(#[trigger] s.window(i))
        <= MAX_WINDOW_ABS_SUM by {
        assert(s.window(i) == m.window(i));
        assert(abs_sum(m.window(i)) <= MAX_WINDOW_ABS_SUM);
    }
    assert forall|i: int, j: int|
        #![trigger s.bounds[i], s.bounds[j]]
        0 <= i <= j < s.bounds.len() implies s.bounds[i].start <= s.bounds[j].start
        && s.bounds[i].end() <= s.bounds[j].end() by {
        assert(m.bounds[i].start <= m.bounds[j].start && m.bounds[i].end() <= m.bounds[j].end());
    }
}

/// Bound `k` starts and ends no later than bound `k + 1`.
pub open spec fn adjacent_ordered(bounds: Seq<Bound>, k: int) -> bool {
    bounds[k].start <= bounds[k + 1].start && bounds[k].end() <= bounds[k + 1].end()
}

/// Adjacent order extends to any two coordinates.
proof fn lemma_ordered_chain(bounds: Seq<Bound>, i: int, j: int)
    requires
        forall|k: int| 0 <= k < bounds.len() - 1 ==> #[trigger] adjacent_ordered(bounds, k),
        0 <= i <= j < bounds.len(),
    ensures
        bounds[i].start <= bounds[j].start,
        bounds[i].end() <= bounds[j].end(),
    decreases j - i,
{
    if i < j {
        lemma_ordered_chain(bounds, i, j - 1);
        assert(adjacent_ordered(bounds, j - 1));
    }
}

/// Equal factors give equal products.
proof fn lemma_mul_ints(a: int, b: int, c: int, d: int) by (nonlinear_arith)
    requires
        a == c,
        b == d,
    ensures
        a * b == c * d,
{
}

/// Windows before the last fit ahead of the sequence end.
proof fn lemma_window_span(window_size: int, i: int, n_windows: int) by (nonlinear_arith)
    requires
        1 <= window_size,
        0 <= i < n_windows,
    ensures
        0 <= window_size * i,
        window_size * i + window_size <= window_size * n_windows,
{
}

} // verus!
