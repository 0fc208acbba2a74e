//! Shared fixed-point arithmetic of the alpha module.

use vstd::prelude::*;

verus! {

/// Fraction bits of the reciprocal-alpha fixed-point values.
pub const RECIP_PRECISION: u32 = 8;

/// `a * b / 255`, rounded to nearest.
pub open spec fn mul_div_255_spec(a: int, b: int) -> int {
    (a * b + 127) / 255
}

/// The fixed-point reciprocal `255 / alpha`, scaled by
/// `pow2(RECIP_PRECISION)` and rounded to nearest; zero for a zero alpha.
pub open spec fn recip_alpha_spec(alpha: int) -> int {
    if alpha == 0 {
        0
    } else {
        (130560int / alpha + 1) / 2
    }
}

/// `v` divided by 255, multiplied by 255/alpha in fixed point, saturated to
/// one byte: one component of the inverse premultiplication.
pub open spec fn div_and_clip_spec(v: int, recip_alpha: int) -> int {
    let q = v * recip_alpha / 256;
    if q > 255 {
        255
    } else {
        q
    }
}

/// Multiplies two bytes and divides by 255, rounding to nearest.
pub fn mul_div_255(a: u8, b: u8) -> (r: u8)
    ensures
        r == mul_div_255_spec(a as int, b as int),
{
    proof {
        assert((a as u32) * (b as u32) <= 65025) by (nonlinear_arith)
            requires
                a as u32 <= 255,
                b as u32 <= 255,
        ;
    }
    let tmp: u32 = a as u32 * b as u32 + 128;
    proof {
        assert(tmp >> 8u32 < 256) by (bit_vector)
            requires
                tmp < 65154,
        ;
    }
    let s: u32 = (tmp >> 8u32) + tmp;
    let r32: u32 = s >> 8u32;
    proof {
        assert(vstd::prelude::add(tmp >> 8u32, tmp) >> 8u32 == (tmp - 1) / 255)
            by (bit_vector)
            requires
                128 <= tmp < 65154,
        ;
        assert(s == vstd::prelude::add(tmp >> 8u32, tmp));
        assert((a as u32) * (b as u32) == (a as int) * (b as int)) by (nonlinear_arith);
    }
    r32 as u8
}

/// The fixed-point reciprocals of every alpha value, indexed by alpha.
pub fn recip_alpha_array() -> (r: Vec<u32>)
    ensures
        r@.len() == 256,
        forall|i: int| 0 <= i < 256 ==> #[trigger] r@[i] == recip_alpha_spec(i),
        forall|i: int| 0 <= i < 256 ==> #[trigger] r@[i] <= 65280,
{
    let mut res: Vec<u32> = Vec::new();
    res.push(0);
    let mut i: usize = 1;
    while i < 256
        invariant
            1 <= i <= 256,
            res@.len() == i,
            forall|k: int| 0 <= k < i ==> #[trigger] res@[k] == recip_alpha_spec(k),
            forall|k: int| 0 <= k < i ==> #[trigger] res@[k] <= 65280,
        decreases 256 - i,
    {
        proof {
            assert(130560int / (i as int) <= 130560) by (nonlinear_arith)
                requires
                    1 <= i as int,
            ;
        }
        let recip: u32 = (130560u32 / (i as u32) + 1) / 2;
        res.push(recip);
        i = i + 1;
    }
    res
}

/// One component of the inverse premultiplication: scales `v` by a
/// fixed-point reciprocal alpha and saturates to one byte.
pub fn div_and_clip(v: u8, recip_alpha: u32) -> (r: u8)
    requires
        recip_alpha <= 65280,
    ensures
        r == div_and_clip_spec(v as int, recip_alpha as int),
{
    proof {
        assert((v as u32) * recip_alpha <= 255 * 65280) by (nonlinear_arith)
            requires
                v as u32 <= 255,
                recip_alpha <= 65280,
        ;
        assert((v as u32) * recip_alpha == (v as int) * (recip_alpha as int))
            by (nonlinear_arith);
    }
    let q: u32 = (v as u32 * recip_alpha) / 256;
    if q > 255 {
        255
    } else {
        q as u8
    }
}

} // verus!
