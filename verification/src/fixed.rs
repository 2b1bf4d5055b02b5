//! Signed fixed-point arithmetic with 16 fractional bits.
//!
//! The engine keeps every fractional quantity (fullness thresholds, serving
//! counts, optimizer coordinates) as an `i64` holding the value scaled by
//! `FIX_ONE`. All operations are exact integer arithmetic, saturating at the
//! `i64` range.

use vstd::prelude::*;

verus! {

/// The fixed-point representation of 1.
pub const FIX_ONE: i64 = 65536;

/// The fixed-point representation of 1/2.
pub const FIX_HALF: i64 = 32768;

/// An integer clamped into the `i64` range.
pub open spec fn spec_clamp_i64(v: int) -> i64 {
    if v > i64::MAX {
        i64::MAX
    } else if v < i64::MIN {
        i64::MIN
    } else {
        v as i64
    }
}

/// Division by `FIX_ONE` rounding toward zero.
pub open spec fn spec_fix_scale_down(p: int) -> int {
    if p >= 0 {
        p / 65536
    } else {
        -((-p) / 65536)
    }
}

/// The fixed-point product: `a * b / FIX_ONE`, rounded toward zero and
/// clamped.
pub open spec fn spec_fix_mul(a: i64, b: i64) -> i64 {
    spec_clamp_i64(spec_fix_scale_down(a * b))
}

/// The fixed-point quotient: `a * FIX_ONE / b`, rounded toward zero and
/// clamped.
pub open spec fn spec_fix_div(a: i64, b: i64) -> i64 {
    spec_fix_scale_down_by(a * 65536, b as int)
}

/// Division rounding toward zero and clamping, for a positive divisor.
pub open spec fn spec_fix_scale_down_by(p: int, d: int) -> i64 {
    if p >= 0 {
        spec_clamp_i64(p / d)
    } else {
        spec_clamp_i64(-((-p) / d))
    }
}

/// The saturating sum.
pub open spec fn spec_sat_add(a: i64, b: i64) -> i64 {
    spec_clamp_i64(a + b)
}

/// The saturating difference.
pub open spec fn spec_sat_sub(a: i64, b: i64) -> i64 {
    spec_clamp_i64(a - b)
}

/// Clamps a wide intermediate back into `i64`.
fn clamp_i128(v: i128) -> (r: i64)
    ensures
        r == spec_clamp_i64(v as int),
{
    if v > i64::MAX as i128 {
        i64::MAX
    } else if v < i64::MIN as i128 {
        i64::MIN
    } else {
        v as i64
    }
}

/// Saturating addition.
pub fn sat_add(a: i64, b: i64) -> (r: i64)
    ensures
        r == spec_sat_add(a, b),
{
    clamp_i128(a as i128 + b as i128)
}

/// Saturating subtraction.
pub fn sat_sub(a: i64, b: i64) -> (r: i64)
    ensures
        r == spec_sat_sub(a, b),
{
    clamp_i128(a as i128 - b as i128)
}

/// Magnitude division helper: `|p| / d` with the sign of `p` put back,
/// clamped into `i64`.
fn scale_down_by(p: i128, d: u64) -> (r: i64)
    requires
        1 <= d,
        p > i128::MIN,
    ensures
        r == spec_fix_scale_down_by(p as int, d as int),
{
    if p >= 0 {
        let q: u128 = (p as u128) / (d as u128);
        if q > i64::MAX as u128 {
            i64::MAX
        } else {
            q as i64
        }
    } else {
        let q: u128 = ((-p) as u128) / (d as u128);
        if q >= 9223372036854775808u128 {
            i64::MIN
        } else {
            let qi = q as i64;
            proof {
                assert(-(q as int) >= i64::MIN);
            }
            -qi
        }
    }
}

/// Fixed-point multiplication, rounded toward zero, saturating.
pub fn fix_mul(a: i64, b: i64) -> (r: i64)
    ensures
        r == spec_fix_mul(a, b),
{
    proof {
        lemma_wide_prod_bounds(a as int, b as int);
    }
    let p: i128 = (a as i128) * (b as i128);
    let r = scale_down_by(p, 65536);
    proof {
        assert(spec_fix_scale_down_by(p as int, 65536) == spec_clamp_i64(
            spec_fix_scale_down(a * b),
        ));
    }
    r
}

/// Fixed-point division by a positive divisor, rounded toward zero,
/// saturating.
pub fn fix_div(a: i64, b: i64) -> (r: i64)
    requires
        1 <= b,
    ensures
        r == spec_fix_div(a, b),
{
    let p: i128 = (a as i128) * 65536;
    scale_down_by(p, b as u64)
}

/// The product of two `i64`-ranged values stays well inside the `i128`
/// range.
pub proof fn lemma_wide_prod_bounds(a: int, b: int)
    requires
        i64::MIN <= a <= i64::MAX,
        i64::MIN <= b <= i64::MAX,
    ensures
        -0x4000_0000_0000_0000_0000_0000_0000_0000 <= a * b
            <= 0x4000_0000_0000_0000_0000_0000_0000_0000,
{
    assert(-0x4000_0000_0000_0000_0000_0000_0000_0000 <= a * b
        <= 0x4000_0000_0000_0000_0000_0000_0000_0000) by (nonlinear_arith)
        requires
            -0x8000_0000_0000_0000 <= a <= 0x7fff_ffff_ffff_ffff,
            -0x8000_0000_0000_0000 <= b <= 0x7fff_ffff_ffff_ffff,
    ;
}

/// The integer square root of a wide unsigned value.
fn isqrt_u128(x: u128) -> (r: u128)
    ensures
        r * r <= x,
        x < (r + 1) * (r + 1),
        r < 0x1_0000_0000_0000_0000,
{
    let mut lo: u128 = 0;
    let mut hi: u128 = 0x1_0000_0000_0000_0000;
    proof {
        assert((0x1_0000_0000_0000_0000u128 as int) * (0x1_0000_0000_0000_0000u128 as int)
            > u128::MAX as int) by (nonlinear_arith);
    }
    while hi - lo > 1
        invariant
            lo < hi,
            hi <= 0x1_0000_0000_0000_0000,
            lo * lo <= x,
            x < hi * hi,
        decreases hi - lo,
    {
        let mid: u128 = lo + (hi - lo) / 2;
        proof {
            assert(mid * mid <= u128::MAX) by (nonlinear_arith)
                requires
                    0 <= mid < 0x1_0000_0000_0000_0000u128,
            ;
        }
        if mid * mid <= x {
            lo = mid;
        } else {
            hi = mid;
        }
    }
    lo
}

/// The square root of a non-negative fixed-point value, as a mathematical
/// function: the unique non-negative integer whose square brackets the
/// scaled value.
pub open spec fn spec_fix_sqrt(a: int) -> int {
    choose|r: int| 0 <= r && #[trigger] (r * r) <= a * 65536 < (r + 1) * (r + 1)
}

/// Two integer square roots of the same value are equal.
pub proof fn lemma_isqrt_unique(a: int, r1: int, r2: int)
    requires
        0 <= r1,
        r1 * r1 <= a * 65536 < (r1 + 1) * (r1 + 1),
        0 <= r2,
        r2 * r2 <= a * 65536 < (r2 + 1) * (r2 + 1),
    ensures
        r1 == r2,
{
    assert(r1 == r2) by (nonlinear_arith)
        requires
            0 <= r1,
            r1 * r1 <= a * 65536 < (r1 + 1) * (r1 + 1),
            0 <= r2,
            r2 * r2 <= a * 65536 < (r2 + 1) * (r2 + 1),
    ;
}

/// Halving, rounded toward zero.
pub fn half(a: i64) -> (r: i64)
    ensures
        r == spec_fix_scale_down_by(a as int, 2),
{
    scale_down_by(a as i128, 2)
}

/// The square root of a non-negative fixed-point value, rounded down to the
/// nearest representable fixed-point value.
pub fn fix_sqrt(a: i64) -> (r: i64)
    requires
        0 <= a,
    ensures
        0 <= r,
        r * r <= a * 65536,
        a * 65536 < (r + 1) * (r + 1),
        r == spec_fix_sqrt(a as int),
{
    let x: u128 = (a as u128) * 65536;
    let s = isqrt_u128(x);
    proof {
        assert(s * s <= x ==> s as int * s as int <= a as int * 65536);
        assert((s as int + 1) * (s as int + 1) > a as int * 65536);
        if s > i64::MAX as u128 {
            assert(s as int * s as int > a as int * 65536) by (nonlinear_arith)
                requires
                    s as int > i64::MAX as int,
                    a as int * 65536 <= 0x7fff_ffff_ffff_ffff * 65536,
            ;
        }
    }
    let r = s as i64;
    proof {
        assert(0 <= r && r * r <= a as int * 65536 < (r + 1) * (r + 1));
        let w = spec_fix_sqrt(a as int);
        assert(0 <= w && w * w <= a as int * 65536 < (w + 1) * (w + 1)) by {
            assert(0 <= r as int && r as int * r as int <= a as int * 65536 < (r as int + 1) * (
            r as int + 1));
        }
        lemma_isqrt_unique(a as int, r as int, w);
    }
    r
}

} // verus!
