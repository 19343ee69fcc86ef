//! IEEE-754 single-precision numbers, held as their 32-bit patterns.
//!
//! Arithmetic, the conversion from `i32` and the reading of decimal
//! literals come from the software implementation in `rustc_apfloat`; their
//! results are named here and not restated. Sign changes, zero tests,
//! comparisons and the truncation to `i32` are stated exactly over the bit
//! pattern.
use rustc_apfloat::ieee::Single;
use rustc_apfloat::{Float as ApFloat, Round};
use vstd::arithmetic::div_mod::lemma_div_denominator;
use vstd::arithmetic::power2::{lemma2_to64, lemma_pow2_pos, lemma_pow2_strictly_increases, lemma_pow2_unfold, pow2};
use vstd::prelude::*;

verus! {

/// Sum of two single-precision numbers, rounded to nearest, ties to even.
pub uninterp spec fn single_add(a: u32, b: u32) -> u32;

/// Difference of two single-precision numbers, rounded to nearest, ties to even.
pub uninterp spec fn single_sub(a: u32, b: u32) -> u32;

/// Product of two single-precision numbers, rounded to nearest, ties to even.
pub uninterp spec fn single_mul(a: u32, b: u32) -> u32;

/// Quotient of two single-precision numbers, rounded to nearest, ties to even.
pub uninterp spec fn single_div(a: u32, b: u32) -> u32;

/// The single-precision number nearest to an integer (ties to even).
pub uninterp spec fn single_from_int(i: i32) -> u32;


pub const SIGN_BIT: u32 = 0x8000_0000;

/// Relies on rustc_apfloat's `IeeeFloat::add_r` for `Single`: the rounded sum.
#[verifier::external_body]
pub(crate) fn add(a: u32, b: u32) -> (r: u32)
    ensures
        r == single_add(a, b),
{
    let x = Single::from_bits(a as u128);
    let y = Single::from_bits(b as u128);
    x.add_r(y, Round::NearestTiesToEven).value.to_bits() as u32
}

/// Relies on rustc_apfloat's `IeeeFloat::sub_r` for `Single`: the rounded difference.
#[verifier::external_body]
pub(crate) fn sub(a: u32, b: u32) -> (r: u32)
    ensures
        r == single_sub(a, b),
{
    let x = Single::from_bits(a as u128);
    let y = Single::from_bits(b as u128);
    x.sub_r(y, Round::NearestTiesToEven).value.to_bits() as u32
}

/// Relies on rustc_apfloat's `IeeeFloat::mul_r` for `Single`: the rounded product.
#[verifier::external_body]
pub(crate) fn mul(a: u32, b: u32) -> (r: u32)
    ensures
        r == single_mul(a, b),
{
    let x = Single::from_bits(a as u128);
    let y = Single::from_bits(b as u128);
    x.mul_r(y, Round::NearestTiesToEven).value.to_bits() as u32
}

/// Relies on rustc_apfloat's `IeeeFloat::div_r` for `Single`: the rounded quotient.
#[verifier::external_body]
pub(crate) fn div(a: u32, b: u32) -> (r: u32)
    ensures
        r == single_div(a, b),
{
    let x = Single::from_bits(a as u128);
    let y = Single::from_bits(b as u128);
    x.div_r(y, Round::NearestTiesToEven).value.to_bits() as u32
}

/// Relies on rustc_apfloat's `Float::from_i128` for `Single`: the nearest number.
#[verifier::external_body]
pub(crate) fn from_int(i: i32) -> (r: u32)
    ensures
        r == single_from_int(i),
{
    Single::from_i128(i as i128).value.to_bits() as u32
}

/// Whether a bit pattern is a NaN: all exponent bits set, fraction non-zero.
pub open spec fn is_nan(b: u32) -> bool {
    (b / 0x80_0000) % 0x100 == 0xff && b % 0x80_0000 != 0
}

/// Position of a non-NaN number on the number line: minus and plus zero
/// share position 0, and the order of positions is the order of values.
pub open spec fn order_key(b: u32) -> int {
    if b >= SIGN_BIT {
        -((b - SIGN_BIT) as int)
    } else {
        b as int
    }
}

/// The biased exponent field of a bit pattern.
pub open spec fn exponent_bits(b: u32) -> nat {
    ((b / 0x80_0000) % 0x100) as nat
}

/// The significand of a normal number, its implicit leading bit included.
pub open spec fn significand(b: u32) -> nat {
    ((b % 0x80_0000) + 0x80_0000) as nat
}

/// The magnitude of a number truncated toward zero: `significand * 2^(e - 150)`.
/// Zeros and subnormals, below one in magnitude, truncate to zero.
pub open spec fn trunc_magnitude(b: u32) -> nat {
    let e = exponent_bits(b);
    if e < 127 {
        0
    } else if e >= 150 {
        significand(b) * pow2((e - 150) as nat)
    } else {
        significand(b) / pow2((150 - e) as nat)
    }
}

/// A single-precision number truncated toward zero to an `i32`, saturating
/// at the bounds (infinities included), with NaN giving zero.
pub open spec fn single_to_int(b: u32) -> i32 {
    if is_nan(b) {
        0i32
    } else if b >= SIGN_BIT {
        if trunc_magnitude(b) >= 0x8000_0000 {
            i32::MIN
        } else {
            (-(trunc_magnitude(b) as int)) as i32
        }
    } else {
        if trunc_magnitude(b) > 0x7fff_ffff {
            i32::MAX
        } else {
            trunc_magnitude(b) as i32
        }
    }
}

/// Truncation toward zero to an `i32`, as the `as` conversion does.
pub(crate) fn to_int(b: u32) -> (r: i32)
    ensures
        r == single_to_int(b),
{
    if nan(b) {
        return 0;
    }
    let e: u32 = (b / 0x80_0000) % 0x100;
    let m: u64 = ((b % 0x80_0000) + 0x80_0000) as u64;
    proof {
        lemma2_to64();
    }
    let t: u64 = if e < 127 {
        0
    } else if e >= 158 {
        proof {
            lemma_pow2_pos((e - 150) as nat);
            if e > 158 {
                lemma_pow2_strictly_increases(8, (e - 150) as nat);
            }
            let p = pow2((e - 150) as nat);
            assert(m * p >= 0x8000_0000) by (nonlinear_arith)
                requires
                    m >= 0x80_0000,
                    p >= 256,
            ;
        }
        0x8000_0000
    } else if e >= 150 {
        let k_end: u32 = e - 150;
        let mut t: u64 = m;
        let mut k: u32 = 0;
        while k < k_end
            invariant
                k <= k_end <= 7,
                m < 0x100_0000,
                t as nat == (m as nat) * pow2(k as nat),
                t <= m * 128,
            decreases k_end - k,
        {
            proof {
                lemma2_to64();
                lemma_pow2_unfold((k + 1) as nat);
                lemma_pow2_pos(k as nat);
                if k + 1 < 7 {
                    lemma_pow2_strictly_increases((k + 1) as nat, 7);
                }
                assert(m * pow2((k + 1) as nat) == 2 * (m * pow2(k as nat))) by (nonlinear_arith)
                    requires
                        pow2((k + 1) as nat) == 2 * pow2(k as nat),
                ;
                assert(m * pow2((k + 1) as nat) <= m * 128) by (nonlinear_arith)
                    requires
                        pow2((k + 1) as nat) <= 128,
                ;
            }
            t = t * 2;
            k = k + 1;
        }
        t
    } else {
        let k_end: u32 = 150 - e;
        let mut t: u64 = m;
        let mut k: u32 = 0;
        while k < k_end
            invariant
                k <= k_end <= 23,
                t as nat == (m as nat) / pow2(k as nat),
                t <= m,
            decreases k_end - k,
        {
            proof {
                lemma_pow2_unfold((k + 1) as nat);
                lemma_pow2_pos(k as nat);
                lemma_div_denominator(m as int, pow2(k as nat) as int, 2);
                assert(pow2(k as nat) * 2 == pow2((k + 1) as nat));
            }
            t = t / 2;
            k = k + 1;
        }
        t
    };
    assert(e as nat == exponent_bits(b) && m as nat == significand(b));
    assert(e < 158 ==> t == trunc_magnitude(b));
    assert(e < 158 ==> t < 0x8000_0000) by {
        if 150 <= e && e < 158 {
            lemma_pow2_pos((e - 150) as nat);
            if e - 150 < 7 {
                lemma_pow2_strictly_increases((e - 150) as nat, 7);
            }
            let p = pow2((e - 150) as nat);
            assert(m * p < 0x8000_0000) by (nonlinear_arith)
                requires
                    m < 0x100_0000,
                    p <= 128,
            ;
        }
    }
    if b >= SIGN_BIT {
        if t >= 0x8000_0000 {
            i32::MIN
        } else {
            -(t as i64) as i32
        }
    } else {
        if t > 0x7fff_ffff {
            i32::MAX
        } else {
            t as i32
        }
    }
}

/// `a == b` on single-precision numbers.
pub open spec fn single_eq(a: u32, b: u32) -> bool {
    !is_nan(a) && !is_nan(b) && order_key(a) == order_key(b)
}

/// `a < b` on single-precision numbers.
pub open spec fn single_lt(a: u32, b: u32) -> bool {
    !is_nan(a) && !is_nan(b) && order_key(a) < order_key(b)
}

/// `a <= b` on single-precision numbers.
pub open spec fn single_le(a: u32, b: u32) -> bool {
    !is_nan(a) && !is_nan(b) && order_key(a) <= order_key(b)
}

/// `b != 0.0`: true of every pattern but the two zeros (NaN included).
pub open spec fn single_nonzero(b: u32) -> bool {
    b % SIGN_BIT != 0
}

/// `-b`: the same pattern with the sign bit flipped.
pub open spec fn single_neg(b: u32) -> u32 {
    if b >= SIGN_BIT {
        (b - SIGN_BIT) as u32
    } else {
        (b + SIGN_BIT) as u32
    }
}

pub fn nan(b: u32) -> (r: bool)
    ensures
        r == is_nan(b),
{
    (b / 0x80_0000) % 0x100 == 0xff && b % 0x80_0000 != 0
}

/// The order key of a number, as an `i64`.
fn key(b: u32) -> (r: i64)
    ensures
        r as int == order_key(b),
{
    if b >= SIGN_BIT {
        -((b - SIGN_BIT) as i64)
    } else {
        b as i64
    }
}

pub fn eq(a: u32, b: u32) -> (r: bool)
    ensures
        r == single_eq(a, b),
{
    !nan(a) && !nan(b) && key(a) == key(b)
}

pub fn lt(a: u32, b: u32) -> (r: bool)
    ensures
        r == single_lt(a, b),
{
    !nan(a) && !nan(b) && key(a) < key(b)
}

pub fn le(a: u32, b: u32) -> (r: bool)
    ensures
        r == single_le(a, b),
{
    !nan(a) && !nan(b) && key(a) <= key(b)
}

pub fn nonzero(b: u32) -> (r: bool)
    ensures
        r == single_nonzero(b),
{
    b % SIGN_BIT != 0
}

pub fn neg(b: u32) -> (r: u32)
    ensures
        r == single_neg(b),
{
    if b >= SIGN_BIT {
        b - SIGN_BIT
    } else {
        b + SIGN_BIT
    }
}

} // verus!
