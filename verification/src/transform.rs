use vstd::prelude::*;
use vstd::arithmetic::div_mod::{lemma_basic_div, lemma_div_is_ordered_by_denominator};
use vstd::arithmetic::power2::{lemma2_to64, lemma2_to64_rest, lemma_pow2_pos, lemma_pow2_strictly_increases, pow2};
use vstd::bits::{lemma_u64_shl_is_mul, lemma_u64_shr_is_div};
use crate::error::Error;

verus! {

/// The scale of a transform of which nothing else was asked: the bits of the double 0.001.
pub const DEFAULT_SCALE: u64 = 0x3f50_624d_d2f1_a9fc;

/// The offset of a transform of which nothing else was asked: the bits of the double 0.
pub const DEFAULT_OFFSET: u64 = 0;

/// Whether the double with these bits can serve as a scale: it is finite,
/// so its eleven exponent bits are not all set, and it is not zero, so the
/// bits below its sign are not all clear.
pub open spec fn usable_scale(bits: u64) -> bool {
    (bits >> 52) & 0x7ff != 0x7ff && bits & 0x7fff_ffff_ffff_ffff != 0
}

/// Whether the double with these bits can serve as a scale.
pub fn is_usable_scale(bits: u64) -> (r: bool)
    ensures
        r == usable_scale(bits),
{
    (bits >> 52) & 0x7ff != 0x7ff && bits & 0x7fff_ffff_ffff_ffff != 0
}

/// The default scale can serve as a scale.
pub proof fn lemma_default_scale_usable()
    ensures
        usable_scale(DEFAULT_SCALE),
{
    assert((0x3f50_624d_d2f1_a9fcu64 >> 52) & 0x7ff != 0x7ff && 0x3f50_624d_d2f1_a9fcu64
        & 0x7fff_ffff_ffff_ffff != 0) by (bit_vector);
}

/// The integer that is stored for a rounded quotient which does not lie above
/// the largest storable value: the quotient itself, or the smallest storable
/// value where the quotient lies below it.
pub open spec fn stored(rounded: int) -> int
    recommends
        rounded <= i32::MAX,
{
    if rounded < i32::MIN {
        i32::MIN as int
    } else {
        rounded
    }
}

/// Decides what is stored for a coordinate once the caller has removed the
/// offset, divided by the scale and rounded.
///
/// Only the upper end of the storable range is an error. A quotient below the
/// lower end is stored as the smallest value.
pub fn quantize(rounded: i64) -> (r: Result<i32, Error>)
    ensures
        rounded > i32::MAX ==> r == Err::<i32, Error>(Error::Overflow(rounded)),
        rounded <= i32::MAX ==> r is Ok && r->Ok_0 == stored(rounded as int),
        i32::MIN <= rounded <= i32::MAX ==> r is Ok && r->Ok_0 == rounded,
{
    if rounded > 2147483647i64 {
        Err(Error::Overflow(rounded))
    } else if rounded < -2147483648i64 {
        Ok(-2147483648i32)
    } else {
        Ok(rounded as i32)
    }
}

/// The eleven exponent bits of a double.
pub open spec fn exponent_bits(bits: u64) -> u64 {
    (bits >> 52) & 0x7ff
}

/// The fifty-two fraction bits of a double.
pub open spec fn fraction_bits(bits: u64) -> u64 {
    bits & 0xf_ffff_ffff_ffff
}

/// Whether the sign bit of a double is set.
pub open spec fn negative(bits: u64) -> bool {
    bits >> 63 == 1
}

/// Whether the bits are those of a NaN.
pub open spec fn not_a_number(bits: u64) -> bool {
    exponent_bits(bits) == 0x7ff && fraction_bits(bits) != 0
}

/// The significand of a double: its magnitude is the significand times two
/// to the power of `binary_exponent`. An infinity counts as a number with
/// the largest exponent, which lies beyond every 64-bit integer.
pub open spec fn significand(bits: u64) -> nat {
    if exponent_bits(bits) == 0 {
        fraction_bits(bits) as nat
    } else {
        (0x10_0000_0000_0000 + fraction_bits(bits)) as nat
    }
}

/// The power of two by which the significand of a double is scaled.
pub open spec fn binary_exponent(bits: u64) -> int {
    if exponent_bits(bits) == 0 {
        -1074
    } else {
        exponent_bits(bits) - 1075
    }
}

/// The whole part of the magnitude of a double.
pub open spec fn whole(bits: u64) -> nat {
    let e = binary_exponent(bits);
    if e >= 0 {
        significand(bits) * pow2(e as nat)
    } else {
        significand(bits) / pow2((-e) as nat)
    }
}

/// The integer that a double which is a number becomes when what follows
/// its point is cut off.
pub open spec fn truncated(bits: u64) -> int
    recommends
        !not_a_number(bits),
{
    if negative(bits) {
        -(whole(bits) as int)
    } else {
        whole(bits) as int
    }
}

/// The 64-bit integer nearest to `v`.
pub open spec fn saturated(v: int) -> i64 {
    if v < i64::MIN {
        i64::MIN
    } else if v > i64::MAX {
        i64::MAX
    } else {
        v as i64
    }
}

/// The double with the given bits as a 64-bit integer: what follows its
/// point is cut off, and a number beyond the range gives the end of the
/// range on its side. A NaN is no number and is an error.
pub fn truncate(bits: u64) -> (r: Result<i64, Error>)
    ensures
        not_a_number(bits) ==> r == Err::<i64, Error>(Error::NotANumber),
        !not_a_number(bits) ==> r == Ok::<i64, Error>(saturated(truncated(bits))),
{
    let exp: u64 = (bits >> 52) & 0x7ff;
    let fraction: u64 = bits & 0xf_ffff_ffff_ffff;
    let minus: bool = bits >> 63 == 1;
    assert(exp <= 0x7ff && fraction < 0x10_0000_0000_0000) by (bit_vector)
        requires
            exp == (bits >> 52) & 0x7ff,
            fraction == bits & 0xf_ffff_ffff_ffff,
    ;
    proof {
        lemma2_to64();
        lemma2_to64_rest();
    }
    if exp == 0x7ff && fraction != 0 {
        return Err(Error::NotANumber);
    }
    if exp < 1023 {
        proof {
            let k = (-binary_exponent(bits)) as nat;
            if k > 53 {
                lemma_pow2_strictly_increases(53, k);
            }
            lemma_basic_div(significand(bits) as int, pow2(k) as int);
        }
        return Ok(0);
    }
    let sig: u64 = 0x10_0000_0000_0000 + fraction;
    if exp >= 1086 {
        proof {
            let k = (exp - 1075) as nat;
            if k > 11 {
                lemma_pow2_strictly_increases(11, k);
            }
            assert(sig * pow2(k) >= 0x8000_0000_0000_0000) by (nonlinear_arith)
                requires
                    sig >= 0x10_0000_0000_0000,
                    pow2(k) >= 0x800,
            ;
        }
        return Ok(if minus { -0x8000_0000_0000_0000i64 } else { 0x7fff_ffff_ffff_ffffi64 });
    }
    let w: u64 = if exp >= 1075 {
        let k: u64 = exp - 1075;
        proof {
            if k < 10 {
                lemma_pow2_strictly_increases(k as nat, 10);
            }
            lemma_pow2_pos(k as nat);
            assert(sig * pow2(k as nat) < 0x8000_0000_0000_0000) by (nonlinear_arith)
                requires
                    sig < 0x20_0000_0000_0000,
                    0 < pow2(k as nat) <= 0x400,
            ;
            lemma_u64_shl_is_mul(sig, k);
        }
        sig << k
    } else {
        let k: u64 = 1075 - exp;
        proof {
            lemma_u64_shr_is_div(sig, k);
        }
        sig >> k
    };
    assert(w < 0x8000_0000_0000_0000) by {
        if exp < 1075 {
            let k: u64 = (1075 - exp) as u64;
            assert(sig >> k < 0x8000_0000_0000_0000) by (bit_vector)
                requires
                    sig < 0x20_0000_0000_0000,
            ;
        }
    }
    if minus {
        Ok(-(w as i64))
    } else {
        Ok(w as i64)
    }
}

/// Decides what is stored for a coordinate, from the bits of the double
/// that the caller has got by removing the offset, dividing by the scale
/// and rounding.
///
/// A NaN is an error. A double above the largest storable value, positive
/// infinity among them, is an error, which holds the double as a 64-bit
/// integer. A double below the smallest storable value is stored as the
/// smallest value. Every other double is stored as its whole part, so a
/// double that is a storable integer is stored as that integer.
pub fn quantize_bits(rounded: u64) -> (r: Result<i32, Error>)
    ensures
        not_a_number(rounded) ==> r == Err::<i32, Error>(Error::NotANumber),
        !not_a_number(rounded) && truncated(rounded) > i32::MAX ==> r == Err::<i32, Error>(
            Error::Overflow(saturated(truncated(rounded))),
        ),
        !not_a_number(rounded) && truncated(rounded) <= i32::MAX ==> r is Ok && r->Ok_0
            == stored(truncated(rounded)),
        !not_a_number(rounded) && i32::MIN <= truncated(rounded) <= i32::MAX ==> r is Ok
            && r->Ok_0 == truncated(rounded),
{
    match truncate(rounded) {
        Err(e) => Err(e),
        Ok(whole) => quantize(whole),
    }
}

/// Decides what is stored for a coordinate under a transform with the
/// given scale, from the bits of the scale and of the rounded quotient.
///
/// A scale that is zero or not finite is an error, whatever the quotient
/// is. Under any other scale the answer is that of `quantize_bits`.
pub fn quantize_under(scale: u64, rounded: u64) -> (r: Result<i32, Error>)
    ensures
        !usable_scale(scale) ==> r == Err::<i32, Error>(Error::InvalidHeader),
        usable_scale(scale) && not_a_number(rounded) ==> r == Err::<i32, Error>(
            Error::NotANumber,
        ),
        usable_scale(scale) && !not_a_number(rounded) && truncated(rounded) > i32::MAX ==> r
            == Err::<i32, Error>(Error::Overflow(saturated(truncated(rounded)))),
        usable_scale(scale) && !not_a_number(rounded) && truncated(rounded) <= i32::MAX ==> r is Ok
            && r->Ok_0 == stored(truncated(rounded)),
{
    if !is_usable_scale(scale) {
        return Err(Error::InvalidHeader);
    }
    quantize_bits(rounded)
}

/// What is stored keeps the order of the rounded quotients: of two
/// quotients that are not above the largest storable value, the smaller is
/// stored as the smaller integer, or as the same.
pub proof fn lemma_stored_keeps_order(a: int, b: int)
    requires
        a <= b <= i32::MAX,
    ensures
        i32::MIN <= stored(a) <= stored(b) <= i32::MAX,
{
}

} // verus!
