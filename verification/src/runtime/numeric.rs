//! Conversions between the numeric kinds of value, on their bits.
//!
//! Single and double precision numbers are held as their IEEE-754 bit
//! patterns. Their conversion to an integer drops the fraction, gives 0 for
//! a NaN, and the nearest bound of the integer range for a number outside it.

use crate::bytecode::format::signed32;
use vstd::prelude::*;

verus! {

/// The unsigned 64-bit number with the bits of `v`.
pub open spec fn unsigned64(v: i64) -> u64 {
    if v < 0 {
        (v + 0x1_0000_0000_0000_0000) as u64
    } else {
        v as u64
    }
}

/// The signed 32-bit number with the low 32 bits of `v`.
pub open spec fn narrow64(v: i64) -> i32 {
    signed32((unsigned64(v) % 0x1_0000_0000) as u32)
}

/// `magnitude`, which is below 2^31, with its sign; the bound of the range
/// on that side where `saturated`.
pub open spec fn signed_magnitude(negative: bool, saturated: bool, magnitude: u64) -> i32 {
    if saturated {
        if negative {
            i32::MIN
        } else {
            i32::MAX
        }
    } else if negative {
        (-(magnitude as int)) as i32
    } else {
        magnitude as i32
    }
}

/// The integer that the single precision number with the bits `bits`
/// converts to.
///
/// Of the bits, the top one is the sign, the next 8 the exponent, biased by
/// 127, and the low 23 the fraction behind an implied leading one.
pub open spec fn single_to_int(bits: u32) -> i32 {
    let negative = bits >= 0x8000_0000;
    let rest = if negative {
        (bits - 0x8000_0000) as u32
    } else {
        bits
    };
    let exponent = rest / 0x80_0000;
    let fraction = rest % 0x80_0000;
    let mantissa = (0x80_0000 + fraction) as u64;
    if exponent == 255 && fraction != 0 {
        0
    } else if exponent < 127 {
        0
    } else if exponent >= 158 {
        signed_magnitude(negative, true, 0)
    } else if exponent >= 150 {
        signed_magnitude(negative, false, mantissa << ((exponent - 150) as u64))
    } else {
        signed_magnitude(negative, false, mantissa >> ((150 - exponent) as u64))
    }
}

/// The integer that the double precision number with the bits `bits`
/// converts to.
///
/// Of the bits, the top one is the sign, the next 11 the exponent, biased by
/// 1023, and the low 52 the fraction behind an implied leading one.
pub open spec fn double_to_int(bits: u64) -> i32 {
    let negative = bits >= 0x8000_0000_0000_0000;
    let rest = if negative {
        (bits - 0x8000_0000_0000_0000) as u64
    } else {
        bits
    };
    let exponent = rest / 0x10_0000_0000_0000;
    let fraction = rest % 0x10_0000_0000_0000;
    let mantissa = (0x10_0000_0000_0000 + fraction) as u64;
    if exponent == 2047 && fraction != 0 {
        0
    } else if exponent < 1023 {
        0
    } else if exponent >= 1054 {
        signed_magnitude(negative, true, 0)
    } else {
        signed_magnitude(negative, false, mantissa >> ((1075 - exponent) as u64))
    }
}

/// The absolute value of `v`; the least number of the range stays as it is.
pub open spec fn abs32(v: i32) -> i32 {
    if v == i32::MIN {
        v
    } else if v < 0 {
        (-v) as i32
    } else {
        v
    }
}

/// The absolute value of `v`; the least number of the range stays as it is.
pub open spec fn abs64(v: i64) -> i64 {
    if v == i64::MIN {
        v
    } else if v < 0 {
        (-v) as i64
    } else {
        v
    }
}

/// The quotient of `a` by `b`, which is not 0, rounded towards zero; the
/// least number of the range divided by -1 stays as it is.
pub open spec fn div32(a: i32, b: i32) -> i32 {
    if a == i32::MIN && b == -1 {
        a
    } else if (a >= 0) == (b > 0) {
        (abs_int(a as int) / abs_int(b as int)) as i32
    } else {
        (-(abs_int(a as int) / abs_int(b as int))) as i32
    }
}

/// The absolute value of `v`.
pub open spec fn abs_int(v: int) -> int {
    if v < 0 {
        -v
    } else {
        v
    }
}

/// Divides `a` by `b`, rounding towards zero.
pub fn to_div32(a: i32, b: i32) -> (r: i32)
    requires
        b != 0,
    ensures
        r == div32(a, b),
{
    proof {
        let x = abs_int(a as int);
        let d = abs_int(b as int);
        assert(0 <= x / d <= x) by (nonlinear_arith)
            requires
                x >= 0,
                d >= 1,
        ;
        assert(a as int * -1 == -(a as int));
        assert(b as int * -1 == -(b as int));
        assert((x / d) * -1 == -(x / d));
        if d == 1 {
            assert(x / d == x) by (nonlinear_arith)
                requires
                    d == 1,
            ;
        } else if x > 0 {
            assert(x / d < x) by (nonlinear_arith)
                requires
                    x > 0,
                    d >= 2,
            ;
        }
    }
    match a.checked_div(b) {
        Some(q) => q,
        None => a,
    }
}

/// Narrows `v` to its low 32 bits.
pub fn to_narrow64(v: i64) -> (r: i32)
    ensures
        r == narrow64(v),
{
    let bits: u64 = if v < 0 {
        ((v + 0x7fff_ffff_ffff_ffff + 1) as u64) + 0x8000_0000_0000_0000
    } else {
        v as u64
    };
    let low = (bits % 0x1_0000_0000) as u32;
    if low >= 0x8000_0000 {
        ((low - 0x8000_0000) as i32) - 0x7fff_ffff - 1
    } else {
        low as i32
    }
}

fn to_signed_magnitude(negative: bool, saturated: bool, magnitude: u64) -> (r: i32)
    requires
        magnitude < 0x8000_0000,
    ensures
        r == signed_magnitude(negative, saturated, magnitude),
{
    if saturated {
        if negative {
            i32::MIN
        } else {
            i32::MAX
        }
    } else if negative {
        -(magnitude as i32)
    } else {
        magnitude as i32
    }
}

/// Converts the single precision number with the bits `bits` to an
/// integer.
pub fn to_single_int(bits: u32) -> (r: i32)
    ensures
        r == single_to_int(bits),
{
    let negative = bits >= 0x8000_0000;
    let rest = if negative {
        bits - 0x8000_0000
    } else {
        bits
    };
    let exponent = rest / 0x80_0000;
    let fraction = rest % 0x80_0000;
    let mantissa = (0x80_0000 + fraction) as u64;
    if exponent == 255 && fraction != 0 {
        0
    } else if exponent < 127 {
        0
    } else if exponent >= 158 {
        to_signed_magnitude(negative, true, 0)
    } else if exponent >= 150 {
        let shift = (exponent - 150) as u64;
        assert(mantissa << shift < 0x8000_0000) by (bit_vector)
            requires
                mantissa < 0x100_0000,
                shift <= 7,
        ;
        to_signed_magnitude(negative, false, mantissa << shift)
    } else {
        let shift = (150 - exponent) as u64;
        assert(mantissa >> shift < 0x8000_0000) by (bit_vector)
            requires
                mantissa < 0x100_0000,
        ;
        to_signed_magnitude(negative, false, mantissa >> shift)
    }
}

/// Converts the double precision number with the bits `bits` to an
/// integer.
pub fn to_double_int(bits: u64) -> (r: i32)
    ensures
        r == double_to_int(bits),
{
    let negative = bits >= 0x8000_0000_0000_0000;
    let rest = if negative {
        bits - 0x8000_0000_0000_0000
    } else {
        bits
    };
    let exponent = rest / 0x10_0000_0000_0000;
    let fraction = rest % 0x10_0000_0000_0000;
    let mantissa = 0x10_0000_0000_0000 + fraction;
    if exponent == 2047 && fraction != 0 {
        0
    } else if exponent < 1023 {
        0
    } else if exponent >= 1054 {
        to_signed_magnitude(negative, true, 0)
    } else {
        let shift = 1075 - exponent;
        assert(mantissa >> shift < 0x8000_0000) by (bit_vector)
            requires
                mantissa < 0x20_0000_0000_0000,
                22 <= shift <= 52,
        ;
        to_signed_magnitude(negative, false, mantissa >> shift)
    }
}

/// The absolute value of `v`.
pub fn to_abs32(v: i32) -> (r: i32)
    ensures
        r == abs32(v),
{
    if v == i32::MIN {
        v
    } else if v < 0 {
        -v
    } else {
        v
    }
}

/// The absolute value of `v`.
pub fn to_abs64(v: i64) -> (r: i64)
    ensures
        r == abs64(v),
{
    if v == i64::MIN {
        v
    } else if v < 0 {
        -v
    } else {
        v
    }
}

} // verus!
