//! Single-precision numbers, held as their bit patterns.
//!
//! A tensor of the detector holds IEEE 754 binary32 numbers. Here such a number is the `u32`
//! that `f32::to_bits` gives, and its value is an integer: every finite binary32 number is a
//! multiple of 2^-149, so [`scaled`] is the number times 2^149.

use vstd::arithmetic::div_mod::lemma_div_multiples_vanish_quotient;
use vstd::arithmetic::mul::lemma_mul_is_commutative;
use vstd::arithmetic::power2::{
    lemma2_to64, lemma_pow2_adds, lemma_pow2_pos, lemma_pow2_strictly_increases,
    lemma_pow2_unfold, pow2,
};
use vstd::bits::lemma_u32_shr_is_div;
use vstd::prelude::*;

verus! {

/// The bit pattern of positive zero.
pub const ZERO_BITS: u32 = 0;

/// The lowest bit pattern with the sign bit set.
pub const SIGN_BIT: u32 = 0x8000_0000;

/// The magnitude of infinity; every larger magnitude is a NaN.
pub const INFINITY_BITS: u32 = 0x7f80_0000;

/// Whether the sign bit is set.
pub open spec fn is_negative(bits: u32) -> bool {
    bits >= SIGN_BIT
}

/// The bits below the sign bit.
pub open spec fn magnitude(bits: u32) -> int {
    bits as int % 0x8000_0000
}

/// Whether the pattern is a NaN.
pub open spec fn is_nan(bits: u32) -> bool {
    magnitude(bits) > INFINITY_BITS
}

/// The value of a magnitude times 2^149: the fraction alone for a subnormal number, else the
/// fraction with its leading one, moved by the exponent. Infinity comes out above every
/// finite number.
pub open spec fn scaled_magnitude(magnitude: int) -> int {
    let exponent = magnitude / 0x80_0000;
    let fraction = magnitude % 0x80_0000;
    if exponent <= 0 {
        fraction
    } else {
        (0x80_0000 + fraction) * pow2((exponent - 1) as nat)
    }
}

/// The value of a number that is not a NaN, times 2^149.
pub open spec fn scaled(bits: u32) -> int {
    if is_negative(bits) {
        -scaled_magnitude(magnitude(bits))
    } else {
        scaled_magnitude(magnitude(bits))
    }
}

/// What `<` says of two numbers: false where either is a NaN, else the order of the values.
pub open spec fn less_than(a: u32, b: u32) -> bool {
    !is_nan(a) && !is_nan(b) && scaled(a) < scaled(b)
}

/// The number rounded towards zero to a natural number: zero for a NaN and below zero.
pub open spec fn truncated(bits: u32) -> int {
    if is_nan(bits) || is_negative(bits) {
        0
    } else {
        scaled(bits) / (pow2(149) as int)
    }
}

/// Larger magnitudes have larger values.
pub proof fn lemma_scaled_magnitude_increases(a: int, b: int)
    requires
        0 <= a < b,
    ensures
        0 <= scaled_magnitude(a) < scaled_magnitude(b),
{
    let (ea, fa) = (a / 0x80_0000, a % 0x80_0000);
    let (eb, fb) = (b / 0x80_0000, b % 0x80_0000);
    assert(ea <= eb);
    let pb: int = if eb > 0 {
        pow2((eb - 1) as nat) as int
    } else {
        1
    };
    if ea > 0 {
        lemma_pow2_pos((ea - 1) as nat);
        let pa: int = pow2((ea - 1) as nat) as int;
        assert(0 <= (0x80_0000 + fa) * pa) by (nonlinear_arith)
            requires
                0 <= fa,
                pa > 0,
        ;
    }
    if eb > 0 {
        lemma_pow2_pos((eb - 1) as nat);
        assert(0x80_0000 <= (0x80_0000 + fb) * pb) by (nonlinear_arith)
            requires
                0 <= fb,
                pb > 0,
        ;
    }
    if ea == eb && eb > 0 {
        assert((0x80_0000 + fa) * pb < (0x80_0000 + fb) * pb) by (nonlinear_arith)
            requires
                fa < fb,
                pb > 0,
        ;
    } else if 0 < ea < eb {
        let pa: int = pow2((ea - 1) as nat) as int;
        lemma_pow2_unfold(ea as nat);
        if ea < eb - 1 {
            lemma_pow2_strictly_increases(ea as nat, (eb - 1) as nat);
        }
        assert((0x80_0000 + fa) * pa < (0x80_0000 + fb) * pb) by (nonlinear_arith)
            requires
                0 <= fa < 0x80_0000,
                0 <= fb,
                pa > 0,
                2 * pa <= pb,
        ;
    }
}

/// Of two numbers that are not NaN, `less_than` holds one way, the other way, or the values
/// are equal: exactly one of the three.
pub proof fn lemma_order_is_total(a: u32, b: u32)
    requires
        !is_nan(a),
        !is_nan(b),
    ensures
        less_than(a, b) || less_than(b, a) || scaled(a) == scaled(b),
        !(less_than(a, b) && less_than(b, a)),
        less_than(a, b) || less_than(b, a) ==> scaled(a) != scaled(b),
{
}

/// Whether `a < b` as single-precision numbers.
pub fn is_less(a: u32, b: u32) -> (r: bool)
    ensures
        r == less_than(a, b),
{
    let ma: u32 = a % SIGN_BIT;
    let mb: u32 = b % SIGN_BIT;
    proof {
        if ma < mb {
            lemma_scaled_magnitude_increases(ma as int, mb as int);
        }
        if mb < ma {
            lemma_scaled_magnitude_increases(mb as int, ma as int);
        }
        assert(scaled_magnitude(0) == 0);
        if 0 < ma {
            lemma_scaled_magnitude_increases(0, ma as int);
        }
        if 0 < mb {
            lemma_scaled_magnitude_increases(0, mb as int);
        }
    }
    if ma > INFINITY_BITS || mb > INFINITY_BITS {
        false
    } else if a >= SIGN_BIT {
        if b >= SIGN_BIT {
            mb < ma
        } else {
            ma > 0 || mb > 0
        }
    } else {
        b < SIGN_BIT && ma < mb
    }
}

/// The number rounded towards zero and cut off at `limit`, for limits that the fraction of a
/// number can tell apart.
pub fn truncate_to(bits: u32, limit: u32) -> (r: u32)
    requires
        limit < 0x80_0000,
    ensures
        r == if truncated(bits) < limit {
            truncated(bits)
        } else {
            limit as int
        },
{
    if bits % SIGN_BIT > INFINITY_BITS || bits >= SIGN_BIT {
        return 0;
    }
    let exponent: u32 = bits / 0x80_0000;
    let fraction: u32 = bits % 0x80_0000;
    let mantissa: u32 = 0x80_0000 + fraction;
    proof {
        lemma_pow2_pos(149);
        lemma2_to64();
    }
    if exponent < 127 {
        proof {
            lemma_below_one(bits);
        }
        0
    } else if exponent < 150 {
        let shift: u32 = 150 - exponent;
        let whole: u32 = mantissa >> shift;
        proof {
            lemma_u32_shr_is_div(mantissa, shift);
            lemma_truncated_by_shift(bits);
        }
        if whole < limit {
            whole
        } else {
            limit
        }
    } else {
        proof {
            lemma_above_fraction(bits);
        }
        limit
    }
}

/// A number with an exponent below that of one rounds to zero.
proof fn lemma_below_one(bits: u32)
    requires
        bits < 127 * 0x80_0000,
    ensures
        scaled(bits) / (pow2(149) as int) == 0,
{
    lemma_scaled_magnitude_increases(bits as int, 127int * 0x80_0000);
    lemma_pow2_adds(23, 126);
    lemma2_to64();
    assert(scaled_magnitude(127int * 0x80_0000) == pow2(149));
    if bits > 0 {
        lemma_scaled_magnitude_increases(0, bits as int);
    }
    lemma_pow2_pos(149);
    vstd::arithmetic::div_mod::lemma_basic_div(scaled(bits), pow2(149) as int);
}

/// Between one and 2^23 the whole part is the mantissa without its lowest bits.
proof fn lemma_truncated_by_shift(bits: u32)
    requires
        127 * 0x80_0000 <= bits < 150 * 0x80_0000,
    ensures
        scaled(bits) / (pow2(149) as int) == (0x80_0000 + bits % 0x80_0000) / (pow2(
            (150 - bits / 0x80_0000) as nat,
        ) as int),
{
    let exponent = bits as int / 0x80_0000;
    let mantissa = 0x80_0000 + bits as int % 0x80_0000;
    let low: int = pow2((exponent - 1) as nat) as int;
    let high: int = pow2((150 - exponent) as nat) as int;
    lemma_pow2_pos((exponent - 1) as nat);
    lemma_pow2_pos((150 - exponent) as nat);
    lemma_pow2_adds((exponent - 1) as nat, (150 - exponent) as nat);
    lemma_div_multiples_vanish_quotient(low, mantissa, high);
    lemma_mul_is_commutative(low, mantissa);
}

/// From an exponent of 2^23 on, the whole part has all bits of the fraction.
proof fn lemma_above_fraction(bits: u32)
    requires
        150 * 0x80_0000 <= bits <= INFINITY_BITS,
    ensures
        scaled(bits) / (pow2(149) as int) >= 0x80_0000,
{
    let edge: int = 150int * 0x80_0000;
    if edge < bits {
        lemma_scaled_magnitude_increases(edge, bits as int);
    }
    assert(scaled_magnitude(edge) == 0x80_0000 * pow2(149));
    lemma_pow2_pos(149);
    let one: int = pow2(149) as int;
    vstd::arithmetic::div_mod::lemma_div_is_ordered(0x80_0000 * one, scaled(bits), one);
    vstd::arithmetic::div_mod::lemma_div_by_multiple(0x80_0000, one);
}

/// The order of the bit patterns: above zero a larger pattern is a larger number, up to
/// infinity at 0x7f80_0000; below zero, from 0x8000_0000 on, a larger pattern is a smaller
/// number, down to negative infinity at 0xff80_0000. The two zeros are equal. All other
/// patterns are NaN, and are neither less nor greater than anything.
pub proof fn lemma_order_of_patterns(a: u32, b: u32)
    ensures
        0x7f80_0000 < a < 0x8000_0000 || 0xff80_0000 < a ==> !less_than(a, b) && !less_than(b, a),
        a <= 0x7f80_0000 && b <= 0x7f80_0000 ==> (less_than(a, b) <==> a < b),
        0x8000_0000 <= a <= 0xff80_0000 && 0x8000_0000 <= b <= 0xff80_0000 ==> (less_than(a, b)
            <==> b < a),
        0x8000_0000 <= a <= 0xff80_0000 && b <= 0x7f80_0000 ==> !less_than(b, a) && (less_than(
            a,
            b,
        ) <==> a > 0x8000_0000 || b > 0),
{
    let (ma, mb) = (magnitude(a), magnitude(b));
    assert(scaled_magnitude(0) == 0);
    if ma < mb {
        lemma_scaled_magnitude_increases(ma, mb);
    }
    if mb < ma {
        lemma_scaled_magnitude_increases(mb, ma);
    }
    if 0 < ma {
        lemma_scaled_magnitude_increases(0, ma);
    }
    if 0 < mb {
        lemma_scaled_magnitude_increases(0, mb);
    }
}

/// A number is at least a whole number `k`, of up to 24 bits, exactly where its pattern lies
/// between that of `k` and that of infinity: an exponent of 127 more than that of the leading
/// one of `k`, and the bits below the leading one at the top of the fraction.
pub proof fn lemma_whole_numbers(bits: u32, k: int, e: nat)
    requires
        e <= 23,
        pow2(e) <= k < pow2(e + 1),
    ensures
        k <= truncated(bits) <==> (127 + e) * 0x80_0000 + (k - pow2(e)) * pow2((23 - e) as nat)
            <= bits <= 0x7f80_0000,
{
    let (top, rest): (int, int) = (pow2(e) as int, pow2((23 - e) as nat) as int);
    let (low, one): (int, int) = (pow2(126 + e) as int, pow2(149) as int);
    lemma2_to64();
    lemma_pow2_pos(e);
    lemma_pow2_pos((23 - e) as nat);
    lemma_pow2_pos(126 + e);
    lemma_pow2_pos(149);
    lemma_pow2_adds(e, (23 - e) as nat);
    lemma_pow2_adds((23 - e) as nat, 126 + e);
    lemma_pow2_unfold(e + 1);
    let fraction = (k - top) * rest;
    assert(0 <= fraction < 0x80_0000) by (nonlinear_arith)
        requires
            fraction == (k - top) * rest,
            top * rest == 0x80_0000,
            top <= k < 2 * top,
            rest > 0,
    ;
    let pattern = (127 + e) * 0x80_0000 + fraction;
    assert(pattern / 0x80_0000 == 127 + e && pattern % 0x80_0000 == fraction);
    assert(scaled_magnitude(pattern) == (0x80_0000 + fraction) * low);
    assert((0x80_0000 + fraction) * low == k * one) by (nonlinear_arith)
        requires
            fraction == (k - top) * rest,
            top * rest == 0x80_0000,
            rest * low == one,
    ;
    if magnitude(bits) < pattern {
        lemma_scaled_magnitude_increases(magnitude(bits), pattern);
    } else if pattern < magnitude(bits) {
        lemma_scaled_magnitude_increases(pattern, magnitude(bits));
    }
    let value = scaled(bits);
    if !is_nan(bits) && !is_negative(bits) {
        assert(k <= value / one <==> k * one <= value) by (nonlinear_arith)
            requires
                one > 0,
        ;
    }
}

} // verus!
