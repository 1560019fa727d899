//! Single-precision numbers, held as their bits.
use vstd::arithmetic::power2::pow2;
use vstd::prelude::*;

verus! {

/// Bits of positive infinity.
pub const INFINITY_BITS: u32 = 0x7f80_0000;

/// Bits of zero.
pub const ZERO_BITS: u32 = 0;

/// The number of bits `bits` is greater than the one of bits `bound`, which is
/// not negative. The bits of numbers that are not negative are ordered as the
/// numbers are.
pub open spec fn is_above(bits: u32, bound: u32) -> bool {
    bound < bits <= INFINITY_BITS
}

/// Whether a number is greater than a bound that is not negative.
pub fn above(bits: u32, bound: u32) -> (r: bool)
    ensures
        r == is_above(bits, bound),
{
    bound < bits && bits <= INFINITY_BITS
}

/// The bits are those of no number.
pub open spec fn is_nan(bits: u32) -> bool {
    bits % 0x8000_0000 > INFINITY_BITS
}

/// The exponent of a number: that of the smallest numbers is one.
pub open spec fn exponent(bits: u32) -> int {
    let e = bits as int / 0x80_0000 % 256;
    if e == 0 {
        1
    } else {
        e
    }
}

/// The significand of a number, as an integer: a number that is not negative
/// is its significand times two to the power of its exponent less 150.
pub open spec fn significand(bits: u32) -> int {
    if bits as int / 0x80_0000 % 256 == 0 {
        bits as int % 0x80_0000
    } else {
        bits as int % 0x80_0000 + 0x80_0000
    }
}

/// `n` parts of `2^24` are less than the number of bits `bits`, or that is no
/// number.
pub open spec fn is_fraction_below(n: int, bits: u32) -> bool {
    if is_nan(bits) {
        true
    } else if bits >= 0x8000_0000 {
        false
    } else if exponent(bits) >= 127 {
        n < 0x100_0000
    } else {
        n * pow2((126 - exponent(bits)) as nat) < significand(bits)
    }
}

fn two_to_the(s: u32) -> (r: u64)
    requires
        s < 24,
    ensures
        r == pow2(s as nat),
        r < 0x100_0000,
{
    let mut r: u64 = 1;
    let mut i: u32 = 0;
    proof {
        vstd::arithmetic::power2::lemma2_to64();
    }
    while i < s
        invariant
            i <= s,
            s < 24,
            r == pow2(i as nat),
        decreases s - i,
    {
        proof {
            vstd::arithmetic::power2::lemma_pow2_unfold((i + 1) as nat);
            vstd::arithmetic::power2::lemma_pow2_strictly_increases(i as nat, 24);
            vstd::arithmetic::power2::lemma2_to64();
        }
        r = r * 2;
        i += 1;
    }
    proof {
        vstd::arithmetic::power2::lemma_pow2_strictly_increases(s as nat, 24);
        vstd::arithmetic::power2::lemma2_to64();
    }
    r
}

/// Whether a fraction of `2^24` parts is less than a number. What is no number
/// has every fraction below it.
pub fn fraction_below(n: u32, bits: u32) -> (r: bool)
    requires
        n < 0x100_0000,
    ensures
        r == is_fraction_below(n as int, bits),
{
    if bits % 0x8000_0000 > INFINITY_BITS {
        return true;
    }
    if bits >= 0x8000_0000 {
        return false;
    }
    let field: u32 = bits / 0x80_0000 % 256;
    let low: u32 = bits % 0x80_0000;
    if field >= 127 {
        return true;
    }
    let m: u64 = if field == 0 {
        low as u64
    } else {
        (low + 0x80_0000) as u64
    };
    let e: u32 = if field == 0 {
        1
    } else {
        field
    };
    let s: u32 = 126 - e;
    if s >= 24 {
        proof {
            vstd::arithmetic::power2::lemma2_to64();
            if s > 24 {
                vstd::arithmetic::power2::lemma_pow2_strictly_increases(24, s as nat);
            }
            let p = pow2(s as nat) as int;
            if n > 0 {
                assert(n * p >= p) by (nonlinear_arith)
                    requires
                        n > 0,
                        p > 0,
                ;
            } else {
                assert(n * p == 0) by (nonlinear_arith)
                    requires
                        n == 0,
                ;
            }
        }
        return n == 0 && m > 0;
    }
    let p: u64 = two_to_the(s);
    proof {
        assert(n * p <= 0x100_0000 * 0x100_0000) by (nonlinear_arith)
            requires
                n < 0x100_0000,
                p < 0x100_0000,
        ;
    }
    (n as u64) * p < m
}

/// A greater fraction is below no number that a smaller one is not below.
pub proof fn law_fractions_are_ordered(a: int, b: int, bits: u32)
    requires
        0 <= a <= b,
        is_fraction_below(b, bits),
    ensures
        is_fraction_below(a, bits),
{
    if !is_nan(bits) && bits < 0x8000_0000 && exponent(bits) < 127 {
        let p = pow2((126 - exponent(bits)) as nat) as int;
        assert(a * p <= b * p) by (nonlinear_arith)
            requires
                a <= b,
                p >= 0,
        ;
    }
}

/// The bits of numbers that are not negative order as the numbers do: a
/// number is above a bound that is not negative where its bits are larger, a
/// negative one never is, and neither is what is no number.
pub proof fn law_above(a: u32, b: u32, bound: u32)
    requires
        bound <= 0x7f80_0000,
    ensures
        is_above(a, bound) && a <= b <= 0x7f80_0000 ==> is_above(b, bound),
        !is_above(bound, bound),
        bound < 0x7f80_0000 ==> is_above((bound + 1) as u32, bound),
        a >= 0x8000_0000 ==> !is_above(a, bound),
        is_nan(a) ==> !is_above(a, bound),
{
}

/// What is no number: more than infinity once the sign is left away.
pub proof fn law_nan(a: u32)
    ensures
        a < 0x8000_0000 ==> (is_nan(a) <==> a > 0x7f80_0000),
        a >= 0x8000_0000 ==> (is_nan(a) <==> a > 0xff80_0000),
{
}

/// When `n` parts out of 2^24 are less than a number. The bits of a number
/// that is not negative are its exponent `e`, eight bits, and 23 bits `f` behind it;
/// it is `2^23 + f` times `2^(e - 150)`, or `f` times `2^-149` for exponent 0. So
/// nothing is below a negative number or nought, every fraction is below one and
/// all that is larger, and half of the parts are not below one half.
pub proof fn law_fraction_below(n: int, e: int, f: int, bits: u32)
    requires
        0 <= n < 0x100_0000,
        0 <= e < 255,
        0 <= f < 0x80_0000,
        bits == e * 0x80_0000 + f,
    ensures
        e >= 127 ==> is_fraction_below(n, bits),
        1 <= e < 127 ==> (is_fraction_below(n, bits) <==> n * pow2((126 - e) as nat) < 0x80_0000
            + f),
        e == 0 ==> (is_fraction_below(n, bits) <==> n * pow2(125) < f),
        n == 0 ==> (is_fraction_below(n, bits) <==> bits > 0),
        !is_fraction_below(0x80_0000, 0x3f00_0000),
        is_fraction_below(0x7f_ffff, 0x3f00_0000),
        !is_fraction_below(n, 0x8000_0000),
        !is_fraction_below(n, 0xbf80_0000),
{
    assert(bits as int / 0x80_0000 == e);
    assert(bits as int % 0x80_0000 == f);
    assert(exponent(0x3f00_0000u32) == 126);
    assert(significand(0x3f00_0000u32) == 0x80_0000);
    vstd::arithmetic::power2::lemma2_to64();
    if n == 0 && e < 127 {
        vstd::arithmetic::mul::lemma_mul_basics(pow2((126 - exponent(bits)) as nat) as int);
    }
}

} // verus!
