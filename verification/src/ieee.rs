//! IEEE-754 binary64 values held as bit patterns.
//!
//! A pattern is a sign bit, eleven exponent bits and fifty-two fraction
//! bits.  Read as a sign and a 63-bit magnitude, the patterns that are not
//! NaN are ordered exactly as the numbers they encode, with the two zeros
//! equal.  Everything here rests on that reading: no arithmetic on doubles
//! is performed.

use vstd::arithmetic::power2::{lemma_pow2_pos, lemma_pow2_strictly_increases, lemma_pow2_unfold, pow2};
use vstd::prelude::*;

verus! {

/// The pattern whose only set bit is the sign bit (negative zero).
pub const SIGN_BIT: u64 = 0x8000_0000_0000_0000;

/// The pattern of positive infinity: every exponent bit set, no fraction bit.
pub const INFINITY: u64 = 0x7ff0_0000_0000_0000;

/// The pattern of positive zero.
pub const ZERO: u64 = 0;

/// Two to the power 52: the weight of the lowest exponent bit, and of the
/// leading bit that a normal number's fraction leaves out.
pub const HIDDEN_BIT: u64 = 0x0010_0000_0000_0000;

/// The pattern with the sign bit cleared: the absolute value.
pub open spec fn spec_magnitude(bits: u64) -> u64 {
    if bits >= SIGN_BIT {
        (bits - SIGN_BIT) as u64
    } else {
        bits
    }
}

/// The sign bit is set.
pub open spec fn spec_is_negative(bits: u64) -> bool {
    bits >= SIGN_BIT
}

/// Not a number: exponent all ones and a non-zero fraction.
pub open spec fn spec_is_nan(bits: u64) -> bool {
    spec_magnitude(bits) > INFINITY
}

/// Zero, subnormal or normal: neither infinite nor NaN.
pub open spec fn spec_is_finite(bits: u64) -> bool {
    spec_magnitude(bits) < INFINITY
}

/// The position of a pattern on the number line: the magnitude, negated
/// when the sign bit is set.  Both zeros have rank 0.
pub open spec fn rank(bits: u64) -> int {
    if bits >= SIGN_BIT {
        -(spec_magnitude(bits) as int)
    } else {
        spec_magnitude(bits) as int
    }
}

/// `a <= b` as doubles: false when either is NaN.
pub open spec fn spec_le(a: u64, b: u64) -> bool {
    !spec_is_nan(a) && !spec_is_nan(b) && rank(a) <= rank(b)
}

/// `a < b` as doubles: false when either is NaN.
pub open spec fn spec_lt(a: u64, b: u64) -> bool {
    !spec_is_nan(a) && !spec_is_nan(b) && rank(a) < rank(b)
}

/// Every element of `s` is finite.
pub open spec fn spec_all_finite(s: Seq<u64>) -> bool {
    forall|i: int| 0 <= i < s.len() ==> spec_is_finite(#[trigger] s[i])
}

#[verifier::when_used_as_spec(spec_magnitude)]
pub fn magnitude(bits: u64) -> (r: u64)
    ensures
        r == spec_magnitude(bits),
{
    if bits >= SIGN_BIT {
        bits - SIGN_BIT
    } else {
        bits
    }
}

#[verifier::when_used_as_spec(spec_is_negative)]
pub fn is_negative(bits: u64) -> (r: bool)
    ensures
        r == spec_is_negative(bits),
{
    bits >= SIGN_BIT
}

#[verifier::when_used_as_spec(spec_is_nan)]
pub fn is_nan(bits: u64) -> (r: bool)
    ensures
        r == spec_is_nan(bits),
{
    magnitude(bits) > INFINITY
}

#[verifier::when_used_as_spec(spec_is_finite)]
pub fn is_finite(bits: u64) -> (r: bool)
    ensures
        r == spec_is_finite(bits),
{
    magnitude(bits) < INFINITY
}

#[verifier::when_used_as_spec(spec_le)]
pub fn le(a: u64, b: u64) -> (r: bool)
    ensures
        r == spec_le(a, b),
{
    if is_nan(a) || is_nan(b) {
        return false;
    }
    let ma: u64 = magnitude(a);
    let mb: u64 = magnitude(b);
    if is_negative(a) {
        if is_negative(b) {
            mb <= ma
        } else {
            true
        }
    } else if is_negative(b) {
        ma == 0 && mb == 0
    } else {
        ma <= mb
    }
}

#[verifier::when_used_as_spec(spec_lt)]
pub fn lt(a: u64, b: u64) -> (r: bool)
    ensures
        r == spec_lt(a, b),
{
    if is_nan(a) || is_nan(b) {
        return false;
    }
    !le(b, a)
}

pub fn all_finite(v: &Vec<u64>) -> (r: bool)
    ensures
        r == spec_all_finite(v@),
{
    let mut i: usize = 0;
    while i < v.len()
        invariant
            i <= v.len(),
            forall|j: int| 0 <= j < i ==> spec_is_finite(#[trigger] v@[j]),
        decreases v.len() - i,
    {
        if !is_finite(v[i]) {
            return false;
        }
        i = i + 1;
    }
    true
}

/// Among doubles that are not NaN, `<=` is a total preorder and `<` is its
/// strict part.
pub proof fn lemma_order(a: u64, b: u64, c: u64)
    requires
        !spec_is_nan(a),
        !spec_is_nan(b),
        !spec_is_nan(c),
    ensures
        spec_le(a, a),
        spec_le(a, b) || spec_le(b, a),
        spec_le(a, b) && spec_le(b, c) ==> spec_le(a, c),
        spec_lt(a, b) <==> !spec_le(b, a),
        spec_le(a, b) && spec_le(b, a) <==> rank(a) == rank(b),
{
}

/// The exponent field of a pattern.
pub open spec fn exponent(bits: u64) -> nat {
    (spec_magnitude(bits) / HIDDEN_BIT) as nat
}

/// The fraction field of a pattern.
pub open spec fn fraction(bits: u64) -> nat {
    (spec_magnitude(bits) % HIDDEN_BIT) as nat
}

/// The number that a magnitude denotes, times two to the power 1074, which
/// makes it an integer.  With exponent field 0 the number is the fraction
/// times 2^-1074; with exponent field `e > 0` it is the fraction with its
/// leading bit times 2^(e - 1075).
pub open spec fn magnitude_value(bits: u64) -> int {
    if exponent(bits) == 0 {
        fraction(bits) as int
    } else {
        (HIDDEN_BIT + fraction(bits)) * pow2((exponent(bits) - 1) as nat)
    }
}

/// The number that a finite pattern denotes, times two to the power 1074.
pub open spec fn scaled_value(bits: u64) -> int {
    if bits >= SIGN_BIT {
        -magnitude_value(bits)
    } else {
        magnitude_value(bits)
    }
}

/// A larger magnitude denotes a larger number.
proof fn lemma_magnitude_value_increases(a: u64, b: u64)
    requires
        spec_magnitude(a) < spec_magnitude(b),
    ensures
        0 <= magnitude_value(a) < magnitude_value(b),
{
    let ea = exponent(a);
    let eb = exponent(b);
    let fa = fraction(a) as int;
    let fb = fraction(b) as int;
    let h = HIDDEN_BIT as int;
    if ea == eb {
        if ea > 0 {
            let p = pow2((ea - 1) as nat) as int;
            lemma_pow2_pos((ea - 1) as nat);
            assert(0 <= (h + fa) * p < (h + fb) * p) by (nonlinear_arith)
                requires
                    0 <= fa < fb,
                    h > 0,
                    p > 0,
            ;
        }
    } else {
        let q = pow2((eb - 1) as nat) as int;
        lemma_pow2_pos((eb - 1) as nat);
        assert(h * q <= (h + fb) * q) by (nonlinear_arith)
            requires
                0 <= fb,
                q > 0,
        ;
        if ea == 0 {
            assert(h <= h * q) by (nonlinear_arith)
                requires
                    h > 0,
                    q >= 1,
            ;
        } else {
            let p = pow2((ea - 1) as nat) as int;
            lemma_pow2_pos((ea - 1) as nat);
            lemma_pow2_unfold(ea);
            if ea < eb - 1 {
                lemma_pow2_strictly_increases(ea, (eb - 1) as nat);
            }
            assert(0 <= (h + fa) * p < h * (2 * p)) by (nonlinear_arith)
                requires
                    0 <= fa < h,
                    p > 0,
            ;
            assert(h * (2 * p) <= h * q) by (nonlinear_arith)
                requires
                    h > 0,
                    2 * p <= q,
            ;
        }
    }
}

/// The reading on which this module rests: ranks are ordered as the
/// numbers that the patterns denote, and two patterns have one rank exactly
/// when they denote one number.
pub proof fn lemma_rank_orders_values(a: u64, b: u64)
    ensures
        rank(a) <= rank(b) <==> scaled_value(a) <= scaled_value(b),
        rank(a) == rank(b) <==> scaled_value(a) == scaled_value(b),
        spec_is_finite(a) && spec_is_finite(b) ==> (spec_le(a, b) <==> scaled_value(a)
            <= scaled_value(b)),
{
    let ma = spec_magnitude(a);
    let mb = spec_magnitude(b);
    if ma < mb {
        lemma_magnitude_value_increases(a, b);
    } else if mb < ma {
        lemma_magnitude_value_increases(b, a);
    }
    if ma == 0 {
        assert(magnitude_value(a) == 0);
    } else {
        lemma_magnitude_value_increases(ZERO, a);
    }
    if mb == 0 {
        assert(magnitude_value(b) == 0);
    } else {
        lemma_magnitude_value_increases(ZERO, b);
    }
}

} // verus!
