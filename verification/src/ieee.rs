//! Real numbers as this library sees them: bit patterns of IEEE-754 doubles.
//!
//! The library does no arithmetic on real numbers; it compares them. A
//! double is a sign bit, eleven bits of exponent and fifty-two bits of
//! fraction. A finite double that is zero or positive is a whole multiple of
//! `2^-1074`, and `magnitude` is that multiple. Read as unsigned integers,
//! the patterns of these doubles are ordered exactly like their magnitudes,
//! which is what lets an integer comparison stand for a comparison of
//! doubles. The pattern of `+infinity` lies above all of them, and every NaN
//! and every negative double has a pattern above that of `+infinity`.

use vstd::prelude::*;
use vstd::arithmetic::power2::{
    lemma2_to64,
    lemma2_to64_rest,
    lemma_pow2_adds,
    lemma_pow2_pos,
    lemma_pow2_strictly_increases,
    lemma_pow2_unfold,
    pow2,
};

verus! {

/// The bit pattern of the double `1.0`.
pub const ONE: u64 = 0x3FF0_0000_0000_0000;

/// The bit pattern of the double `2.0`.
pub const TWO: u64 = 0x4000_0000_0000_0000;

/// The bit pattern of the double `+infinity`.
pub const INFINITY: u64 = 0x7FF0_0000_0000_0000;

/// The bit pattern of the double `-0.0`.
pub const NEGATIVE_ZERO: u64 = 0x8000_0000_0000_0000;

/// `2^52`: the weight of the lowest exponent bit in a pattern, and the
/// hidden leading bit of a normal fraction.
pub const HIDDEN: u64 = 0x10_0000_0000_0000;

/// The exponent field of a pattern below that of `+infinity`.
pub open spec fn exponent(bits: u64) -> nat {
    (bits / HIDDEN) as nat
}

/// The fraction field of a pattern.
pub open spec fn fraction(bits: u64) -> nat {
    (bits % HIDDEN) as nat
}

/// The value of a finite double that is zero or positive, in units of
/// `2^-1074`: the fraction itself for a subnormal, and the fraction with its
/// hidden bit, scaled by the exponent, for a normal double.
pub open spec fn magnitude(bits: u64) -> nat
    recommends
        bits < INFINITY,
{
    if exponent(bits) == 0 {
        fraction(bits)
    } else {
        ((HIDDEN + fraction(bits)) * pow2((exponent(bits) - 1) as nat)) as nat
    }
}

/// The rank of a squared distance given by its pattern: an integer that
/// orders distances as the doubles are ordered. Both zeros rank 0, a
/// positive double or `+infinity` ranks as its pattern, and a pattern that
/// is no distance, a NaN or a negative double, ranks behind all of these.
pub open spec fn rank_of(bits: u64) -> u128 {
    if bits <= INFINITY {
        bits as u128
    } else if bits == NEGATIVE_ZERO {
        0
    } else {
        u128::MAX
    }
}

/// The rank of a squared distance, see `rank_of`.
pub fn rank(bits: u64) -> (r: u128)
    ensures
        r == rank_of(bits),
{
    if bits <= INFINITY {
        bits as u128
    } else if bits == NEGATIVE_ZERO {
        0
    } else {
        u128::MAX
    }
}

/// Of two finite doubles that are zero or positive, the one with the
/// smaller pattern has the smaller magnitude.
proof fn lemma_magnitude_increases(a: u64, b: u64)
    requires
        a < b < INFINITY,
    ensures
        magnitude(a) < magnitude(b),
{
    let ea = exponent(a);
    let eb = exponent(b);
    let fa = fraction(a);
    let fb = fraction(b);
    if ea == eb {
        if ea > 0 {
            lemma_pow2_pos((ea - 1) as nat);
            assert((HIDDEN + fa) * pow2((ea - 1) as nat) < (HIDDEN + fb) * pow2((ea - 1) as nat))
                by (nonlinear_arith)
                requires
                    fa < fb,
                    pow2((ea - 1) as nat) > 0,
            ;
        }
    } else {
        let low = pow2((eb - 1) as nat);
        let top: nat = if ea == 0 {
            1
        } else {
            2 * pow2((ea - 1) as nat)
        };
        assert(top <= low) by {
            lemma_pow2_pos((eb - 1) as nat);
            if ea > 0 {
                lemma_pow2_unfold(ea);
                if ea < eb - 1 {
                    lemma_pow2_strictly_increases(ea, (eb - 1) as nat);
                }
            }
        }
        assert(magnitude(a) < HIDDEN * top) by {
            if ea > 0 {
                lemma_pow2_pos((ea - 1) as nat);
                assert((HIDDEN + fa) * pow2((ea - 1) as nat) < HIDDEN * (2 * pow2((ea - 1) as nat)))
                    by (nonlinear_arith)
                    requires
                        fa < HIDDEN,
                        pow2((ea - 1) as nat) > 0,
                ;
            }
        }
        assert(HIDDEN * top <= (HIDDEN + fb) * low) by (nonlinear_arith)
            requires
                top <= low,
                fb >= 0,
        ;
    }
}

/// Patterns keep the order of the doubles they stand for: of two finite
/// doubles that are zero or positive, the smaller pattern is the smaller
/// magnitude, and equal magnitudes mean equal patterns.
pub proof fn lemma_magnitude_keeps_order(a: u64, b: u64)
    requires
        a < INFINITY,
        b < INFINITY,
    ensures
        a < b <==> magnitude(a) < magnitude(b),
        a == b <==> magnitude(a) == magnitude(b),
{
    if a < b {
        lemma_magnitude_increases(a, b);
    } else if b < a {
        lemma_magnitude_increases(b, a);
    }
}

/// The patterns `ONE` and `TWO` stand for the numbers one and two, and the
/// pattern zero for the number zero.
pub proof fn lemma_magnitude_of_constants()
    ensures
        magnitude(0) == 0,
        magnitude(ONE) == pow2(1074),
        magnitude(TWO) == 2 * pow2(1074),
{
    lemma2_to64();
    lemma2_to64_rest();
    lemma_pow2_adds(52, 1022);
    lemma_pow2_adds(52, 1023);
    lemma_pow2_unfold(1075);
}

/// Ranks keep the order of the distances they stand for. Of two finite
/// doubles that are zero or positive, the one of smaller magnitude has the
/// smaller rank; only zero ranks 0; `+infinity` ranks above every finite
/// double and below what is no distance.
pub proof fn lemma_rank_keeps_order(a: u64, b: u64)
    requires
        a < INFINITY,
        b < INFINITY,
    ensures
        rank_of(a) < rank_of(b) <==> magnitude(a) < magnitude(b),
        rank_of(a) == rank_of(b) <==> magnitude(a) == magnitude(b),
        rank_of(a) == 0 <==> magnitude(a) == 0,
        rank_of(a) < rank_of(INFINITY) < u128::MAX,
{
    lemma_magnitude_keeps_order(a, b);
    lemma_magnitude_keeps_order(a, 0);
}

} // verus!
