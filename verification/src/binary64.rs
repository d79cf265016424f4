//! Dyadic rationals as IEEE 754 binary64 bit patterns.
//!
//! The control path never computes with floating-point numbers. Where it has
//! to produce one (a controller value scaled into the unit interval), it
//! builds the bit pattern directly, and this module says which rational a bit
//! pattern stands for.

use vstd::prelude::*;
use vstd::arithmetic::power2::{pow2, lemma2_to64, lemma2_to64_rest, lemma_pow2_adds,
    lemma_pow2_pos, lemma_pow2_strictly_increases};

verus! {

/// The binary64 bit pattern of zero.
pub const ZERO: u64 = 0;

/// The binary64 bit pattern of one half.
pub const HALF: u64 = 0x3FE0_0000_0000_0000;

/// The binary64 bit pattern of one.
pub const ONE: u64 = 0x3FF0_0000_0000_0000;

/// The twelve bits above the fraction: the sign bit and the biased exponent.
pub open spec fn exponent_field(bits: u64) -> nat {
    (bits >> 52) as nat
}

/// The fraction bits with the implicit leading one put in front of them.
pub open spec fn significand(bits: u64) -> nat {
    (0x0010_0000_0000_0000u64 + (bits & 0x000F_FFFF_FFFF_FFFFu64)) as nat
}

/// `bits` is the binary64 encoding of `numerator / 2^shift`.
///
/// Zero is encoded by the all-zero pattern. A positive number is encoded by
/// a pattern whose sign bit is clear, whose exponent field `e` is that of a
/// normal number, and whose value `significand * 2^(e - 1075)` is the given
/// rational; the equation is written without division.
pub open spec fn encodes_dyadic(bits: u64, numerator: nat, shift: nat) -> bool {
    if numerator == 0 {
        bits == 0
    } else {
        &&& 0 < exponent_field(bits) < 2047
        &&& significand(bits) * pow2(exponent_field(bits) + shift) == numerator * pow2(1075)
    }
}

/// A significand with its leading one lies in `[2^52, 2^53)`.
proof fn lemma_significand_range(bits: u64)
    ensures
        0x0010_0000_0000_0000 <= significand(bits) < 0x0020_0000_0000_0000,
{
    assert(bits & 0x000F_FFFF_FFFF_FFFFu64 < 0x0010_0000_0000_0000u64) by (bit_vector);
}

/// With equal numbers on the right, a larger exponent on the left forces a
/// smaller significand; two significands in `[2^52, 2^53)` cannot differ by a
/// factor of two or more.
proof fn lemma_exponent_not_less(sa: nat, ea: nat, sb: nat, eb: nat)
    requires
        0x0010_0000_0000_0000 <= sa < 0x0020_0000_0000_0000,
        0x0010_0000_0000_0000 <= sb < 0x0020_0000_0000_0000,
        sa * pow2(ea) == sb * pow2(eb),
    ensures
        ea >= eb,
{
    if ea < eb {
        let gap = (eb - ea) as nat;
        lemma_pow2_adds(ea, gap);
        lemma_pow2_pos(ea);
        lemma_pow2_strictly_increases(0, gap);
        lemma2_to64();
        let p = pow2(ea);
        let d = pow2(gap);
        assert(sa == sb * d) by (nonlinear_arith)
            requires
                sa * p == sb * (p * d),
                p > 0,
        ;
        assert(sb * d >= sb * 2) by (nonlinear_arith)
            requires
                d >= 2,
        ;
    }
}

/// No number has two encodings: a rational fixes the bit pattern that
/// `encodes_dyadic` accepts for it.
pub proof fn lemma_encoding_unique(a: u64, b: u64, numerator: nat, shift: nat)
    requires
        encodes_dyadic(a, numerator, shift),
        encodes_dyadic(b, numerator, shift),
    ensures
        a == b,
{
    if numerator != 0 {
        let sa = significand(a);
        let sb = significand(b);
        let ea = exponent_field(a) + shift;
        let eb = exponent_field(b) + shift;
        lemma_significand_range(a);
        lemma_significand_range(b);
        lemma_exponent_not_less(sa, ea, sb, eb);
        lemma_exponent_not_less(sb, eb, sa, ea);
        lemma_pow2_pos(ea);
        let p = pow2(ea);
        assert(sa == sb) by (nonlinear_arith)
            requires
                sa * p == sb * p,
                p > 0,
        ;
        assert(a == b) by (bit_vector)
            requires
                a >> 52 == b >> 52,
                a & 0x000F_FFFF_FFFF_FFFFu64 == b & 0x000F_FFFF_FFFF_FFFFu64,
        ;
    }
}

/// The three constants stand for what their names say: zero, one half and
/// one.
pub proof fn lemma_constants_encode()
    ensures
        encodes_dyadic(ZERO, 0, 0),
        encodes_dyadic(HALF, 1, 1),
        encodes_dyadic(ONE, 1, 0),
{
    assert(HALF >> 52 == 1022 && HALF & 0x000F_FFFF_FFFF_FFFFu64 == 0) by (bit_vector);
    assert(ONE >> 52 == 1023 && ONE & 0x000F_FFFF_FFFF_FFFFu64 == 0) by (bit_vector);
    lemma2_to64_rest();
    lemma_pow2_adds(52, 1023);
}

} // verus!
