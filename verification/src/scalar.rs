//! Scalar L-Mul kernel: the reference implementation of the algorithm.
//!
//! One approximate product is formed from two float patterns by XOR-ing the
//! signs, adding the exponents, and adding the mantissas with the implicit-bit
//! scale subtracted once; a mantissa sum that reaches bit 24 is carried into
//! the next binade (mantissa halved, exponent incremented).

use crate::float_bits::{
    encode_float_parts, extract_float_parts, spec_biased_exponent, spec_encode, spec_exponent,
    spec_mantissa, spec_sign, wrap32,
};
use vstd::arithmetic::div_mod::lemma_small_mod;
use vstd::prelude::*;

verus! {

/// Integer sum of the two mantissas-with-implicit-bit, less one copy of the
/// implicit-bit scale 2^23. Always in [2^23, 3 * 2^23 - 2].
pub open spec fn spec_raw_mantissa_sum(a: u32, b: u32) -> int {
    spec_mantissa(a) + spec_mantissa(b) - 0x0080_0000
}

/// Whether the raw mantissa sum overflows into bit 24, carrying into the
/// next binade.
pub open spec fn spec_carry(a: u32, b: u32) -> bool {
    spec_raw_mantissa_sum(a, b) >= 0x0100_0000
}

/// Result mantissa: the raw sum, halved when it carried.
pub open spec fn spec_result_mantissa(a: u32, b: u32) -> int {
    if spec_carry(a, b) {
        spec_raw_mantissa_sum(a, b) / 2
    } else {
        spec_raw_mantissa_sum(a, b)
    }
}

/// Result exponent: the sum of the unbiased exponents, plus one on carry.
pub open spec fn spec_result_exponent(a: u32, b: u32) -> int {
    spec_exponent(a) + spec_exponent(b) + if spec_carry(a, b) {
        1int
    } else {
        0int
    }
}

/// Result sign: XOR of the input signs.
pub open spec fn spec_result_sign(a: u32, b: u32) -> u32 {
    spec_sign(a) ^ spec_sign(b)
}

/// The approximate product of two float patterns, as the scalar kernel
/// defines it: the encoding of (result sign, result exponent, result
/// mantissa). This is the semantic reference for every backend.
pub open spec fn spec_l_mul(a: u32, b: u32) -> u32 {
    spec_encode(spec_result_sign(a, b), spec_result_exponent(a, b), spec_result_mantissa(a, b) as u32)
}

/// Bounds of the result mantissa: it always keeps the implicit bit and stays
/// below 2^24, so it fits the encoder's 23-bit field together with bit 23.
pub proof fn lemma_result_mantissa_bounds(a: u32, b: u32)
    ensures
        0x0080_0000 <= spec_result_mantissa(a, b) < 0x0100_0000,
{
    assert(0x0080_0000 <= spec_mantissa(a) <= 0x00FF_FFFF) by (bit_vector);
    assert(0x0080_0000 <= spec_mantissa(b) <= 0x00FF_FFFF) by (bit_vector);
}

/// Determinism: the scalar kernel's output is a function of its inputs
/// alone, so any two results computed from the same pair of bit patterns are
/// the same bit pattern (`l_mul_scalar` ensures each equals `spec_l_mul`).
pub proof fn lemma_l_mul_deterministic(a: u32, b: u32, r1: u32, r2: u32)
    requires
        r1 == spec_l_mul(a, b),
        r2 == spec_l_mul(a, b),
    ensures
        r1 == r2,
{
}

/// The decoded fields of the scalar kernel's output, wherever the result's
/// rebiased exponent fits its eight-bit field: the sign bit is the XOR of
/// the input signs, the biased exponent field holds the result exponent, and
/// the mantissa (with implicit bit) is the result mantissa.
pub proof fn lemma_result_fields(a: u32, b: u32)
    requires
        0 <= spec_result_exponent(a, b) + 127 < 256,
    ensures
        spec_sign(spec_l_mul(a, b)) == spec_sign(a) ^ spec_sign(b),
        spec_biased_exponent(spec_l_mul(a, b)) == spec_result_exponent(a, b) + 127,
        spec_mantissa(spec_l_mul(a, b)) == spec_result_mantissa(a, b),
{
    lemma_result_mantissa_bounds(a, b);
    let eu: u32 = (spec_result_exponent(a, b) + 127) as u32;
    let mu: u32 = spec_result_mantissa(a, b) as u32;
    let s: u32 = spec_result_sign(a, b);
    assert((a >> 31u32) ^ (b >> 31u32) <= 1u32) by (bit_vector);
    assert(0 <= eu * 0x0080_0000 < 0x1_0000_0000);
    lemma_small_mod((eu * 0x0080_0000) as nat, 0x1_0000_0000nat);
    let ef: u32 = wrap32((spec_result_exponent(a, b) + 127) * 0x0080_0000);
    assert(ef == eu * 0x0080_0000);
    let bits: u32 = ((s & 1) << 31u32) | ef | (mu & 0x007F_FFFFu32);
    assert(bits >> 31u32 == s && (bits >> 23u32) & 0xFFu32 == eu && ((bits & 0x007F_FFFFu32)
        | 0x0080_0000u32) == mu) by (bit_vector)
        requires
            bits == ((s & 1u32) << 31u32) | ef | (mu & 0x007F_FFFFu32),
            ef == eu * 0x0080_0000u32,
            eu < 256u32,
            s <= 1u32,
            0x0080_0000u32 <= mu < 0x0100_0000u32,
    ;
}

/// Sign law: the output's sign bit is the XOR of the input sign bits,
/// wherever the result's rebiased exponent fits its eight-bit field (outside
/// that range the wrapped exponent field reaches bit 31 and the law fails).
pub proof fn lemma_sign_property(a: u32, b: u32)
    requires
        0 <= spec_result_exponent(a, b) + 127 < 256,
    ensures
        spec_sign(spec_l_mul(a, b)) == spec_sign(a) ^ spec_sign(b),
{
    lemma_result_fields(a, b);
}

/// Exponent-carry law, read off the output's decoded fields: when the raw
/// mantissa sum reaches 2^24 the result exponent is the exponent sum plus
/// one and the result mantissa is the raw sum halved; otherwise the exponent
/// is the plain sum and the mantissa is unshifted. Stated wherever the
/// result's rebiased exponent fits its eight-bit field.
pub proof fn lemma_exponent_carry(a: u32, b: u32)
    requires
        0 <= spec_result_exponent(a, b) + 127 < 256,
    ensures
        spec_carry(a, b) ==> spec_exponent(spec_l_mul(a, b)) == spec_exponent(a) + spec_exponent(b)
            + 1 && spec_mantissa(spec_l_mul(a, b)) == spec_raw_mantissa_sum(a, b) / 2,
        !spec_carry(a, b) ==> spec_exponent(spec_l_mul(a, b)) == spec_exponent(a) + spec_exponent(
            b,
        ) && spec_mantissa(spec_l_mul(a, b)) == spec_raw_mantissa_sum(a, b),
{
    lemma_result_fields(a, b);
}

/// Scalar L-Mul on two float patterns. Deterministic, side-effect-free and
/// total: the result is exactly `spec_l_mul(a, b)`.
pub fn l_mul_scalar(a: u32, b: u32) -> (r: u32)
    ensures
        r == spec_l_mul(a, b),
{
    let parts_a = extract_float_parts(a);
    let parts_b = extract_float_parts(b);
    let result_sign: u32 = parts_a.0 ^ parts_b.0;
    let mut man_result: u32 = parts_a.2 + parts_b.2 - 0x0080_0000;
    let mut exp_result: i32 = parts_a.1 + parts_b.1;
    proof {
        assert(man_result & 0x0100_0000u32 != 0 <==> man_result >= 0x0100_0000u32)
            by (bit_vector)
            requires
                man_result < 0x0180_0000u32,
        ;
        assert(man_result >> 1u32 == man_result / 2u32) by (bit_vector);
    }
    if man_result & 0x0100_0000 != 0 {
        man_result = man_result >> 1;
        exp_result = exp_result + 1;
    }
    proof {
        lemma_result_mantissa_bounds(a, b);
        assert(man_result == spec_result_mantissa(a, b));
        assert(exp_result as int == spec_result_exponent(a, b));
    }
    encode_float_parts(result_sign, exp_result, man_result)
}

} // verus!
