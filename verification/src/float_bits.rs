//! Bit-level decomposition of 32-bit float patterns.
//!
//! A float is handled through its 32-bit pattern: sign in bit 31, biased
//! exponent in bits 30..=23, fraction in bits 22..=0. The mantissa used by the
//! kernels is the fraction with the implicit leading one (bit 23) reinstated.

use vstd::arithmetic::div_mod::{
    lemma_mod_multiples_vanish, lemma_mul_mod_noop_left, lemma_small_mod,
};
use vstd::prelude::*;

verus! {

/// Sign bit of a float pattern: 0 or 1.
pub open spec fn spec_sign(bits: u32) -> u32 {
    bits >> 31u32
}

/// Biased exponent field (bits 30..=23), in 0..=255.
pub open spec fn spec_biased_exponent(bits: u32) -> u32 {
    (bits >> 23u32) & 0xFFu32
}

/// Unbiased exponent: the biased field minus 127.
pub open spec fn spec_exponent(bits: u32) -> int {
    spec_biased_exponent(bits) - 127
}

/// Stored fraction field (bits 22..=0).
pub open spec fn spec_fraction(bits: u32) -> u32 {
    bits & 0x007F_FFFFu32
}

/// Mantissa with the implicit leading one reinstated: fraction | 2^23.
pub open spec fn spec_mantissa(bits: u32) -> u32 {
    spec_fraction(bits) | 0x0080_0000u32
}

/// An integer reduced to 32 bits (the value modulo 2^32).
pub open spec fn wrap32(x: int) -> u32 {
    (x % 0x1_0000_0000) as u32
}

/// Assembly of a float pattern from parts: the sign goes to bit 31, the
/// exponent is rebiased by +127 and placed (with 32-bit wrapping, as the bit
/// assembly does) at bits 30..=23, and the mantissa is masked to its low 23
/// bits. Total over all inputs.
pub open spec fn spec_encode(sign: u32, exponent: int, mantissa: u32) -> u32 {
    ((sign & 1) << 31u32) | wrap32((exponent + 127) * 0x0080_0000) | (mantissa & 0x007F_FFFF)
}

/// Extracts (sign, unbiased exponent, mantissa-with-implicit-bit) from a
/// 32-bit float pattern. Total over all patterns, including the patterns of
/// denormals, infinities and NaNs.
pub fn extract_float_parts(bits: u32) -> (r: (u32, i32, u32))
    ensures
        r.0 == spec_sign(bits),
        r.0 <= 1,
        r.1 == spec_exponent(bits),
        -127 <= r.1 <= 128,
        r.2 == spec_mantissa(bits),
        0x0080_0000 <= r.2 <= 0x00FF_FFFF,
{
    let sign: u32 = bits >> 31;
    let biased: u32 = (bits >> 23) & 0xFF;
    let fraction: u32 = bits & 0x007F_FFFF;
    proof {
        assert(bits >> 31u32 <= 1u32) by (bit_vector);
        assert((bits >> 23u32) & 0xFFu32 <= 255u32) by (bit_vector);
        assert(bits & 0x007F_FFFFu32 <= 0x007F_FFFFu32) by (bit_vector);
        assert((bits & 0x007F_FFFFu32) | 0x0080_0000u32 == (bits & 0x007F_FFFFu32)
            + 0x0080_0000u32) by (bit_vector);
    }
    let exponent: i32 = biased as i32 - 127;
    let mantissa: u32 = fraction | 0x0080_0000;
    (sign, exponent, mantissa)
}

/// Assembles a float pattern from (sign, unbiased exponent, mantissa),
/// following `spec_encode`. Total over all inputs.
pub fn encode_float_parts(sign: u32, exponent: i32, mantissa: u32) -> (r: u32)
    ensures
        r == spec_encode(sign, exponent as int, mantissa),
{
    let biased: i64 = exponent as i64 + 127;
    let shifted: u64 = ((biased + 0x1_0000_0000) as u64) % 0x1_0000_0000;
    let efield64: u64 = (shifted * 0x0080_0000) % 0x1_0000_0000;
    let efield: u32 = efield64 as u32;
    proof {
        let m: int = 0x1_0000_0000;
        let bi: int = exponent as int + 127;
        lemma_mod_multiples_vanish(1, bi, m);
        assert(shifted as int == bi % m);
        lemma_mul_mod_noop_left(bi, 0x0080_0000, m);
        assert(efield64 as int == (bi * 0x0080_0000) % m);
        assert(efield == wrap32((exponent as int + 127) * 0x0080_0000));
    }
    ((sign & 1) << 31) | efield | (mantissa & 0x007F_FFFF)
}

/// Invariant of the decomposition: re-encoding the decoded parts of any
/// 32-bit pattern reproduces that pattern exactly.
pub proof fn lemma_decode_encode_roundtrip(bits: u32)
    ensures
        spec_encode(spec_sign(bits), spec_exponent(bits), spec_mantissa(bits)) == bits,
{
    let b: u32 = spec_biased_exponent(bits);
    assert((bits >> 23u32) & 0xFFu32 <= 255u32) by (bit_vector);
    assert(spec_exponent(bits) + 127 == b);
    assert(0 <= b * 0x0080_0000 < 0x1_0000_0000);
    lemma_small_mod((b * 0x0080_0000) as nat, 0x1_0000_0000nat);
    let ef: u32 = wrap32(b * 0x0080_0000);
    assert(ef == b * 0x0080_0000);
    assert(((bits >> 31u32) & 1u32) << 31u32 | ef | (((bits & 0x007F_FFFFu32) | 0x0080_0000u32)
        & 0x007F_FFFFu32) == bits) by (bit_vector)
        requires
            ef == ((bits >> 23u32) & 0xFFu32) * 0x0080_0000u32,
    ;
}

} // verus!
