//! Batch L-Mul kernel: fixed-width lanes with a scalar remainder.
//!
//! The lane path works on whole 32-bit patterns: it XORs the sign bits, adds
//! the sign-cleared patterns as integers and subtracts the bias constant
//! 0x3F80_0000, so exponent fields add and a fraction overflow carries into
//! the exponent field on its own. Unlike the scalar kernel it applies no
//! explicit per-element overflow-carry correction, so at mantissa-overflow
//! elements its output legitimately differs from the scalar kernel; the two
//! agree bit-for-bit on every element without a carry
//! (`lemma_batch_agrees_with_scalar`). Trailing elements past the last full
//! lane go through the scalar kernel unchanged.

use crate::float_bits::{spec_encode, wrap32};
use crate::scalar::{
    l_mul_scalar, spec_carry, spec_l_mul, spec_raw_mantissa_sum, spec_result_exponent,
    spec_result_mantissa, spec_result_sign,
};
use crate::LMulError;
use vstd::arithmetic::div_mod::{
    lemma_fundamental_div_mod, lemma_mod_multiples_vanish, lemma_small_mod,
};
use vstd::prelude::*;

verus! {

/// Number of elements a lane holds (four 32-bit floats, one 128-bit lane).
pub open spec fn spec_lane_width() -> int {
    4
}

/// First index of the remainder region: the largest multiple of the lane
/// width that is at most `n`.
pub open spec fn spec_lane_bound(n: int) -> int {
    n - (n % spec_lane_width())
}

/// The batch kernel's per-element result: XOR of the sign bits, OR-ed onto
/// the 32-bit wrap of (sign-cleared `a`) + (sign-cleared `b`) - 0x3F80_0000.
pub open spec fn spec_batch_l_mul(a: u32, b: u32) -> u32 {
    ((a ^ b) & 0x8000_0000u32) | wrap32(
        (a & 0x7FFF_FFFFu32) + (b & 0x7FFF_FFFFu32) - 0x3F80_0000,
    )
}

/// One element of the lane path.
pub fn l_mul_batch_element(a: u32, b: u32) -> (r: u32)
    ensures
        r == spec_batch_l_mul(a, b),
{
    let mag_a: u32 = a & 0x7FFF_FFFF;
    let mag_b: u32 = b & 0x7FFF_FFFF;
    let sum: u64 = mag_a as u64 + mag_b as u64 + (0x1_0000_0000 - 0x3F80_0000);
    let low: u64 = sum % 0x1_0000_0000;
    proof {
        let x: int = mag_a + mag_b - 0x3F80_0000;
        lemma_mod_multiples_vanish(1, x, 0x1_0000_0000);
        assert(low as int == x % 0x1_0000_0000);
    }
    ((a ^ b) & 0x8000_0000) | (low as u32)
}

/// `spec_encode` with the exponent field and the masked mantissa folded into
/// a single 32-bit wrap: the exponent field is a multiple of 2^23 modulo
/// 2^32, so OR-ing the 23-bit mantissa below it is the same as adding it
/// before wrapping.
pub proof fn lemma_encode_single_wrap(sign: u32, e: int, m: u32)
    ensures
        spec_encode(sign, e, m) == ((sign & 1) << 31u32) | wrap32(
            (e + 127) * 0x0080_0000 + (m & 0x007F_FFFFu32),
        ),
{
    let x: int = e + 127;
    let q: int = x / 512;
    let y: int = x % 512;
    let f: u32 = m & 0x007F_FFFFu32;
    lemma_fundamental_div_mod(x, 512);
    assert(x * 0x0080_0000 == q * 0x1_0000_0000 + y * 0x0080_0000) by (nonlinear_arith)
        requires
            x == 512 * q + y,
    ;
    assert(m & 0x007F_FFFFu32 < 0x0080_0000u32) by (bit_vector);
    lemma_mod_multiples_vanish(q, y * 0x0080_0000, 0x1_0000_0000);
    lemma_small_mod((y * 0x0080_0000) as nat, 0x1_0000_0000nat);
    assert(wrap32(x * 0x0080_0000) == y * 0x0080_0000);
    lemma_mod_multiples_vanish(q, y * 0x0080_0000 + f, 0x1_0000_0000);
    lemma_small_mod((y * 0x0080_0000 + f) as nat, 0x1_0000_0000nat);
    assert(wrap32(x * 0x0080_0000 + f) == y * 0x0080_0000 + f);
    let w: u32 = wrap32(x * 0x0080_0000);
    let v: u32 = wrap32(x * 0x0080_0000 + f);
    assert(w | f == v) by (bit_vector)
        requires
            w % 0x0080_0000u32 == 0u32,
            f < 0x0080_0000u32,
            v == w + f,
    ;
    let s: u32 = (sign & 1) << 31u32;
    assert((s | w) | f == s | v) by (bit_vector)
        requires
            v == w | f,
    ;
}

/// Cross-path agreement: on any element whose mantissa sum does not carry,
/// the batch kernel's output is bit-identical to the scalar kernel's.
pub proof fn lemma_batch_agrees_with_scalar(a: u32, b: u32)
    requires
        !spec_carry(a, b),
    ensures
        spec_batch_l_mul(a, b) == spec_l_mul(a, b),
{
    assert(a & 0x7FFF_FFFFu32 == ((a >> 23u32) & 0xFFu32) * 0x0080_0000u32 + (a
        & 0x007F_FFFFu32)) by (bit_vector);
    assert(b & 0x7FFF_FFFFu32 == ((b >> 23u32) & 0xFFu32) * 0x0080_0000u32 + (b
        & 0x007F_FFFFu32)) by (bit_vector);
    assert((a & 0x007F_FFFFu32) | 0x0080_0000u32 == (a & 0x007F_FFFFu32) + 0x0080_0000u32)
        by (bit_vector);
    assert((b & 0x007F_FFFFu32) | 0x0080_0000u32 == (b & 0x007F_FFFFu32) + 0x0080_0000u32)
        by (bit_vector);
    assert((a ^ b) & 0x8000_0000u32 == ((((a >> 31u32) ^ (b >> 31u32)) & 1u32) << 31u32))
        by (bit_vector);
    let m2: int = spec_raw_mantissa_sum(a, b);
    assert(m2 == (a & 0x007F_FFFFu32) + (b & 0x007F_FFFFu32) + 0x0080_0000);
    assert(spec_result_mantissa(a, b) == m2);
    let mu: u32 = m2 as u32;
    assert(mu & 0x007F_FFFFu32 == (a & 0x007F_FFFFu32) + (b & 0x007F_FFFFu32)) by (bit_vector)
        requires
            mu == (a & 0x007F_FFFFu32) + (b & 0x007F_FFFFu32) + 0x0080_0000u32,
            (a & 0x007F_FFFFu32) + (b & 0x007F_FFFFu32) < 0x0080_0000u32,
    ;
    lemma_encode_single_wrap(spec_result_sign(a, b), spec_result_exponent(a, b), mu);
    assert((spec_result_exponent(a, b) + 127) * 0x0080_0000 + (mu & 0x007F_FFFFu32) == (a
        & 0x7FFF_FFFFu32) + (b & 0x7FFF_FFFFu32) - 0x3F80_0000);
}

/// Cross-backend agreement, lifted to whole arrays: where no element
/// carries, every lane-path element equals the scalar kernel's output.
pub proof fn lemma_cross_backend_agreement(a: Seq<u32>, b: Seq<u32>)
    requires
        a.len() == b.len(),
        forall|i: int| 0 <= i < a.len() ==> !spec_carry(a[i], b[i]),
    ensures
        forall|i: int|
            0 <= i < a.len() ==> #[trigger] spec_batch_l_mul(a[i], b[i]) == spec_l_mul(a[i], b[i]),
{
    assert forall|i: int|
        0 <= i < a.len() implies #[trigger] spec_batch_l_mul(a[i], b[i]) == spec_l_mul(
        a[i],
        b[i],
    ) by {
        lemma_batch_agrees_with_scalar(a[i], b[i]);
    }
}

/// Batch L-Mul over two arrays of float patterns. Full lanes of four go
/// through the lane path; the trailing remainder goes through the scalar
/// kernel element by element. Fails exactly when the lengths differ, and
/// then returns no partial result.
pub fn simd_l_mul_arrays(a: &Vec<u32>, b: &Vec<u32>) -> (r: Result<Vec<u32>, LMulError>)
    ensures
        match r {
            Ok(c) => {
                &&& a.len() == b.len()
                &&& c.len() == a.len()
                &&& forall|i: int|
                    0 <= i < spec_lane_bound(a@.len() as int) ==> c@[i] == spec_batch_l_mul(
                        a@[i],
                        b@[i],
                    )
                &&& forall|i: int|
                    spec_lane_bound(a@.len() as int) <= i < a@.len() ==> c@[i] == spec_l_mul(
                        a@[i],
                        b@[i],
                    )
            },
            Err(e) => a.len() != b.len() && e == LMulError::ContractViolation,
        },
{
    if a.len() != b.len() {
        return Err(LMulError::ContractViolation);
    }
    let n: usize = a.len();
    let lane_bound: usize = n - (n % 4);
    proof {
        lemma_fundamental_div_mod(n as int, 4);
    }
    let mut c: Vec<u32> = Vec::new();
    let mut i: usize = 0;
    while i < lane_bound
        invariant
            a.len() == n,
            b.len() == n,
            lane_bound == spec_lane_bound(n as int),
            lane_bound <= n,
            i % 4 == 0,
            lane_bound % 4 == 0,
            i <= lane_bound,
            c.len() == i,
            forall|j: int| 0 <= j < i ==> c@[j] == spec_batch_l_mul(a@[j], b@[j]),
        decreases lane_bound - i,
    {
        proof {
            lemma_fundamental_div_mod(i as int, 4);
            lemma_fundamental_div_mod(lane_bound as int, 4);
            assert(i + 4 <= lane_bound) by (nonlinear_arith)
                requires
                    i < lane_bound,
                    i % 4 == 0,
                    lane_bound % 4 == 0,
                    i == 4 * (i as int / 4) + i % 4,
                    lane_bound == 4 * (lane_bound as int / 4) + lane_bound % 4,
            ;
        }
        c.push(l_mul_batch_element(a[i], b[i]));
        c.push(l_mul_batch_element(a[i + 1], b[i + 1]));
        c.push(l_mul_batch_element(a[i + 2], b[i + 2]));
        c.push(l_mul_batch_element(a[i + 3], b[i + 3]));
        i = i + 4;
    }
    while i < n
        invariant
            a.len() == n,
            b.len() == n,
            lane_bound == spec_lane_bound(n as int),
            lane_bound <= i <= n,
            c.len() == i,
            forall|j: int| 0 <= j < lane_bound ==> c@[j] == spec_batch_l_mul(a@[j], b@[j]),
            forall|j: int| lane_bound <= j < i ==> c@[j] == spec_l_mul(a@[j], b@[j]),
        decreases n - i,
    {
        c.push(l_mul_scalar(a[i], b[i]));
        i = i + 1;
    }
    Ok(c)
}

} // verus!
