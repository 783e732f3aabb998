use lmul::accel::{
    buffer_byte_length, classify_dispatch, plan_accelerated_call, plan_dispatch, resolve_artifact,
    AccelLifecycle, AccelPhase, ArtifactLocation, DispatchPlan,
};
use lmul::batch::{l_mul_batch_element, simd_l_mul_arrays};
use lmul::float_bits::{encode_float_parts, extract_float_parts};
use lmul::scalar::l_mul_scalar;
use lmul::LMulError;

fn lmul_f32(a: f32, b: f32) -> f32 {
    f32::from_bits(l_mul_scalar(a.to_bits(), b.to_bits()))
}

fn bits_of(v: &[f32]) -> Vec<u32> {
    v.iter().map(|x| x.to_bits()).collect()
}

fn floats_of(v: &[u32]) -> Vec<f32> {
    v.iter().map(|x| f32::from_bits(*x)).collect()
}

#[test]
fn decode_fields_of_one_point_five() {
    let (sign, exponent, mantissa) = extract_float_parts(1.5f32.to_bits());
    assert_eq!(sign, 0);
    assert_eq!(exponent, 0);
    assert_eq!(mantissa, 0x00C0_0000);
}

#[test]
fn decode_fields_of_negative_two() {
    let (sign, exponent, mantissa) = extract_float_parts((-2.0f32).to_bits());
    assert_eq!(sign, 1);
    assert_eq!(exponent, 1);
    assert_eq!(mantissa, 0x0080_0000);
}

#[test]
fn encode_reverses_decode_exactly() {
    for v in [1.0f32, -1.0, 0.5, 3.25, -1234.5678, 1.0e30, -1.0e-30] {
        let bits = v.to_bits();
        let (sign, exponent, mantissa) = extract_float_parts(bits);
        assert_eq!(encode_float_parts(sign, exponent, mantissa), bits);
    }
}

#[test]
fn scalar_is_deterministic() {
    for (a, b) in [(1.0f32, 1.0f32), (1.75, 1.75), (-3.0, 0.37), (1.0e20, 1.0e-20)] {
        let first = l_mul_scalar(a.to_bits(), b.to_bits());
        let second = l_mul_scalar(a.to_bits(), b.to_bits());
        assert_eq!(first, second);
    }
}

#[test]
fn sign_is_xor_of_input_signs() {
    assert!(lmul_f32(2.0, 3.0) > 0.0);
    assert!(lmul_f32(-2.0, 3.0) < 0.0);
    assert!(lmul_f32(2.0, -3.0) < 0.0);
    assert!(lmul_f32(-2.0, -3.0) > 0.0);
}

#[test]
fn no_carry_case_exact_result() {
    // 1.5 * 2.0: mantissa sum stays under 2^24, exponents add plainly.
    assert_eq!(lmul_f32(1.5, 2.0).to_bits(), 3.0f32.to_bits());
    // Powers of two multiply exactly.
    assert_eq!(lmul_f32(0.5, 4.0).to_bits(), 2.0f32.to_bits());
    assert_eq!(lmul_f32(-2.0, 3.0).to_bits(), (-6.0f32).to_bits());
}

#[test]
fn carry_case_shifts_mantissa_and_bumps_exponent() {
    // 1.75 * 1.75: raw mantissa sum 0x140_0000 reaches bit 24, so the
    // mantissa halves to 0xA0_0000 and the exponent becomes 0 + 0 + 1:
    // the result is 1.25 * 2^1 = 2.5 (true product 3.0625).
    assert_eq!(lmul_f32(1.75, 1.75).to_bits(), 2.5f32.to_bits());
}

#[test]
fn batch_element_diverges_from_scalar_exactly_at_carry() {
    let a = 1.75f32.to_bits();
    // The lane path skips the carry correction: fraction overflow runs into
    // the exponent field on its own, giving 3.0 where the scalar kernel
    // gives 2.5.
    assert_eq!(f32::from_bits(l_mul_batch_element(a, a)), 3.0);
    assert_eq!(f32::from_bits(l_mul_scalar(a, a)), 2.5);
}

#[test]
fn paths_coincide_at_the_exact_overflow_boundary() {
    // 1.5 * 1.5: the fraction sum is exactly 2^23, so the scalar kernel
    // carries (mantissa 2^23, exponent +1) and the lane path's fraction
    // overflow carries into the exponent field with a zero mantissa: both
    // give 2.0 (true product 2.25).
    let a = 1.5f32.to_bits();
    assert_eq!(f32::from_bits(l_mul_scalar(a, a)), 2.0);
    assert_eq!(l_mul_batch_element(a, a), l_mul_scalar(a, a));
}

#[test]
fn batch_element_matches_scalar_without_carry() {
    for (a, b) in [(1.0f32, 1.0f32), (1.5, 2.0), (-2.0, 3.0), (0.5, 4.0), (1.0e10, 2.0e-5)] {
        assert_eq!(
            l_mul_batch_element(a.to_bits(), b.to_bits()),
            l_mul_scalar(a.to_bits(), b.to_bits())
        );
    }
}

#[test]
fn golden_five_element_vector() {
    let a = bits_of(&[1.0, 2.0, 1.5, -3.0, 0.5]);
    let b = bits_of(&[1.0, 1.0, 2.0, 1.0, 4.0]);
    let c = simd_l_mul_arrays(&a, &b).unwrap();
    assert_eq!(floats_of(&c), vec![1.0, 2.0, 3.0, -3.0, 2.0]);
    // Expected values computed by the carry rule match the scalar kernel
    // element by element here (no element carries).
    for i in 0..5 {
        assert_eq!(c[i], l_mul_scalar(a[i], b[i]));
    }
}

#[test]
fn remainder_region_is_bit_identical_to_scalar() {
    // Length 5: indices 0..4 are the lane region, index 4 the remainder.
    // The remainder element is a carry pair, which the lane path would map
    // differently, so this checks the remainder truly went through the
    // scalar kernel.
    let a = bits_of(&[1.0, 1.0, 1.0, 1.0, 1.75]);
    let b = bits_of(&[1.0, 1.0, 1.0, 1.0, 1.75]);
    let c = simd_l_mul_arrays(&a, &b).unwrap();
    assert_eq!(c[4], l_mul_scalar(a[4], b[4]));
    assert_eq!(f32::from_bits(c[4]), 2.5);
}

#[test]
fn lane_region_uses_the_batch_path() {
    let a = bits_of(&[1.75, 1.75, 1.75, 1.75]);
    let b = a.clone();
    let c = simd_l_mul_arrays(&a, &b).unwrap();
    for i in 0..4 {
        assert_eq!(c[i], l_mul_batch_element(a[i], b[i]));
        assert_eq!(f32::from_bits(c[i]), 3.0);
    }
}

#[test]
fn carry_free_multiple_of_lane_width_agrees_with_scalar() {
    let a = bits_of(&[1.0, 2.0, 1.5, -3.0, 0.5, 8.0, -0.25, 1.125]);
    let b = bits_of(&[1.0, 1.0, 2.0, 1.0, 4.0, 0.5, -2.0, 1.5]);
    let c = simd_l_mul_arrays(&a, &b).unwrap();
    assert_eq!(c.len(), a.len());
    for i in 0..a.len() {
        assert_eq!(c[i], l_mul_scalar(a[i], b[i]));
    }
}

#[test]
fn empty_arrays_give_empty_output() {
    let c = simd_l_mul_arrays(&Vec::new(), &Vec::new()).unwrap();
    assert!(c.is_empty());
}

#[test]
fn length_mismatch_is_a_contract_violation() {
    let a = bits_of(&[1.0, 2.0]);
    let b = bits_of(&[1.0, 2.0, 3.0]);
    assert_eq!(simd_l_mul_arrays(&a, &b), Err(LMulError::ContractViolation));
    assert_eq!(
        plan_accelerated_call(2, 3, 32, 1024),
        Err(LMulError::ContractViolation)
    );
}

#[test]
fn dispatch_plan_covers_all_elements() {
    let p = plan_dispatch(1000, 32, 1024);
    assert_eq!(p, DispatchPlan { threads_per_group: 32, group_count: 32 });
    let p = plan_dispatch(1024, 32, 1024);
    assert_eq!(p, DispatchPlan { threads_per_group: 32, group_count: 32 });
    let p = plan_dispatch(1, 64, 48);
    assert_eq!(p, DispatchPlan { threads_per_group: 48, group_count: 1 });
    let p = plan_dispatch(0, 32, 1024);
    assert_eq!(p.group_count, 0);
}

#[test]
fn accelerated_plan_on_equal_lengths() {
    let p = plan_accelerated_call(100, 100, 32, 1024).unwrap();
    assert_eq!(p, DispatchPlan { threads_per_group: 32, group_count: 4 });
}

#[test]
fn buffer_byte_length_counts_four_bytes_per_float() {
    assert_eq!(buffer_byte_length(5), 20);
    assert_eq!(buffer_byte_length(0), 0);
}

#[test]
fn artifact_search_order() {
    assert_eq!(resolve_artifact(true, true), Ok(ArtifactLocation::ExecutableDir));
    assert_eq!(resolve_artifact(true, false), Ok(ArtifactLocation::ExecutableDir));
    assert_eq!(resolve_artifact(false, true), Ok(ArtifactLocation::DevelopmentDir));
    assert_eq!(
        resolve_artifact(false, false),
        Err(LMulError::InitializationFailure)
    );
}

#[test]
fn dispatch_failures_are_per_call() {
    assert_eq!(classify_dispatch(true, true), Ok(()));
    assert_eq!(classify_dispatch(false, true), Err(LMulError::DispatchFailure));
    assert_eq!(classify_dispatch(true, false), Err(LMulError::DispatchFailure));
    assert_eq!(classify_dispatch(false, false), Err(LMulError::DispatchFailure));
}

#[test]
fn setup_happens_exactly_once() {
    let mut lc = AccelLifecycle::new();
    assert_eq!(lc.phase, AccelPhase::Uninitialized);
    assert_eq!(lc.init_count, 0);
    for _ in 0..10 {
        lc.on_call(true);
        assert_eq!(lc.phase, AccelPhase::Ready);
        assert_eq!(lc.init_count, 1);
    }
}

#[test]
fn failed_setup_is_fatal_and_never_retried() {
    let mut lc = AccelLifecycle::new();
    lc.on_call(false);
    assert_eq!(lc.phase, AccelPhase::Fatal);
    assert_eq!(lc.init_count, 1);
    lc.on_call(true);
    assert_eq!(lc.phase, AccelPhase::Fatal);
    assert_eq!(lc.init_count, 1);
}
