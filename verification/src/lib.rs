//! L-Mul: linear-complexity approximate multiplication of 32-bit floats.
//!
//! Multiplication is approximated by decomposing each operand into sign,
//! exponent and mantissa, XOR-ing the signs, adding the exponents, and adding
//! the mantissas (instead of multiplying them). The library works on the raw
//! 32-bit patterns of the floats; callers reinterpret floats as bits and back.
//!
//! Three execution strategies share the algorithm: a scalar reference kernel,
//! a batch kernel that processes fixed-width lanes with a scalar remainder,
//! and an accelerator backend whose dispatch bookkeeping is decided here while
//! the device calls themselves live outside the library.

use vstd::prelude::*;

pub mod accel;
pub mod batch;
pub mod float_bits;
pub mod scalar;

verus! {

/// Failures the kernels can report.
#[derive(Clone, Copy, Debug, PartialEq, Eq, Structural)]
pub enum LMulError {
    /// The two input arrays do not have the same length.
    ContractViolation,
    /// The accelerator backend could not be brought up (no device, missing
    /// kernel artifact, or pipeline compilation failure).
    InitializationFailure,
    /// A single accelerated call failed (buffer acquisition or submission).
    DispatchFailure,
}

} // verus!
