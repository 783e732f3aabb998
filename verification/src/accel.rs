//! Accelerator backend bookkeeping: everything the accelerated path decides
//! on the host side, kept apart from the device calls themselves.
//!
//! The device work (buffer upload, pipeline dispatch, synchronization) runs
//! outside the library; what is decided here is the execution grid sizing,
//! the artifact search order, the per-call failure classification, and the
//! once-only construction lifecycle of the process-wide accelerator state.

use crate::LMulError;
use vstd::arithmetic::div_mod::lemma_fundamental_div_mod;
use vstd::prelude::*;

verus! {

/// One-dimensional execution grid for one accelerated call.
#[derive(Clone, Copy, Debug, PartialEq, Eq, Structural)]
pub struct DispatchPlan {
    /// Threads per threadgroup: the smaller of the pipeline's preferred
    /// execution width and its maximum threads per threadgroup.
    pub threads_per_group: u64,
    /// Number of threadgroups: the least count whose total thread coverage
    /// reaches every element, including a partial final group.
    pub group_count: u64,
}

/// Sizes the execution grid for `len` elements. The grid covers all
/// elements (`group_count * threads_per_group >= len`) with no spare group
/// (`(group_count - 1) * threads_per_group < len`); out-of-range thread
/// invocations are masked by the dispatch primitive itself.
pub fn plan_dispatch(len: usize, thread_execution_width: u64, max_threads_per_group: u64) -> (p:
    DispatchPlan)
    requires
        1 <= thread_execution_width,
        1 <= max_threads_per_group,
    ensures
        p.threads_per_group == if thread_execution_width <= max_threads_per_group {
            thread_execution_width
        } else {
            max_threads_per_group
        },
        1 <= p.threads_per_group,
        len as int <= p.group_count * p.threads_per_group,
        len > 0 ==> (p.group_count - 1) * p.threads_per_group < len as int,
        len == 0 ==> p.group_count == 0,
{
    let tpg: u64 = if thread_execution_width <= max_threads_per_group {
        thread_execution_width
    } else {
        max_threads_per_group
    };
    let l: u64 = len as u64;
    let q: u64 = l / tpg;
    let r: u64 = l % tpg;
    proof {
        lemma_fundamental_div_mod(l as int, tpg as int);
        if r != 0 {
            assert(tpg >= 2);
            assert(q < 0x8000_0000_0000_0000) by (nonlinear_arith)
                requires
                    tpg >= 2,
                    q >= 0,
                    r >= 0,
                    l as int == tpg * q + r,
                    l <= 0xFFFF_FFFF_FFFF_FFFFu64,
            ;
        }
    }
    let gc: u64 = if r == 0 {
        q
    } else {
        q + 1
    };
    proof {
        assert(l as int <= gc * tpg && (l > 0 ==> (gc - 1) * tpg < l as int) && (l == 0 ==> gc
            == 0)) by (nonlinear_arith)
            requires
                l as int == tpg * q + r,
                0 <= r < tpg,
                1 <= tpg,
                gc == if r == 0 { q as int } else { q + 1 },
        ;
    }
    DispatchPlan { threads_per_group: tpg, group_count: gc }
}

/// Byte length of one device-visible buffer holding `len` 32-bit floats.
pub fn buffer_byte_length(len: usize) -> (n: u64)
    requires
        len * 4 <= u64::MAX,
    ensures
        n == len * 4,
{
    (len as u64) * 4
}

/// Where the compiled device-kernel artifact was found.
#[derive(Clone, Copy, Debug, PartialEq, Eq, Structural)]
pub enum ArtifactLocation {
    /// In the directory that holds the running executable.
    ExecutableDir,
    /// One directory up, in the development layout's package directory.
    DevelopmentDir,
}

/// Decides where the device-kernel artifact is, given whether each of the
/// two documented candidates exists, in search order: the executable's
/// directory first, then the development fallback one directory up. When
/// neither exists, construction cannot proceed.
pub fn resolve_artifact(primary_exists: bool, fallback_exists: bool) -> (r: Result<
    ArtifactLocation,
    LMulError,
>)
    ensures
        primary_exists ==> r == Ok::<ArtifactLocation, LMulError>(ArtifactLocation::ExecutableDir),
        !primary_exists && fallback_exists ==> r == Ok::<ArtifactLocation, LMulError>(
            ArtifactLocation::DevelopmentDir,
        ),
        !primary_exists && !fallback_exists ==> r == Err::<ArtifactLocation, LMulError>(
            LMulError::InitializationFailure,
        ),
{
    if primary_exists {
        Ok(ArtifactLocation::ExecutableDir)
    } else if fallback_exists {
        Ok(ArtifactLocation::DevelopmentDir)
    } else {
        Err(LMulError::InitializationFailure)
    }
}

/// Classifies one accelerated call from what the device reported: the call
/// succeeds exactly when every transient buffer was acquired and the
/// submitted commands completed; otherwise it fails with DispatchFailure,
/// never with a partial result.
pub fn classify_dispatch(buffers_acquired: bool, submission_completed: bool) -> (r: Result<
    (),
    LMulError,
>)
    ensures
        r == Ok::<(), LMulError>(()) <==> buffers_acquired && submission_completed,
        !(buffers_acquired && submission_completed) ==> r == Err::<(), LMulError>(
            LMulError::DispatchFailure,
        ),
{
    if buffers_acquired && submission_completed {
        Ok(())
    } else {
        Err(LMulError::DispatchFailure)
    }
}

/// Validates and sizes one accelerated array call: the two lengths must be
/// equal (ContractViolation otherwise, and no partial result), and the
/// returned grid covers every element.
pub fn plan_accelerated_call(
    a_len: usize,
    b_len: usize,
    thread_execution_width: u64,
    max_threads_per_group: u64,
) -> (r: Result<DispatchPlan, LMulError>)
    requires
        1 <= thread_execution_width,
        1 <= max_threads_per_group,
    ensures
        match r {
            Ok(p) => {
                &&& a_len == b_len
                &&& p.threads_per_group == if thread_execution_width <= max_threads_per_group {
                    thread_execution_width
                } else {
                    max_threads_per_group
                }
                &&& 1 <= p.threads_per_group
                &&& a_len as int <= p.group_count * p.threads_per_group
                &&& a_len > 0 ==> (p.group_count - 1) * p.threads_per_group < a_len as int
                &&& a_len == 0 ==> p.group_count == 0
            },
            Err(e) => a_len != b_len && e == LMulError::ContractViolation,
        },
{
    if a_len != b_len {
        return Err(LMulError::ContractViolation);
    }
    Ok(plan_dispatch(a_len, thread_execution_width, max_threads_per_group))
}

/// Construction phase of the process-wide accelerator state.
#[derive(Clone, Copy, Debug, PartialEq, Eq, Structural)]
pub enum AccelPhase {
    /// No construction attempted yet.
    Uninitialized,
    /// Device, queue and pipeline all acquired; reused by every later call.
    Ready,
    /// A construction step failed; unrecoverable, no accelerated call may
    /// proceed.
    Fatal,
}

/// Lifecycle of the process-wide accelerator state: construction happens on
/// the first accelerated call, exactly once, and every later call reuses its
/// outcome. `init_count` counts the construction attempts performed.
#[derive(Clone, Copy, Debug, PartialEq, Eq, Structural)]
pub struct AccelLifecycle {
    pub phase: AccelPhase,
    pub init_count: u64,
}

/// One accelerated call against the lifecycle: the first call performs
/// construction (whose outcome is `init_ok`); every other call changes
/// nothing.
pub open spec fn spec_lifecycle_step(s: AccelLifecycle, init_ok: bool) -> AccelLifecycle {
    if s.phase == AccelPhase::Uninitialized {
        AccelLifecycle {
            phase: if init_ok {
                AccelPhase::Ready
            } else {
                AccelPhase::Fatal
            },
            init_count: (s.init_count + 1) as u64,
        }
    } else {
        s
    }
}

/// The lifecycle after a whole sequence of calls, first element first.
pub open spec fn spec_lifecycle_run(s: AccelLifecycle, events: Seq<bool>) -> AccelLifecycle
    decreases events.len(),
{
    if events.len() == 0 {
        s
    } else {
        spec_lifecycle_run(spec_lifecycle_step(s, events[0]), events.subrange(1, events.len() as int))
    }
}

impl AccelLifecycle {
    /// A fresh lifecycle: nothing constructed yet.
    pub fn new() -> (s: Self)
        ensures
            s.phase == AccelPhase::Uninitialized,
            s.init_count == 0,
    {
        AccelLifecycle { phase: AccelPhase::Uninitialized, init_count: 0 }
    }

    /// Performs one call's worth of lifecycle work: constructs on the first
    /// call, reuses the existing state on every later one.
    pub fn on_call(&mut self, init_ok: bool)
        requires
            old(self).init_count < u64::MAX,
        ensures
            *final(self) == spec_lifecycle_step(*old(self), init_ok),
            old(self).phase == AccelPhase::Uninitialized ==> final(self).init_count == old(
                self,
            ).init_count + 1,
            old(self).phase != AccelPhase::Uninitialized ==> *final(self) == *old(self),
    {
        match self.phase {
            AccelPhase::Uninitialized => {
                self.init_count = self.init_count + 1;
                self.phase = if init_ok {
                    AccelPhase::Ready
                } else {
                    AccelPhase::Fatal
                };
            },
            _ => {},
        }
    }
}

/// Once constructed (successfully or fatally), no sequence of further calls
/// changes the lifecycle: the same state is reused by all of them.
pub proof fn lemma_constructed_state_is_stable(s: AccelLifecycle, events: Seq<bool>)
    requires
        s.phase != AccelPhase::Uninitialized,
    ensures
        spec_lifecycle_run(s, events) == s,
    decreases events.len(),
{
    if events.len() > 0 {
        assert(spec_lifecycle_step(s, events[0]) == s);
        lemma_constructed_state_is_stable(s, events.subrange(1, events.len() as int));
    }
}

/// Initialization is performed exactly once: starting from a fresh
/// lifecycle, any sequence of calls whose first construction succeeds ends
/// Ready with exactly one construction performed, every later call having
/// reused it.
pub proof fn lemma_setup_exactly_once(events: Seq<bool>)
    requires
        events.len() >= 1,
        events[0] == true,
    ensures
        spec_lifecycle_run(
            AccelLifecycle { phase: AccelPhase::Uninitialized, init_count: 0 },
            events,
        ).phase == AccelPhase::Ready,
        spec_lifecycle_run(
            AccelLifecycle { phase: AccelPhase::Uninitialized, init_count: 0 },
            events,
        ).init_count == 1,
{
    let start = AccelLifecycle { phase: AccelPhase::Uninitialized, init_count: 0 };
    let ready = AccelLifecycle { phase: AccelPhase::Ready, init_count: 1 };
    assert(spec_lifecycle_step(start, events[0]) == ready);
    lemma_constructed_state_is_stable(ready, events.subrange(1, events.len() as int));
}

} // verus!
