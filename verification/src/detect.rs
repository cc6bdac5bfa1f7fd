//! Verdicts of the binary detection backends: the thread-environment flag
//! and the kernel process-info record, plus the fallback for platforms with
//! no capability and the decision that composes a query with a trap.

use vstd::prelude::*;

use crate::DebuggerPresence;
use crate::DetectionError;

verus! {

/// Traced-flag bit in the process-flag word of the Darwin kernel's
/// process-info record. The offset and mask are version-specific.
pub const P_TRACED_DARWIN: i32 = 0x0000_0800;

/// Traced-flag bit in the process-flag word of the FreeBSD kernel's
/// process-info record.
pub const P_TRACED_FREEBSD: i32 = 0x0000_0002;

/// Snapshot of what this library reads from a kernel process-info record:
/// the process-flag word and the platform's traced-flag mask. The record
/// itself is externally owned; a snapshot exists only for one query.
pub struct KinfoProc {
    /// The process-flag word of the record.
    pub p_flag: i32,
    /// The mask of the traced-flag bit for the platform the record came from.
    pub traced_mask: i32,
}

impl KinfoProc {
    /// The record marks the process as traced: the documented bit is set
    /// in the process-flag word.
    pub open spec fn traced_spec(self) -> bool {
        self.p_flag & self.traced_mask != 0
    }

    /// Snapshot of a Darwin process-info record with the given
    /// process-flag word.
    pub fn from_darwin_record(p_flag: i32) -> (r: KinfoProc)
        ensures
            r.p_flag == p_flag,
            r.traced_mask == P_TRACED_DARWIN,
    {
        KinfoProc { p_flag, traced_mask: P_TRACED_DARWIN }
    }

    /// Snapshot of a FreeBSD process-info record with the given
    /// process-flag word.
    pub fn from_freebsd_record(ki_flag: i32) -> (r: KinfoProc)
        ensures
            r.p_flag == ki_flag,
            r.traced_mask == P_TRACED_FREEBSD,
    {
        KinfoProc { p_flag: ki_flag, traced_mask: P_TRACED_FREEBSD }
    }

    /// Whether the record marks the process as traced.
    pub fn is_traced(&self) -> (r: bool)
        ensures
            r == self.traced_spec(),
    {
        (self.p_flag & self.traced_mask) != 0
    }
}

/// Verdict of a kernel process-info query: `ok` says whether the kernel
/// call succeeded and filled the record; a failed call yields no verdict,
/// a filled record answers by its traced-flag bit.
pub open spec fn kinfo_query_spec(ok: bool, info: KinfoProc) -> Result<
    DebuggerPresence,
    DetectionError,
> {
    if !ok {
        Err(DetectionError::DetectionFailed)
    } else if info.traced_spec() {
        Ok(DebuggerPresence::Detected)
    } else {
        Ok(DebuggerPresence::NotDetected)
    }
}

/// Turn the outcome of a kernel process-info query into a verdict.
/// The caller makes the kernel call and hands in whether it succeeded
/// together with the record it filled.
pub fn kinfo_verdict(ok: bool, info: &KinfoProc) -> (r: Result<
    DebuggerPresence,
    DetectionError,
>)
    ensures
        r == kinfo_query_spec(ok, *info),
{
    if !ok {
        Err(DetectionError::DetectionFailed)
    } else if info.is_traced() {
        Ok(DebuggerPresence::Detected)
    } else {
        Ok(DebuggerPresence::NotDetected)
    }
}

/// Verdict of the thread-environment-flag backend: a nonzero flag means a
/// debugger is attached. This backend cannot fail.
pub open spec fn teb_query_spec(flag: i32) -> Result<DebuggerPresence, DetectionError> {
    if flag != 0 {
        Ok(DebuggerPresence::Detected)
    } else {
        Ok(DebuggerPresence::NotDetected)
    }
}

/// Turn the flag read by the OS "is debugger present" accessor into a
/// verdict. Never returns an error.
pub fn teb_verdict(flag: i32) -> (r: Result<DebuggerPresence, DetectionError>)
    ensures
        r == teb_query_spec(flag),
        r.is_ok(),
{
    if flag != 0 {
        Ok(DebuggerPresence::Detected)
    } else {
        Ok(DebuggerPresence::NotDetected)
    }
}

/// The query on a platform with no detection capability: a static, known
/// limitation, reported as such rather than as a definite verdict.
pub fn unsupported_query() -> (r: Result<DebuggerPresence, DetectionError>)
    ensures
        r == Err::<DebuggerPresence, DetectionError>(DetectionError::Unsupported),
{
    Err(DetectionError::Unsupported)
}

/// The conditional trap is wanted only when the query definitely saw a
/// debugger; `NotDetected` and both errors leave the process alone.
pub open spec fn trap_wanted(outcome: Result<DebuggerPresence, DetectionError>) -> bool {
    outcome == Ok::<DebuggerPresence, DetectionError>(DebuggerPresence::Detected)
}

/// Decide whether a presence verdict calls for breaking into the debugger.
/// The caller performs the trap itself where this returns true.
pub fn should_breakpoint(outcome: &Result<DebuggerPresence, DetectionError>) -> (r: bool)
    ensures
        r == trap_wanted(*outcome),
{
    match outcome {
        Ok(DebuggerPresence::Detected) => true,
        _ => false,
    }
}

/// A kernel process-info query is idempotent: two queries that observe
/// equal snapshots of the record return equal verdicts.
pub proof fn lemma_kinfo_query_idempotent(
    first_ok: bool,
    first: KinfoProc,
    second_ok: bool,
    second: KinfoProc,
)
    requires
        first_ok == second_ok,
        first.p_flag == second.p_flag,
        first.traced_mask == second.traced_mask,
    ensures
        kinfo_query_spec(first_ok, first) == kinfo_query_spec(second_ok, second),
{
}

/// A thread-environment-flag query is idempotent: two queries that observe
/// equal flags return equal verdicts.
pub proof fn lemma_teb_query_idempotent(first: i32, second: i32)
    requires
        first == second,
    ensures
        teb_query_spec(first) == teb_query_spec(second),
{
}

} // verus!
