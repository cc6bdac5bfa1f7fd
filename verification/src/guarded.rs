//! Decoding for the exception-guarded breakpoint.
//!
//! On the one platform with native structured exception filtering, the
//! guarded trap executes the breakpoint instruction inside a protected
//! region and reports through a designated return location which path ran:
//! a debugger consumed the trap as a first-chance event and execution fell
//! through past it, or no consumer claimed it and the region's own handler
//! redirected control to the same continuation point. This module holds the
//! decoding of that tri-state code; the protected region itself is target
//! code that the surrounding program supplies.

use vstd::prelude::*;

use crate::DebuggerPresence;

verus! {

/// Result code reported when the protected region's own handler ran: no
/// first-chance consumer claimed the trap.
pub const TRAP_CODE_NOT_DETECTED: i32 = 0;

/// Result code reported when execution fell through past the trap: an
/// attached debugger consumed it and continued past the breakpoint.
pub const TRAP_CODE_DETECTED: i32 = -1;

/// The verdict a guarded-trap result code denotes.
pub open spec fn trap_code_verdict(code: i32) -> DebuggerPresence {
    if code == TRAP_CODE_DETECTED {
        DebuggerPresence::Detected
    } else {
        DebuggerPresence::NotDetected
    }
}

/// Decode the code left in the guarded trap's designated return location.
/// A code outside the narrow two-value contract means that contract was
/// violated — a programming error, not a runtime condition — so such codes
/// are left out here and the caller aborts on them instead of
/// reinterpreting.
pub fn decode_trap_outcome(code: i32) -> (r: Option<DebuggerPresence>)
    requires
        code == TRAP_CODE_NOT_DETECTED || code == TRAP_CODE_DETECTED,
    ensures
        r == Some(trap_code_verdict(code)),
{
    if code == TRAP_CODE_DETECTED {
        Some(DebuggerPresence::Detected)
    } else {
        Some(DebuggerPresence::NotDetected)
    }
}

/// On targets without a native exception-filtering mechanism there is
/// nothing to guard the breakpoint with, and the guarded breakpoint does
/// nothing: execution always continues past the call.
pub fn dbg_breakpoint() {
}

} // verus!
