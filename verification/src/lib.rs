//! Primitives for sensing an attached debugger or tracer and for breaking
//! into one on purpose.
//!
//! The library holds the decision logic of each per-platform detection
//! backend: the scan of a process-status text for the tracer field, the
//! traced-flag test on a kernel process-info record, the thread-environment
//! flag verdict, and the decoding of the guarded breakpoint's result code.
//! The platform calls themselves (reading the status pseudo-file, the kernel
//! query, the trap instructions) live with the surrounding program; they hand
//! plain values in and take verdicts back.

use vstd::prelude::*;

pub mod detect;
pub mod guarded;
pub mod status;

verus! {

/// Presence of a debugger/tracer: a point-in-time observation, never cached.
/// The debugger concerned is expected to use the OS API to debug this
/// process.
#[derive(Copy, Clone, Debug, PartialEq, Eq, Structural)]
pub enum DebuggerPresence {
    /// The debugger is attached to this process.
    Detected,
    /// The debugger is not attached to this process.
    NotDetected,
}

/// Why a presence query produced no verdict. Ambiguity is surfaced here
/// rather than silently mapped to either tristate value.
#[derive(Copy, Clone, Debug, PartialEq, Eq, Structural)]
pub enum DetectionError {
    /// The capability is absent on this platform.
    Unsupported,
    /// The platform call ran but yielded no reliable signal.
    DetectionFailed,
}

} // verus!
