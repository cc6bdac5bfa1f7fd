use dbg_breakpoint::guarded::dbg_breakpoint;
use dbg_breakpoint::guarded::decode_trap_outcome;
use dbg_breakpoint::guarded::TRAP_CODE_DETECTED;
use dbg_breakpoint::guarded::TRAP_CODE_NOT_DETECTED;
use dbg_breakpoint::DebuggerPresence;

#[test]
fn handler_code_means_not_detected() {
    assert_eq!(
        decode_trap_outcome(TRAP_CODE_NOT_DETECTED),
        Some(DebuggerPresence::NotDetected)
    );
}

#[test]
fn fall_through_code_means_detected() {
    assert_eq!(
        decode_trap_outcome(TRAP_CODE_DETECTED),
        Some(DebuggerPresence::Detected)
    );
}

#[test]
fn guarded_breakpoint_without_filter_continues() {
    // On a target without native exception filtering the guarded breakpoint
    // does nothing; execution must reach the marker after the call.
    dbg_breakpoint();
    let reached_marker = true;
    assert!(reached_marker);
}
