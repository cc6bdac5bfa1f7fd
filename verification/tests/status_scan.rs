use dbg_breakpoint::status::scan_tracer_status;
use dbg_breakpoint::DebuggerPresence;
use dbg_breakpoint::DetectionError;

fn scan(text: &str) -> Result<DebuggerPresence, DetectionError> {
    scan_tracer_status(&text.as_bytes().to_vec())
}

#[test]
fn tracer_pid_nonzero_is_detected() {
    assert_eq!(scan("TracerPid:\t1234\n"), Ok(DebuggerPresence::Detected));
}

#[test]
fn tracer_pid_zero_is_not_detected() {
    assert_eq!(scan("TracerPid:\t0\n"), Ok(DebuggerPresence::NotDetected));
}

#[test]
fn missing_tracer_line_is_detection_failed() {
    assert_eq!(
        scan("Name:\tcat\nState:\tR (running)\nPid:\t77\n"),
        Err(DetectionError::DetectionFailed)
    );
}

#[test]
fn empty_text_is_detection_failed() {
    assert_eq!(scan(""), Err(DetectionError::DetectionFailed));
}

#[test]
fn whitespace_around_value_is_tolerated() {
    assert_eq!(scan("TracerPid:   1234  \n"), Ok(DebuggerPresence::Detected));
    assert_eq!(scan("TracerPid: \t 0 \t \n"), Ok(DebuggerPresence::NotDetected));
}

#[test]
fn realistic_status_text() {
    let text = "Name:\tcat\n\
                Umask:\t0022\n\
                State:\tR (running)\n\
                Pid:\t4242\n\
                PPid:\t1\n\
                TracerPid:\t0\n\
                Uid:\t1000\t1000\t1000\t1000\n";
    assert_eq!(scan(text), Ok(DebuggerPresence::NotDetected));
}

#[test]
fn realistic_status_text_with_tracer() {
    let text = "Name:\tcat\nState:\tt (tracing stop)\nPid:\t4242\nTracerPid:\t4100\nUid:\t0\n";
    assert_eq!(scan(text), Ok(DebuggerPresence::Detected));
}

#[test]
fn first_tracer_line_wins() {
    assert_eq!(
        scan("TracerPid:\t0\nTracerPid:\t9\n"),
        Ok(DebuggerPresence::NotDetected)
    );
    assert_eq!(
        scan("TracerPid:\t9\nTracerPid:\t0\n"),
        Ok(DebuggerPresence::Detected)
    );
}

#[test]
fn value_stops_at_second_colon() {
    // Only the piece between the label's colon and the next colon counts.
    assert_eq!(scan("TracerPid:0:9\n"), Ok(DebuggerPresence::NotDetected));
}

#[test]
fn empty_value_is_not_the_literal_zero() {
    // Any value other than the literal zero reads as an attached tracer.
    assert_eq!(scan("TracerPid:\n"), Ok(DebuggerPresence::Detected));
}

#[test]
fn line_without_trailing_newline() {
    assert_eq!(scan("TracerPid:\t7"), Ok(DebuggerPresence::Detected));
    assert_eq!(scan("TracerPid:\t0"), Ok(DebuggerPresence::NotDetected));
}

#[test]
fn label_must_open_the_line() {
    assert_eq!(
        scan("NotTracerPid:\t5\n"),
        Err(DetectionError::DetectionFailed)
    );
}

#[test]
fn scan_is_idempotent() {
    let text = "Pid:\t10\nTracerPid:\t321\n";
    assert_eq!(scan(text), scan(text));
    let text = "Pid:\t10\nTracerPid:\t0\n";
    assert_eq!(scan(text), scan(text));
    let text = "Pid:\t10\n";
    assert_eq!(scan(text), scan(text));
}
