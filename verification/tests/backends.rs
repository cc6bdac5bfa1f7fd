use dbg_breakpoint::detect::kinfo_verdict;
use dbg_breakpoint::detect::should_breakpoint;
use dbg_breakpoint::detect::teb_verdict;
use dbg_breakpoint::detect::unsupported_query;
use dbg_breakpoint::detect::KinfoProc;
use dbg_breakpoint::detect::P_TRACED_DARWIN;
use dbg_breakpoint::detect::P_TRACED_FREEBSD;
use dbg_breakpoint::DebuggerPresence;
use dbg_breakpoint::DetectionError;

#[test]
fn teb_nonzero_flag_is_detected() {
    assert_eq!(teb_verdict(1), Ok(DebuggerPresence::Detected));
    assert_eq!(teb_verdict(-1), Ok(DebuggerPresence::Detected));
}

#[test]
fn teb_zero_flag_is_not_detected() {
    assert_eq!(teb_verdict(0), Ok(DebuggerPresence::NotDetected));
}

#[test]
fn teb_query_is_idempotent() {
    assert_eq!(teb_verdict(7), teb_verdict(7));
    assert_eq!(teb_verdict(0), teb_verdict(0));
}

#[test]
fn darwin_record_traced_bit() {
    assert!(KinfoProc::from_darwin_record(P_TRACED_DARWIN).is_traced());
    assert!(KinfoProc::from_darwin_record(0x4800).is_traced());
    assert!(!KinfoProc::from_darwin_record(0).is_traced());
    assert!(!KinfoProc::from_darwin_record(0x4002).is_traced());
}

#[test]
fn freebsd_record_traced_bit() {
    assert!(KinfoProc::from_freebsd_record(P_TRACED_FREEBSD).is_traced());
    assert!(KinfoProc::from_freebsd_record(0x0803).is_traced());
    assert!(!KinfoProc::from_freebsd_record(0).is_traced());
    // the Darwin bit means nothing to the FreeBSD layout
    assert!(!KinfoProc::from_freebsd_record(P_TRACED_DARWIN).is_traced());
}

#[test]
fn kinfo_query_verdicts() {
    let traced = KinfoProc::from_darwin_record(P_TRACED_DARWIN);
    let clear = KinfoProc::from_darwin_record(0);
    assert_eq!(kinfo_verdict(true, &traced), Ok(DebuggerPresence::Detected));
    assert_eq!(kinfo_verdict(true, &clear), Ok(DebuggerPresence::NotDetected));
    assert_eq!(
        kinfo_verdict(false, &traced),
        Err(DetectionError::DetectionFailed)
    );
}

#[test]
fn kinfo_query_is_idempotent() {
    let record = KinfoProc::from_freebsd_record(0x0002);
    let again = KinfoProc::from_freebsd_record(0x0002);
    assert_eq!(kinfo_verdict(true, &record), kinfo_verdict(true, &again));
}

#[test]
fn unsupported_platform_reports_unsupported() {
    assert_eq!(unsupported_query(), Err(DetectionError::Unsupported));
}

#[test]
fn breakpoint_fires_only_on_detected() {
    assert!(should_breakpoint(&Ok(DebuggerPresence::Detected)));
    assert!(!should_breakpoint(&Ok(DebuggerPresence::NotDetected)));
    assert!(!should_breakpoint(&Err(DetectionError::Unsupported)));
    assert!(!should_breakpoint(&Err(DetectionError::DetectionFailed)));
}
