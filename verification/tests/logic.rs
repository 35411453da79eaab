use minidbg::breakpoint::Breakpoint;
use minidbg::memory::{read_data, read_data_fixed, write_data};
use minidbg::session::{find_hit, BreakpointArg, Session, StopReport};
use minidbg::trace::{StopEvent, Tracee};
use minidbg::word::{get_wbyte, set_wbyte};

#[test]
fn word_byte_extraction() {
    let w: u64 = 0x1122334455667788;
    assert_eq!(get_wbyte(w, 0), 0x88);
    assert_eq!(get_wbyte(w, 3), 0x55);
    assert_eq!(get_wbyte(w, 7), 0x11);
}

#[test]
fn word_byte_replacement_is_local() {
    let w: u64 = 0x1122334455667788;
    let r = set_wbyte(w, 2, 0xab);
    assert_eq!(r, 0x11223344_55ab_7788);
    assert_eq!(get_wbyte(r, 2), 0xab);
    for i in 0..8 {
        if i != 2 {
            assert_eq!(get_wbyte(r, i), get_wbyte(w, i));
        }
    }
}

#[test]
fn parse_accepts_hex_addresses() {
    assert!(matches!(
        BreakpointArg::parse("0x400000"),
        Some(BreakpointArg::Address(0x400000))
    ));
    assert!(matches!(
        BreakpointArg::parse("0xDeadBeef"),
        Some(BreakpointArg::Address(0xdead_beef))
    ));
    assert!(matches!(
        BreakpointArg::parse("0xffffffffffffffff"),
        Some(BreakpointArg::Address(usize::MAX))
    ));
    assert!(matches!(
        BreakpointArg::parse("0x0"),
        Some(BreakpointArg::Address(0))
    ));
}

#[test]
fn parse_rejects_malformed_arguments() {
    assert!(BreakpointArg::parse("").is_none());
    assert!(BreakpointArg::parse("0x").is_none());
    assert!(BreakpointArg::parse("400000").is_none());
    assert!(BreakpointArg::parse("0xzz").is_none());
    assert!(BreakpointArg::parse("0x12g4").is_none());
    assert!(BreakpointArg::parse("main").is_none());
    assert!(BreakpointArg::parse("0x+12").is_none());
    // one digit too many for the machine's address width
    assert!(BreakpointArg::parse("0x10000000000000000").is_none());
}

#[test]
fn to_address_returns_the_address() {
    let a = BreakpointArg::Address(0xdead);
    assert_eq!(a.to_address(), 0xdead);
}

#[test]
fn find_hit_picks_first_match_one_past_address() {
    let bps = vec![
        Breakpoint {
            addr: 0x1000,
            saved_data: 0x90,
        },
        Breakpoint {
            addr: 0x2000,
            saved_data: 0x90,
        },
    ];
    assert_eq!(find_hit(&bps, 0x2001), Some(1));
    assert_eq!(find_hit(&bps, 0x1001), Some(0));
    assert_eq!(find_hit(&bps, 0x1000), None);
    assert_eq!(find_hit(&bps, 0x1002), None);
    assert_eq!(find_hit(&bps, 0), None);
    assert_eq!(find_hit(&Vec::new(), 0x1001), None);
}

#[test]
fn session_request_bookkeeping() {
    let mut s = Session::new();
    assert!(!s.is_attached());
    assert_eq!(s.add_request(&BreakpointArg::Address(0x1000)), Some(1));
    assert_eq!(s.add_request(&BreakpointArg::Address(0x2000)), Some(2));
    // a duplicate address is rejected, as are unresolvable forms
    assert_eq!(s.add_request(&BreakpointArg::Address(0x1000)), None);
    assert_eq!(
        s.add_request(&BreakpointArg::Symbol(String::from("main"))),
        None
    );
    assert_eq!(
        s.add_request(&BreakpointArg::LineNumber(String::from("a.c"), 3)),
        None
    );
    assert_eq!(s.add_request(&BreakpointArg::Address(0x3000)), Some(3));
    assert!(s.registers_text().is_none());
    assert!(s.instruction_pointer().is_none());
}

#[test]
fn failed_memory_access_is_clean() {
    // no process has this identifier, so every trace request must fail
    // cleanly instead of returning stale data
    let mut t = Tracee::attach(-2);
    assert!(read_data(&t, 0x1000, 16).is_none());
    assert!(read_data_fixed::<4>(&t, 0x1000).is_none());
    assert_eq!(write_data(&mut t, 0x1000, &[1, 2, 3]), Err(0));
    assert!(Breakpoint::create(0x1000, &mut t).is_none());
}

#[test]
fn empty_accesses_always_succeed() {
    // a zero-length access needs no trace request, so it succeeds even
    // where no process exists
    let t = Tracee::attach(-2);
    assert_eq!(read_data(&t, 0x1000, 0), Some(Vec::new()));
    assert_eq!(read_data_fixed::<0>(&t, 0x1000), Some([]));
}

#[test]
fn kill_without_tracee_succeeds() {
    let mut s = Session::new();
    assert_eq!(s.kill_tracee(), Some(()));
    assert!(!s.is_attached());
}

#[test]
fn exit_classification_clears_session() {
    let mut s = Session::new();
    let r = s.start(Tracee::attach(-2));
    assert!(matches!(r, StopReport::TraceFailure));
    assert!(s.is_attached());
    let r = s.handle_stop(StopEvent::Exited(7));
    assert!(matches!(r, StopReport::Exited(7)));
    assert!(!s.is_attached());
}

#[test]
fn non_trap_classification_keeps_state() {
    let mut s = Session::new();
    let _ = s.start(Tracee::attach(-2));
    assert!(s.is_attached());
    let r = s.handle_stop(StopEvent::StoppedSignal(11));
    assert!(matches!(r, StopReport::SignalStop(11)));
    assert!(s.is_attached());
    let r = s.handle_stop(StopEvent::Other);
    assert!(matches!(r, StopReport::OtherStop));
    let r = s.handle_stop(StopEvent::StillAlive);
    assert!(matches!(r, StopReport::ProtocolViolation));
    // a trap cannot be classified once the process is gone
    let r = s.handle_stop(StopEvent::StoppedTrap);
    assert!(matches!(r, StopReport::TraceFailure));
    let _ = s.kill_tracee();
    assert!(!s.is_attached());
}
