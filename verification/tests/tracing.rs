//! Tests against a real traced process: a spawned system utility is attached
//! to, stopped, and used as the tracee.

use nix::spawn::{posix_spawnp, PosixSpawnAttr, PosixSpawnFileActions};
use nix::sys::ptrace;
use nix::sys::wait::{waitpid, WaitStatus};
use nix::unistd::Pid;

use minidbg::breakpoint::Breakpoint;
use minidbg::memory::{read_data, read_data_fixed, write_data};
use minidbg::session::{BreakpointArg, Session, StopReport};
use minidbg::trace::Tracee;

/// Waits a moment so the spawned program image is loaded and running, then
/// attaches to it and waits for the attach stop.
fn attach_and_wait(child: Pid) {
    nix::unistd::sleep(1);
    ptrace::attach(child).unwrap();
    let status = waitpid(child, None).unwrap();
    assert!(matches!(status, WaitStatus::Stopped(_, _)));
}

fn cleanup(child: Pid) {
    let _ = ptrace::kill(child);
    let _ = waitpid(child, None);
}

#[test]
fn memory_round_trip_and_write_locality() {
    let fa = PosixSpawnFileActions::init().unwrap();
    let at = PosixSpawnAttr::init().unwrap();
    let args = [c"sleep", c"30"];
    let child = posix_spawnp(c"sleep", &fa, &at, &args, &args[0..0]).unwrap();
    attach_and_wait(child);
    let regs = ptrace::getregs(child).unwrap();
    let addr = regs.rip as usize;
    let mut t = Tracee::attach(child.as_raw());

    // plant a known sentinel word, then overwrite only its middle
    let sentinel = [0x11u8; 8];
    write_data(&mut t, addr, &sentinel).unwrap();
    write_data(&mut t, addr + 2, &[0xaa, 0xbb, 0xcc]).unwrap();
    let word = read_data(&t, addr, 8).unwrap();
    assert_eq!(word, vec![0x11, 0x11, 0xaa, 0xbb, 0xcc, 0x11, 0x11, 0x11]);

    // round-trip of a buffer that crosses a word boundary
    let pattern: Vec<u8> = (1..=13u8).collect();
    write_data(&mut t, addr, &pattern).unwrap();
    assert_eq!(read_data(&t, addr, 13).unwrap(), pattern);

    cleanup(child);
    // the process is gone: a read must fail cleanly, not return stale data
    assert!(read_data(&t, addr, 8).is_none());
}

#[test]
fn breakpoint_install_restore_identity() {
    let fa = PosixSpawnFileActions::init().unwrap();
    let at = PosixSpawnAttr::init().unwrap();
    let args = [c"sleep", c"30"];
    let child = posix_spawnp(c"sleep", &fa, &at, &args, &args[0..0]).unwrap();
    attach_and_wait(child);
    let regs = ptrace::getregs(child).unwrap();
    let addr = regs.rip as usize;
    let mut t = Tracee::attach(child.as_raw());

    let before = read_data_fixed::<1>(&t, addr).unwrap();
    let bp = Breakpoint::create(addr, &mut t).unwrap();
    assert_eq!(read_data_fixed::<1>(&t, addr).unwrap()[0], 0xcc);
    bp.restore_data(&mut t).unwrap();
    assert_eq!(read_data_fixed::<1>(&t, addr).unwrap(), before);

    cleanup(child);
}

#[test]
fn breakpoint_hit_rewinds_instruction_pointer() {
    let fa = PosixSpawnFileActions::init().unwrap();
    let at = PosixSpawnAttr::init().unwrap();
    let args = [c"sleep", c"3"];
    let child = posix_spawnp(c"sleep", &fa, &at, &args, &args[0..0]).unwrap();
    attach_and_wait(child);
    let regs = ptrace::getregs(child).unwrap();
    let rip = regs.rip;

    let mut s = Session::new();
    assert_eq!(s.add_request(&BreakpointArg::Address(rip as usize)), Some(1));
    let r = s.start(Tracee::attach(child.as_raw()));
    assert!(matches!(r, StopReport::Hit { index: 0, addr } if addr == rip as usize));
    // the reported snapshot points at the breakpoint, not one past it
    assert_eq!(s.instruction_pointer(), Some(rip));
    assert!(s.registers_text().is_some());
    // continuing steps past the breakpoint and runs to the true exit
    let r = s.cont();
    assert!(matches!(r, StopReport::Exited(0)));
    assert!(!s.is_attached());
}

#[test]
fn stepping_past_a_hit_executes_one_instruction() {
    let fa = PosixSpawnFileActions::init().unwrap();
    let at = PosixSpawnAttr::init().unwrap();
    let args = [c"sleep", c"3"];
    let child = posix_spawnp(c"sleep", &fa, &at, &args, &args[0..0]).unwrap();
    attach_and_wait(child);
    let regs = ptrace::getregs(child).unwrap();
    let rip = regs.rip;

    let mut s = Session::new();
    assert_eq!(s.add_request(&BreakpointArg::Address(rip as usize)), Some(1));
    let r = s.start(Tracee::attach(child.as_raw()));
    assert!(matches!(r, StopReport::Hit { index: 0, .. }));
    // the single step performed while stepping past the hit is the requested
    // step: the tracee stops right after the original instruction ran once
    let r = s.stepi();
    assert!(matches!(r, StopReport::Interrupted(_)));
    let r = s.cont();
    assert!(matches!(r, StopReport::Exited(0)));
    assert!(!s.is_attached());
}

#[test]
fn repeated_hits_come_in_program_order() {
    // `yes` loops on the write system call, so a breakpoint at its stopped
    // instruction pointer is reached over and over; its endless output goes
    // to the bit bucket, and the exec keeps the spawned pid
    let fa = PosixSpawnFileActions::init().unwrap();
    let at = PosixSpawnAttr::init().unwrap();
    let args = [c"sh", c"-c", c"exec yes > /dev/null"];
    let child = posix_spawnp(c"sh", &fa, &at, &args, &args[0..0]).unwrap();
    attach_and_wait(child);
    let regs = ptrace::getregs(child).unwrap();
    let rip = regs.rip;

    let mut s = Session::new();
    assert_eq!(s.add_request(&BreakpointArg::Address(rip as usize)), Some(1));
    let r = s.start(Tracee::attach(child.as_raw()));
    assert!(matches!(r, StopReport::Hit { index: 0, addr } if addr == rip as usize));
    let r = s.cont();
    assert!(matches!(r, StopReport::Hit { index: 0, addr } if addr == rip as usize));
    let _ = s.kill_tracee();
    assert!(!s.is_attached());
}
