//! The trace facility: a handle on one traced process, with the trusted
//! operations the debugger needs from it.
//!
//! `Tracee` pairs the operating-system identity of the traced thread with a
//! mathematical model of what the debugger may rely on while the tracee is
//! stopped: the byte at each address of its memory, and its thread's
//! instruction pointer. Operations that let the tracee run again promise
//! nothing about the model afterwards: the next stop finds memory and
//! registers in an unknown new state.
//!
//! Accesses are well defined only while the tracee is stopped, and only one
//! tracer may hold the trace relationship; the handle is therefore neither
//! clonable nor constructible outside this module.

use vstd::prelude::*;

use crate::word::wbyte;

verus! {

#[verifier::external_type_specification]
#[verifier::external_body]
pub struct ExPid(nix::unistd::Pid);

/// One state-change notification of the tracee, as the wait call reports it.
pub enum StopEvent {
    /// The tracee exited with the given exit code.
    Exited(i32),
    /// The tracee stopped on the trap signal.
    StoppedTrap,
    /// The tracee stopped on another signal, given by number.
    StoppedSignal(i32),
    /// No state change was reported; the wait contract rules this out, so it
    /// marks a broken assumption about the trace facility.
    StillAlive,
    /// Any other notification (terminated by a signal, a trace event, ...).
    Other,
}

/// A traced process, stopped and owned by exactly one debugger session.
pub struct Tracee {
    pid: nix::unistd::Pid,
    mem: Ghost<Map<int, u8>>,
    rip: Ghost<u64>,
}

impl Tracee {
    /// The byte at each address of the stopped tracee's memory.
    pub closed spec fn mem(&self) -> Map<int, u8> {
        self.mem@
    }

    /// The instruction pointer of the stopped tracee's thread.
    pub closed spec fn rip(&self) -> u64 {
        self.rip@
    }

    /// Takes charge of an already-stopped tracee, given its raw process id.
    ///
    /// Relies on nix::unistd::Pid::from_raw. The caller must have established
    /// the trace relationship and observed the tracee stop; nothing is
    /// assumed here about its memory or registers.
    #[verifier::external_body]
    pub fn attach(pid_raw: i32) -> (t: Tracee) {
        Tracee {
            pid: nix::unistd::Pid::from_raw(pid_raw),
            mem: Ghost(vstd::pervasive::arbitrary()),
            rip: Ghost(vstd::pervasive::arbitrary()),
        }
    }

    /// Relies on nix::sys::ptrace::read (PTRACE_PEEKDATA): a successful read
    /// returns exactly the machine word whose bytes sit at `addr..addr+8` in
    /// the stopped tracee's memory.
    #[verifier::external_body]
    pub(crate) fn peek_word(&self, addr: usize) -> (r: Option<u64>)
        ensures
            r matches Some(w) ==> forall|a: int|
                addr <= a < addr + 8 ==> #[trigger] self.mem()[a] == wbyte(w, a - addr),
    {
        nix::sys::ptrace::read(self.pid, addr as _).ok().map(|w| w as u64)
    }

    /// Relies on nix::sys::ptrace::write (PTRACE_POKEDATA): a successful
    /// write replaces exactly the machine word at `addr..addr+8` in the
    /// stopped tracee's memory. A failed one touches no byte outside that
    /// word; within it nothing is promised, since a word that spans a page
    /// boundary can have its leading bytes written into the accessible page
    /// before the call fails on the other. Registers are untouched either
    /// way.
    #[verifier::external_body]
    pub(crate) fn poke_word(&mut self, addr: usize, w: u64) -> (r: Result<(), ()>)
        ensures
            r is Ok ==> forall|a: int|
                addr <= a < addr + 8 ==> #[trigger] final(self).mem()[a] == wbyte(w, a - addr),
            forall|a: int|
                !(addr <= a < addr + 8) ==> #[trigger] final(self).mem()[a] == old(self).mem()[a],
            final(self).rip() == old(self).rip(),
    {
        nix::sys::ptrace::write(self.pid, addr as _, w as _).map_err(|_| ())
    }

    /// Relies on nix::sys::ptrace::getregs (PTRACE_GETREGS): the `rip` field
    /// of a successful register snapshot is the stopped thread's instruction
    /// pointer.
    #[verifier::external_body]
    pub(crate) fn read_rip(&self) -> (r: Option<u64>)
        ensures
            r matches Some(p) ==> p == self.rip(),
    {
        nix::sys::ptrace::getregs(self.pid).ok().map(|regs| regs.rip)
    }

    /// Relies on nix::sys::ptrace::getregs and setregs: writing back a
    /// register snapshot whose `rip` field was replaced sets the stopped
    /// thread's instruction pointer, touches no other state the debugger
    /// relies on, and on failure changes nothing.
    #[verifier::external_body]
    pub(crate) fn write_rip(&mut self, v: u64) -> (r: Option<()>)
        ensures
            forall|a: int| #[trigger] final(self).mem()[a] == old(self).mem()[a],
            r is Some ==> final(self).rip() == v,
            r is None ==> final(self).rip() == old(self).rip(),
    {
        match nix::sys::ptrace::getregs(self.pid) {
            Ok(mut regs) => {
                regs.rip = v;
                nix::sys::ptrace::setregs(self.pid, regs).ok()
            },
            Err(_) => None,
        }
    }

    /// Relies on nix::sys::ptrace::getregs: a textual dump of the stopped
    /// thread's full register snapshot, for display only.
    #[verifier::external_body]
    pub(crate) fn registers_text(&self) -> (r: Option<String>) {
        nix::sys::ptrace::getregs(self.pid).ok().map(|regs| format!("{:#x?}", regs))
    }

    /// Relies on nix::sys::ptrace::cont (PTRACE_CONT): lets the stopped
    /// tracee run again. The model of its memory and registers is void from
    /// here until the next observed stop.
    #[verifier::external_body]
    pub(crate) fn resume(&mut self) -> (r: Option<()>) {
        nix::sys::ptrace::cont(self.pid, None).ok()
    }

    /// Relies on nix::sys::ptrace::step (PTRACE_SINGLESTEP): lets the stopped
    /// tracee execute one machine instruction. As with `resume`, nothing is
    /// promised about memory or registers afterwards.
    #[verifier::external_body]
    pub(crate) fn single_step(&mut self) -> (r: Option<()>) {
        nix::sys::ptrace::step(self.pid, None).ok()
    }

    /// Relies on nix::sys::wait::waitpid: blocks until the tracee changes
    /// state and hands the notification back, one variant per kind the wait
    /// call distinguishes.
    #[verifier::external_body]
    pub(crate) fn wait_for_stop(&mut self) -> (r: Option<StopEvent>) {
        match nix::sys::wait::waitpid(self.pid, None) {
            Err(_) => None,
            Ok(nix::sys::wait::WaitStatus::Exited(_, code)) => Some(StopEvent::Exited(code)),
            Ok(nix::sys::wait::WaitStatus::Stopped(_, sig)) => match sig {
                nix::sys::signal::Signal::SIGTRAP => Some(StopEvent::StoppedTrap),
                other => Some(StopEvent::StoppedSignal(other as i32)),
            },
            Ok(nix::sys::wait::WaitStatus::StillAlive) => Some(StopEvent::StillAlive),
            Ok(_) => Some(StopEvent::Other),
        }
    }

    /// Relies on nix::sys::ptrace::kill (PTRACE_KILL): asks the tracee to
    /// terminate. The handle is given up either way.
    #[verifier::external_body]
    pub(crate) fn kill(self) -> (r: Option<()>) {
        nix::sys::ptrace::kill(self.pid).ok()
    }
}

} // verus!
