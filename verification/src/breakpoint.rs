//! A software breakpoint on x86_64: a one-byte trap instruction written over
//! the tracee's code, together with the byte it replaced.

use vstd::prelude::*;

use crate::memory::{read_data_fixed, write_data};
use crate::trace::{StopEvent, Tracee};

verus! {

/// The trap instruction of the target architecture (x86_64 `int3`), one byte.
pub const TRAP_INSTRUCTION: u8 = 0xcc;

/// A software breakpoint at one address of one traced thread.
///
/// Invariant of the protocol: whenever the trap instruction is present at
/// `addr`, `saved_data` holds the byte that was there before installation, so
/// restoring exactly reverses installing, provided no other writer touches
/// that byte in between.
#[derive(Clone, Copy)]
pub struct Breakpoint {
    /// Target address in the tracee's address space.
    pub addr: usize,
    /// The byte that sat at `addr` before the trap instruction was written.
    /// Maintained by `write` and `restore_data`; not meant to be set by hand.
    pub saved_data: u8,
}

impl Breakpoint {
    /// Creates a breakpoint: saves the byte at `addr` and writes the trap
    /// instruction over it. Fails if the initial read or the write fails;
    /// a failure touches no byte outside the machine word at `addr`.
    pub fn create(addr: usize, t: &mut Tracee) -> (r: Option<Breakpoint>)
        ensures
            final(t).rip() == old(t).rip(),
            r matches Some(bp) ==> bp.addr == addr && bp.saved_data == old(t).mem()[addr as int]
                && final(t).mem()[addr as int] == TRAP_INSTRUCTION && forall|a: int|
                a != addr ==> #[trigger] final(t).mem()[a] == old(t).mem()[a],
            r is None ==> forall|a: int|
                !(addr <= a < addr + 8) ==> #[trigger] final(t).mem()[a] == old(t).mem()[a],
    {
        let mut bp = Breakpoint { addr, saved_data: 0 };
        match bp.write(t) {
            Some(()) => Some(bp),
            None => None,
        }
    }

    /// Saves the byte currently at `addr`, then writes the trap instruction
    /// over it. On failure no byte outside the machine word at `addr` has
    /// changed.
    pub fn write(&mut self, t: &mut Tracee) -> (r: Option<()>)
        ensures
            final(self).addr == old(self).addr,
            final(t).rip() == old(t).rip(),
            r is Some ==> final(self).saved_data == old(t).mem()[old(self).addr as int]
                && final(t).mem()[old(self).addr as int] == TRAP_INSTRUCTION && forall|a: int|
                a != old(self).addr ==> #[trigger] final(t).mem()[a] == old(t).mem()[a],
            r is None ==> final(self).saved_data == old(self).saved_data && forall|a: int|
                !(old(self).addr <= a < old(self).addr + 8) ==> #[trigger] final(t).mem()[a] == old(
                    t,
                ).mem()[a],
    {
        let b = match read_data_fixed::<1>(t, self.addr) {
            Some(b) => b,
            None => {
                return None;
            },
        };
        let trap: [u8; 1] = [TRAP_INSTRUCTION];
        match write_data(t, self.addr, &trap) {
            Ok(()) => {
                self.saved_data = b[0];
                Some(())
            },
            Err(_) => None,
        }
    }

    /// Writes the saved byte back over the trap instruction, reversing
    /// `write`. On failure no byte outside the machine word at `addr` has
    /// changed.
    pub fn restore_data(&self, t: &mut Tracee) -> (r: Option<()>)
        ensures
            final(t).rip() == old(t).rip(),
            r is Some ==> final(t).mem()[self.addr as int] == self.saved_data && forall|a: int|
                a != self.addr ==> #[trigger] final(t).mem()[a] == old(t).mem()[a],
            r is None ==> forall|a: int|
                !(self.addr <= a < self.addr + 8) ==> #[trigger] final(t).mem()[a] == old(
                    t,
                ).mem()[a],
    {
        let saved: [u8; 1] = [self.saved_data];
        match write_data(t, self.addr, &saved) {
            Ok(()) => Some(()),
            Err(_) => None,
        }
    }

    /// Rewinds the thread's instruction pointer to `addr`. Executing the trap
    /// instruction advanced the pointer past it; after a hit it must point at
    /// the breakpoint again before the real instruction can run.
    pub fn restore_rip(&self, t: &mut Tracee) -> (r: Option<()>)
        ensures
            forall|a: int| #[trigger] final(t).mem()[a] == old(t).mem()[a],
            r is Some ==> final(t).rip() == self.addr as u64,
            r is None ==> final(t).rip() == old(t).rip(),
    {
        t.write_rip(self.addr as u64)
    }

    /// Steps past the breakpoint after a hit has been restored: single-steps
    /// the thread (executing the original instruction), waits for the
    /// resulting stop, and re-arms the trap so future passes trap again.
    /// The trap is not re-armed when the stop says the tracee exited.
    pub fn run(&mut self, t: &mut Tracee) -> (r: Option<StopEvent>)
        ensures
            final(self).addr == old(self).addr,
            r matches Some(ev) ==> (!(ev matches StopEvent::Exited(_))
                ==> final(t).mem()[old(self).addr as int] == TRAP_INSTRUCTION),
    {
        match t.single_step() {
            Some(()) => {},
            None => {
                return None;
            },
        }
        let ev = match t.wait_for_stop() {
            Some(ev) => ev,
            None => {
                return None;
            },
        };
        if let StopEvent::Exited(_) = ev {
            return Some(ev);
        }
        match self.write(t) {
            Some(()) => Some(ev),
            None => None,
        }
    }
}

/// Breakpoint idempotence: installing a breakpoint and then restoring it
/// leaves every byte of the tracee's memory as it was. Here `m0` is the
/// memory before the install, `m1` the memory after it, constrained as
/// `write` ensures it, and `m2` the memory after the restore, constrained as
/// `restore_data` ensures it.
pub proof fn lemma_install_restore_identity(
    m0: Map<int, u8>,
    m1: Map<int, u8>,
    m2: Map<int, u8>,
    addr: int,
    saved: u8,
)
    requires
        saved == m0[addr],
        m1[addr] == TRAP_INSTRUCTION,
        forall|a: int| a != addr ==> #[trigger] m1[a] == m0[a],
        m2[addr] == saved,
        forall|a: int| a != addr ==> #[trigger] m2[a] == m1[a],
    ensures
        forall|a: int| #[trigger] m2[a] == m0[a],
{
}

} // verus!
