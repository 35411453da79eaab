//! The debug session: pending breakpoint requests, the state machine that
//! classifies stop notifications, and the commands that drive the tracee.
//!
//! Between commands the session is in one of three states: no process (no
//! tracee attached), stopped at a breakpoint (`hit` records which one; its
//! trap byte is restored and the instruction pointer rewound to its address,
//! so the real instruction has not yet executed), or stopped for another
//! reason. The tracee only runs inside a command, which always ends by
//! waiting for and classifying the next stop notification.

use vstd::prelude::*;
use vstd::string::StringSliceAdditionalSpecFns;

use crate::breakpoint::{Breakpoint, TRAP_INSTRUCTION};
use crate::trace::{StopEvent, Tracee};

verus! {

/// A pre-launch breakpoint specification. Only the absolute-address form can
/// be resolved today; line and symbol forms need debug-info resolution and
/// are an open extension point behind this same request type.
pub enum BreakpointArg {
    /// An absolute virtual address in the tracee's address space.
    Address(usize),
    /// A line of a source file; unresolvable without debug information.
    LineNumber(String, usize),
    /// A symbol name; unresolvable without debug information.
    Symbol(String),
}

/// Is `b` the ASCII code of a hexadecimal digit? (digits 48..57 are `0`..`9`,
/// 97..102 are `a`..`f`, 65..70 are `A`..`F`)
pub open spec fn is_hex_digit(b: u8) -> bool {
    (48 <= b <= 57) || (97 <= b <= 102) || (65 <= b <= 70)
}

/// The value of one hexadecimal digit, given by ASCII code.
pub open spec fn hex_digit_value(b: u8) -> nat
    recommends
        is_hex_digit(b),
{
    if 48 <= b <= 57 {
        (b - 48) as nat
    } else if 97 <= b <= 102 {
        (b - 97 + 10) as nat
    } else {
        (b - 65 + 10) as nat
    }
}

/// The value of a string of hexadecimal digits, most significant first.
pub open spec fn hex_value(s: Seq<u8>) -> nat
    decreases s.len(),
{
    if s.len() == 0 {
        0
    } else {
        hex_value(s.drop_last()) * 16 + hex_digit_value(s.last())
    }
}

/// A well-formed address argument: `0x` (ASCII 48, 120) followed by at least
/// one hex digit.
pub open spec fn is_hex_address(s: Seq<u8>) -> bool {
    s.len() > 2 && s[0] == 48 && s[1] == 120 && (forall|i: int|
        2 <= i < s.len() ==> is_hex_digit(#[trigger] s[i]))
}

/// A digit string is worth at least any of its prefixes.
proof fn lemma_hex_value_prefix_le(s: Seq<u8>, k: int)
    requires
        0 <= k <= s.len(),
    ensures
        hex_value(s.take(k)) <= hex_value(s),
    decreases s.len() - k,
{
    if k < s.len() {
        assert(s.take(k + 1).drop_last() =~= s.take(k));
        lemma_hex_value_prefix_le(s, k + 1);
    } else {
        assert(s.take(k) =~= s);
    }
}

impl BreakpointArg {
    /// Parses one breakpoint argument. Only the absolute hexadecimal form
    /// `0x<digits>` is accepted; any other form, and a value that does not
    /// fit the machine's address width, is rejected.
    pub fn parse(arg: &str) -> (r: Option<BreakpointArg>)
        ensures
            r is Some <==> is_hex_address(arg.spec_bytes()) && hex_value(
                arg.spec_bytes().skip(2),
            ) <= usize::MAX,
            r matches Some(b) ==> b matches BreakpointArg::Address(a) && a == hex_value(
                arg.spec_bytes().skip(2),
            ),
    {
        let bytes = arg.as_bytes();
        let n = bytes.len();
        if n <= 2 {
            return None;
        }
        if !(bytes[0] == 48 && bytes[1] == 120) {
            return None;
        }
        let ghost digits = bytes@.skip(2);
        let mut acc: usize = 0;
        let mut i: usize = 2;
        while i < n
            invariant
                2 <= i <= n,
                n == bytes@.len(),
                2 < bytes@.len(),
                bytes@ == arg.spec_bytes(),
                bytes@[0] == 48,
                bytes@[1] == 120,
                digits == bytes@.skip(2),
                acc == hex_value(digits.take(i - 2)),
                forall|j: int| 0 <= j < i - 2 ==> is_hex_digit(#[trigger] digits[j]),
            decreases n - i,
        {
            let b = bytes[i];
            let d: usize;
            if 48 <= b && b <= 57 {
                d = (b - 48) as usize;
            } else if 97 <= b && b <= 102 {
                d = (b - 97) as usize + 10;
            } else if 65 <= b && b <= 70 {
                d = (b - 65) as usize + 10;
            } else {
                proof {
                    assert(digits[i - 2] == bytes@[i as int]);
                    assert(!is_hex_digit(arg.spec_bytes()[i as int]));
                }
                return None;
            }
            proof {
                assert(digits[i - 2] == bytes@[i as int]);
                assert(d == hex_digit_value(digits[i - 2]));
                assert(digits.take(i - 1).drop_last() =~= digits.take(i - 2));
                assert(digits.take(i - 1).last() == digits[i - 2]);
            }
            let next = match acc.checked_mul(16) {
                Some(m) => m.checked_add(d),
                None => None,
            };
            acc = match next {
                Some(v) => v,
                None => {
                    proof {
                        assert(hex_value(digits.take(i - 1)) > usize::MAX);
                        lemma_hex_value_prefix_le(digits, i - 1);
                    }
                    return None;
                },
            };
            i += 1;
        }
        proof {
            assert(digits.take(n - 2) =~= digits);
            assert forall|ii: int| 2 <= ii < bytes@.len() implies is_hex_digit(
                #[trigger] bytes@[ii],
            ) by {
                assert(digits[ii - 2] == bytes@[ii]);
            }
        }
        Some(BreakpointArg::Address(acc))
    }

    /// The absolute address this request names. Only the address form can be
    /// resolved without debug information, so only it is allowed here.
    pub fn to_address(&self) -> (a: usize)
        requires
            self is Address,
        ensures
            self == BreakpointArg::Address(a),
    {
        match self {
            BreakpointArg::Address(addr) => *addr,
            BreakpointArg::LineNumber(_, _) => {
                proof {
                    assert(false);
                }
                0
            },
            BreakpointArg::Symbol(_) => {
                proof {
                    assert(false);
                }
                0
            },
        }
    }
}

/// What one stop notification meant, as reported to the operator.
pub enum StopReport {
    /// The tracee exited with this code; the session has no process now.
    Exited(i32),
    /// Breakpoint `index` (counting from zero) at `addr` was hit: its trap
    /// byte is restored and the instruction pointer rewound to `addr`.
    Hit { index: usize, addr: usize },
    /// A trap stop that matches no breakpoint (a completed single step, or an
    /// unrelated trap): the tracee sits at this instruction pointer.
    Interrupted(u64),
    /// The tracee stopped on a non-trap signal, given by number.
    SignalStop(i32),
    /// Some other notification (terminated by a signal, a trace event, ...).
    OtherStop,
    /// The wait call reported no state change, which its contract rules out:
    /// a broken assumption about the trace facility, fatal to the caller.
    ProtocolViolation,
    /// A trace-facility call failed; the command loop treats this as fatal
    /// to the whole debugger.
    TraceFailure,
}

/// Breakpoint `i` explains a trap that stopped with instruction pointer
/// `rip`: the trap instruction fires one byte past the address it was
/// installed at, and no earlier breakpoint matches.
pub open spec fn explains_trap(bps: Seq<Breakpoint>, rip: u64, i: int) -> bool {
    &&& 0 <= i < bps.len()
    &&& bps[i].addr + 1 == rip
    &&& forall|j: int| 0 <= j < i ==> (#[trigger] bps[j].addr) + 1 != rip
}

/// Finds the first breakpoint whose address sits one byte before `rip`.
pub fn find_hit(bps: &Vec<Breakpoint>, rip: u64) -> (r: Option<usize>)
    ensures
        r matches Some(i) ==> explains_trap(bps@, rip, i as int),
        r is None ==> forall|j: int| 0 <= j < bps@.len() ==> (#[trigger] bps@[j].addr) + 1 != rip,
{
    let mut i: usize = 0;
    while i < bps.len()
        invariant
            i <= bps@.len(),
            forall|j: int| 0 <= j < i ==> (#[trigger] bps@[j].addr) + 1 != rip,
        decreases bps@.len() - i,
    {
        if rip >= 1 && bps[i].addr as u64 == rip - 1 {
            return Some(i);
        }
        i += 1;
    }
    None
}

/// One debug session: at most one tracee, the breakpoints installed in it,
/// the pending requests for the next launch, and which breakpoint (if any)
/// the tracee currently sits on.
pub struct Session {
    tracee: Option<Tracee>,
    breakpoints: Vec<Breakpoint>,
    requests: Vec<usize>,
    hit_index: Option<usize>,
}

impl Session {
    /// Is a tracee attached?
    pub closed spec fn attached(&self) -> bool {
        self.tracee is Some
    }

    /// The attached tracee's memory model.
    pub closed spec fn mem(&self) -> Map<int, u8>
        recommends
            self.attached(),
    {
        self.tracee->Some_0.mem()
    }

    /// The attached tracee's instruction pointer.
    pub closed spec fn rip(&self) -> u64
        recommends
            self.attached(),
    {
        self.tracee->Some_0.rip()
    }

    /// The breakpoints installed in the current tracee.
    pub closed spec fn bps(&self) -> Seq<Breakpoint> {
        self.breakpoints@
    }

    /// The pending breakpoint requests, as absolute addresses.
    pub closed spec fn reqs(&self) -> Seq<usize> {
        self.requests@
    }

    /// The breakpoint the tracee currently sits on, if any.
    pub closed spec fn hit(&self) -> Option<usize> {
        self.hit_index
    }

    /// Well-formedness: a recorded hit names an installed breakpoint;
    /// without a tracee there are no breakpoints and no hit; and no address
    /// carries two breakpoints or two requests, so that installing and
    /// restoring them never overlap.
    pub open spec fn wf(&self) -> bool {
        &&& (self.hit() matches Some(i) ==> self.attached() && i < self.bps().len())
        &&& (!self.attached() ==> self.bps().len() == 0 && self.hit() is None)
        &&& (forall|i: int, j: int|
            0 <= i < j < self.bps().len() ==> (#[trigger] self.bps()[i].addr) != (
            #[trigger] self.bps()[j].addr))
        &&& (forall|i: int, j: int|
            0 <= i < j < self.reqs().len() ==> (#[trigger] self.reqs()[i]) != (
            #[trigger] self.reqs()[j]))
    }

    /// A fresh session: no process, no requests.
    pub fn new() -> (s: Session)
        ensures
            s.wf(),
            !s.attached(),
            s.reqs().len() == 0,
    {
        Session { tracee: None, breakpoints: Vec::new(), requests: Vec::new(), hit_index: None }
    }

    /// Does a tracee exist right now?
    pub fn is_attached(&self) -> (r: bool)
        ensures
            r == self.attached(),
    {
        self.tracee.is_some()
    }

    /// Adds a pending breakpoint request, to be installed at the next launch.
    /// Returns its ordinal (counting from one). Rejected: a form that cannot
    /// be resolved to an address, and an address already requested.
    pub fn add_request(&mut self, arg: &BreakpointArg) -> (r: Option<usize>)
        requires
            old(self).wf(),
        ensures
            final(self).wf(),
            final(self).attached() == old(self).attached(),
            final(self).bps() == old(self).bps(),
            final(self).hit() == old(self).hit(),
            r is Some <==> (arg matches BreakpointArg::Address(a) && !old(self).reqs().contains(
                *a,
            )),
            r matches Some(n) ==> arg matches BreakpointArg::Address(a) && final(self).reqs()
                == old(self).reqs().push(*a) && n == final(self).reqs().len(),
            r is None ==> final(self).reqs() == old(self).reqs(),
    {
        let addr: usize = match arg {
            BreakpointArg::Address(a) => *a,
            BreakpointArg::LineNumber(_, _) => {
                return None;
            },
            BreakpointArg::Symbol(_) => {
                return None;
            },
        };
        let mut i: usize = 0;
        while i < self.requests.len()
            invariant
                i <= self.requests@.len(),
                self == old(self),
                self.wf(),
                arg matches BreakpointArg::Address(x) && x == addr,
                forall|j: int| 0 <= j < i ==> (#[trigger] self.requests@[j]) != addr,
            decreases self.requests@.len() - i,
        {
            if self.requests[i] == addr {
                proof {
                    assert(old(self).reqs()[i as int] == addr);
                    assert(old(self).reqs().contains(addr));
                }
                return None;
            }
            i += 1;
        }
        self.requests.push(addr);
        proof {
            let ghost r0 = old(self).reqs();
            assert forall|p: int, q: int|
                0 <= p < q < self.reqs().len() implies (#[trigger] self.reqs()[p]) != (
            #[trigger] self.reqs()[q]) by {
                if q < r0.len() {
                    assert(r0[p] != r0[q]);
                } else {
                    assert(self.reqs()[q] == addr);
                    assert(r0[p] != addr);
                }
            }
            assert(old(self).wf());
            assert(self.hit() == old(self).hit());
            assert(self.bps() == old(self).bps());
            assert(self.attached() == old(self).attached());
        }
        Some(self.requests.len())
    }

    /// The stopped thread's full register snapshot as display text, or
    /// `None` when there is no tracee or the read fails.
    pub fn registers_text(&self) -> (r: Option<String>)
        ensures
            !self.attached() ==> r is None,
    {
        match &self.tracee {
            Some(t) => t.registers_text(),
            None => None,
        }
    }

    /// The stopped thread's instruction pointer, straight from its register
    /// snapshot, or `None` when there is no tracee or the read fails.
    pub fn instruction_pointer(&self) -> (r: Option<u64>)
        ensures
            r matches Some(p) ==> self.attached() && p == self.rip(),
            !self.attached() ==> r is None,
    {
        match &self.tracee {
            Some(t) => t.read_rip(),
            None => None,
        }
    }

    /// Forcibly terminates the tracee (if any) and forgets it. Returns what
    /// the kill request said; `Some(())` when there was nothing to kill.
    pub fn kill_tracee(&mut self) -> (r: Option<()>)
        requires
            old(self).wf(),
        ensures
            final(self).wf(),
            !final(self).attached(),
            final(self).reqs() == old(self).reqs(),
            !old(self).attached() ==> r is Some,
    {
        let t_opt = self.tracee.take();
        self.breakpoints = Vec::new();
        self.hit_index = None;
        proof {
            assert(self.reqs() =~= old(self).reqs());
            assert forall|i: int, j: int|
                0 <= i < j < self.reqs().len() implies (#[trigger] self.reqs()[i]) != (
            #[trigger] self.reqs()[j]) by {
                assert(old(self).reqs()[i] != old(self).reqs()[j]);
            }
        }
        match t_opt {
            Some(t) => t.kill(),
            None => Some(()),
        }
    }
}


/// Pairwise distinctness of requested addresses carries over to an equal
/// sequence.
proof fn lemma_reqs_distinct(s0: Seq<usize>, s1: Seq<usize>)
    requires
        s1 =~= s0,
        forall|p: int, q: int| 0 <= p < q < s0.len() ==> (#[trigger] s0[p]) != (#[trigger] s0[q]),
    ensures
        forall|p: int, q: int| 0 <= p < q < s1.len() ==> (#[trigger] s1[p]) != (#[trigger] s1[q]),
{
}

/// Pairwise distinctness of breakpoint addresses carries over to a sequence
/// with the same addresses.
proof fn lemma_bp_addrs_distinct(b0: Seq<Breakpoint>, b1: Seq<Breakpoint>)
    requires
        b1.len() == b0.len(),
        forall|k: int| 0 <= k < b1.len() ==> (#[trigger] b1[k].addr) == b0[k].addr,
        forall|p: int, q: int|
            0 <= p < q < b0.len() ==> (#[trigger] b0[p].addr) != (#[trigger] b0[q].addr),
    ensures
        forall|p: int, q: int|
            0 <= p < q < b1.len() ==> (#[trigger] b1[p].addr) != (#[trigger] b1[q].addr),
{
}

/// How a classified stop report constrains the session that produced it.
/// After a hit, every breakpoint's trap byte is restored (memory shows the
/// program's own bytes), the hit is recorded, and the instruction pointer is
/// rewound to the breakpoint's address, not one past it.
pub open spec fn report_ok(s: Session, r: StopReport) -> bool {
    &&& (r matches StopReport::Exited(_) ==> !s.attached() && s.bps().len() == 0)
    &&& (r matches StopReport::Hit { index, addr } ==> {
        &&& s.attached()
        &&& s.hit() == Some(index)
        &&& index < s.bps().len()
        &&& s.bps()[index as int].addr == addr
        &&& s.rip() == addr as u64
        &&& forall|k: int|
            0 <= k < s.bps().len() ==> (#[trigger] s.mem()[s.bps()[k].addr as int])
                == s.bps()[k].saved_data
    })
    &&& (!(r matches StopReport::Exited(_)) && !(r matches StopReport::Hit { .. })
        ==> s.attached() && s.hit() is None)
}

impl Session {
    /// Re-installs the trap instruction of every breakpoint but `skip`; they
    /// were all restored when the previous stop was classified. Stops and
    /// returns false as soon as one write fails.
    fn rearm_except(&mut self, skip: Option<usize>, t: &mut Tracee) -> (ok: bool)
        requires
            forall|p: int, q: int|
                0 <= p < q < old(self).breakpoints@.len() ==> (
                #[trigger] old(self).breakpoints@[p].addr) != (
                #[trigger] old(self).breakpoints@[q].addr),
        ensures
            final(self).breakpoints@.len() == old(self).breakpoints@.len(),
            forall|k: int|
                0 <= k < old(self).breakpoints@.len() ==> (
                #[trigger] final(self).breakpoints@[k].addr) == old(self).breakpoints@[k].addr,
            final(self).requests@ == old(self).requests@,
            final(self).tracee == old(self).tracee,
            final(self).hit_index == old(self).hit_index,
            final(t).rip() == old(t).rip(),
            forall|p: int, q: int|
                0 <= p < q < final(self).breakpoints@.len() ==> (
                #[trigger] final(self).breakpoints@[p].addr) != (
                #[trigger] final(self).breakpoints@[q].addr),
            ok ==> forall|k: int|
                0 <= k < final(self).breakpoints@.len() && (skip matches Some(s) ==> k != s)
                    ==> #[trigger] final(t).mem()[final(self).breakpoints@[k].addr as int]
                    == TRAP_INSTRUCTION,
    {
        let mut j: usize = 0;
        while j < self.breakpoints.len()
            invariant
                j <= self.breakpoints@.len(),
                self.breakpoints@.len() == old(self).breakpoints@.len(),
                forall|k: int|
                    0 <= k < old(self).breakpoints@.len() ==> (
                    #[trigger] self.breakpoints@[k].addr) == old(self).breakpoints@[k].addr,
                self.requests@ == old(self).requests@,
                self.tracee == old(self).tracee,
                self.hit_index == old(self).hit_index,
                t.rip() == old(t).rip(),
                forall|p: int, q: int|
                    0 <= p < q < old(self).breakpoints@.len() ==> (
                    #[trigger] old(self).breakpoints@[p].addr) != (
                    #[trigger] old(self).breakpoints@[q].addr),
                forall|k: int|
                    0 <= k < j && (skip matches Some(s) ==> k != s)
                        ==> #[trigger] t.mem()[self.breakpoints@[k].addr as int]
                        == TRAP_INSTRUCTION,
            decreases self.breakpoints@.len() - j,
        {
            let do_write = match skip {
                Some(s) => j != s,
                None => true,
            };
            if do_write {
                let mut bp = self.breakpoints[j];
                let ok = bp.write(t);
                self.breakpoints[j] = bp;
                if ok.is_none() {
                    proof {
                        assert forall|p: int, q: int|
                            0 <= p < q < self.breakpoints@.len() implies (
                        #[trigger] self.breakpoints@[p].addr) != (
                        #[trigger] self.breakpoints@[q].addr) by {
                            assert(old(self).breakpoints@[p].addr != old(
                                self,
                            ).breakpoints@[q].addr);
                        }
                    }
                    return false;
                }
                proof {
                    assert(forall|k: int|
                        0 <= k < j ==> self.breakpoints@[k].addr != self.breakpoints@[
                        j as int].addr);
                }
            }
            j += 1;
        }
        proof {
            assert forall|p: int, q: int|
                0 <= p < q < self.breakpoints@.len() implies (
            #[trigger] self.breakpoints@[p].addr) != (#[trigger] self.breakpoints@[q].addr) by {
                assert(old(self).breakpoints@[p].addr != old(self).breakpoints@[q].addr);
            }
        }
        true
    }

    /// Classifies one stop notification and updates the session accordingly.
    ///
    /// An exit ends the session and drops the breakpoints. A trap stop first
    /// restores every breakpoint's trap byte, so inspection sees the
    /// program's own bytes, then matches the instruction pointer against the
    /// breakpoints (the trap fires one byte past its address): on a match the
    /// pointer is rewound to the breakpoint and the hit recorded, otherwise
    /// the stop is an interrupt at the current pointer. Other signals and
    /// notifications change no breakpoint state.
    pub fn handle_stop(&mut self, ev: StopEvent) -> (r: StopReport)
        requires
            old(self).wf(),
            old(self).attached(),
            old(self).hit() is None,
        ensures
            final(self).wf(),
            final(self).reqs() == old(self).reqs(),
            report_ok(*final(self), r),
            ev matches StopEvent::Exited(c) ==> r == StopReport::Exited(c),
            ev matches StopEvent::StoppedSignal(s) ==> r == StopReport::SignalStop(s)
                && *final(self) == *old(self),
            ev is StillAlive ==> r == StopReport::ProtocolViolation && *final(self) == *old(self),
            ev is Other ==> r == StopReport::OtherStop && *final(self) == *old(self),
            ev is StoppedTrap ==> (r matches StopReport::Hit { index, addr } ==> explains_trap(
                old(self).bps(),
                old(self).rip(),
                index as int,
            ) && addr == old(self).bps()[index as int].addr),
            ev is StoppedTrap ==> (r matches StopReport::Interrupted(p) ==> p == old(self).rip()
                && (forall|j: int|
                0 <= j < old(self).bps().len() ==> (#[trigger] old(self).bps()[j].addr) + 1
                    != old(self).rip()) && (forall|k: int|
                0 <= k < final(self).bps().len()
                    ==> (#[trigger] final(self).mem()[final(self).bps()[k].addr as int])
                    == final(self).bps()[k].saved_data)),
            ev is StoppedTrap ==> (r matches StopReport::Hit { .. } || r matches
                StopReport::Interrupted(_) || r == StopReport::TraceFailure),
            !(ev matches StopEvent::Exited(_)) ==> final(self).bps().len() == old(self).bps().len()
                && (forall|k: int|
                0 <= k < old(self).bps().len() ==> (#[trigger] final(self).bps()[k].addr)
                    == old(self).bps()[k].addr),
    {
        match ev {
            StopEvent::Exited(code) => {
                self.tracee = None;
                self.breakpoints = Vec::new();
                self.hit_index = None;
                proof {
                    assert(self.reqs() =~= old(self).reqs());
                    assert forall|p: int, q: int|
                        0 <= p < q < self.reqs().len() implies (#[trigger] self.reqs()[p]) != (
                    #[trigger] self.reqs()[q]) by {
                        assert(old(self).reqs()[p] != old(self).reqs()[q]);
                    }
                }
                StopReport::Exited(code)
            },
            StopEvent::StoppedTrap => {
                let mut t = match self.tracee.take() {
                    Some(t) => t,
                    None => {
                        proof {
                            assert(false);
                        }
                        return StopReport::TraceFailure;
                    },
                };
                let ghost rip0 = t.rip();
                let mut i: usize = 0;
                while i < self.breakpoints.len()
                    invariant
                        i <= self.breakpoints@.len(),
                        self.breakpoints@ == old(self).bps(),
                        self.requests@ == old(self).reqs(),
                        ev is StoppedTrap,
                        self.hit_index is None,
                        self.tracee is None,
                        old(self).wf(),
                        t.rip() == rip0,
                        forall|k: int|
                            0 <= k < i ==> #[trigger] t.mem()[self.breakpoints@[k].addr as int]
                                == self.breakpoints@[k].saved_data,
                    decreases self.breakpoints@.len() - i,
                {
                    let bp = self.breakpoints[i];
                    match bp.restore_data(&mut t) {
                        Some(()) => {},
                        None => {
                            self.tracee = Some(t);
                            return StopReport::TraceFailure;
                        },
                    }
                    proof {
                        assert(forall|k: int|
                            0 <= k < i ==> self.breakpoints@[k].addr != self.breakpoints@[
                            i as int].addr);
                    }
                    i += 1;
                }
                let rip = match t.read_rip() {
                    Some(p) => p,
                    None => {
                        self.tracee = Some(t);
                        return StopReport::TraceFailure;
                    },
                };
                match find_hit(&self.breakpoints, rip) {
                    Some(idx) => {
                        let bp = self.breakpoints[idx];
                        match bp.restore_rip(&mut t) {
                            Some(()) => {},
                            None => {
                                self.tracee = Some(t);
                                return StopReport::TraceFailure;
                            },
                        }
                        self.tracee = Some(t);
                        self.hit_index = Some(idx);
                        StopReport::Hit { index: idx, addr: bp.addr }
                    },
                    None => {
                        self.tracee = Some(t);
                        StopReport::Interrupted(rip)
                    },
                }
            },
            StopEvent::StoppedSignal(sig) => StopReport::SignalStop(sig),
            StopEvent::StillAlive => StopReport::ProtocolViolation,
            StopEvent::Other => StopReport::OtherStop,
        }
    }

    /// Launch handoff: takes charge of a freshly stopped tracee whose program
    /// image is loaded but not yet running, installs one breakpoint per
    /// pending request, resumes the tracee, waits for the first stop, and
    /// classifies it.
    pub fn start(&mut self, tracee: Tracee) -> (r: StopReport)
        requires
            old(self).wf(),
            !old(self).attached(),
        ensures
            final(self).wf(),
            final(self).reqs() == old(self).reqs(),
            report_ok(*final(self), r),
            !(r matches StopReport::Exited(_)) && r != StopReport::TraceFailure
                ==> final(self).bps().len() == old(self).reqs().len() && (forall|k: int|
                0 <= k < old(self).reqs().len() ==> (#[trigger] final(self).bps()[k].addr)
                    == old(self).reqs()[k]),
    {
        let mut t = tracee;
        let mut i: usize = 0;
        while i < self.requests.len()
            invariant
                i <= self.requests@.len(),
                self.requests@ == old(self).reqs(),
                self.breakpoints@.len() == i,
                self.tracee is None,
                self.hit_index is None,
                old(self).wf(),
                forall|k: int|
                    0 <= k < i ==> (#[trigger] self.breakpoints@[k].addr) == self.requests@[k],
            decreases self.requests@.len() - i,
        {
            let addr = self.requests[i];
            match Breakpoint::create(addr, &mut t) {
                Some(bp) => {
                    self.breakpoints.push(bp);
                },
                None => {
                    self.tracee = Some(t);
                    proof {
                        assert forall|p: int, q: int|
                            0 <= p < q < self.bps().len() implies (#[trigger] self.bps()[p].addr)
                            != (#[trigger] self.bps()[q].addr) by {
                            assert(old(self).reqs()[p] != old(self).reqs()[q]);
                        }
                    }
                    return StopReport::TraceFailure;
                },
            }
            i += 1;
        }
        proof {
            assert forall|p: int, q: int|
                0 <= p < q < self.bps().len() implies (#[trigger] self.bps()[p].addr) != (
            #[trigger] self.bps()[q].addr) by {
                assert(old(self).reqs()[p] != old(self).reqs()[q]);
            }
        }
        match t.resume() {
            Some(()) => {},
            None => {
                self.tracee = Some(t);
                return StopReport::TraceFailure;
            },
        }
        let ev = match t.wait_for_stop() {
            Some(ev) => ev,
            None => {
                self.tracee = Some(t);
                return StopReport::TraceFailure;
            },
        };
        self.tracee = Some(t);
        self.handle_stop(ev)
    }

    /// Resumes the tracee. From a breakpoint hit this first re-installs
    /// every other breakpoint's trap, steps past the hit one and re-arms it,
    /// then lets the tracee run; from any other stop it re-installs every
    /// breakpoint and lets it run. Ends by classifying the next stop.
    pub fn cont(&mut self) -> (r: StopReport)
        requires
            old(self).wf(),
            old(self).attached(),
        ensures
            final(self).wf(),
            final(self).reqs() == old(self).reqs(),
            report_ok(*final(self), r),
            !(r matches StopReport::Exited(_)) ==> final(self).bps().len()
                == old(self).bps().len() && (forall|k: int|
                0 <= k < old(self).bps().len() ==> (#[trigger] final(self).bps()[k].addr)
                    == old(self).bps()[k].addr),
    {
        let mut t = match self.tracee.take() {
            Some(t) => t,
            None => {
                proof {
                    assert(false);
                }
                return StopReport::TraceFailure;
            },
        };
        match self.hit_index {
            Some(idx) => {
                self.hit_index = None;
                if !self.rearm_except(Some(idx), &mut t) {
                    self.tracee = Some(t);
                    proof {
                        lemma_reqs_distinct(old(self).reqs(), self.reqs());
                        lemma_bp_addrs_distinct(old(self).bps(), self.bps());
                    }
                    return StopReport::TraceFailure;
                }
                let mut bp = self.breakpoints[idx];
                let ghost addr0 = bp.addr;
                let stepped = bp.run(&mut t);
                self.breakpoints[idx] = bp;
                proof {
                    assert(bp.addr == addr0);
                    assert forall|k: int|
                        0 <= k < self.breakpoints@.len() implies (
                    #[trigger] self.breakpoints@[k].addr) == old(self).bps()[k].addr by {}
                    assert forall|p: int, q: int|
                        0 <= p < q < self.breakpoints@.len() implies (
                    #[trigger] self.breakpoints@[p].addr) != (
                    #[trigger] self.breakpoints@[q].addr) by {
                        assert(old(self).bps()[p].addr != old(self).bps()[q].addr);
                    }
                }
                let ev = match stepped {
                    Some(ev) => ev,
                    None => {
                        self.tracee = Some(t);
                        proof {
                            lemma_reqs_distinct(old(self).reqs(), self.reqs());
                            lemma_bp_addrs_distinct(old(self).bps(), self.bps());
                        }
                        return StopReport::TraceFailure;
                    },
                };
                if let StopEvent::Exited(_) = ev {
                    self.tracee = Some(t);
                    proof {
                        lemma_reqs_distinct(old(self).reqs(), self.reqs());
                        lemma_bp_addrs_distinct(old(self).bps(), self.bps());
                    }
                    return self.handle_stop(ev);
                }
            },
            None => {
                if !self.rearm_except(None, &mut t) {
                    self.tracee = Some(t);
                    proof {
                        lemma_reqs_distinct(old(self).reqs(), self.reqs());
                        lemma_bp_addrs_distinct(old(self).bps(), self.bps());
                    }
                    return StopReport::TraceFailure;
                }
            },
        }
        match t.resume() {
            Some(()) => {},
            None => {
                self.tracee = Some(t);
                proof {
                    lemma_reqs_distinct(old(self).reqs(), self.reqs());
                    lemma_bp_addrs_distinct(old(self).bps(), self.bps());
                }
                return StopReport::TraceFailure;
            },
        }
        let ev = match t.wait_for_stop() {
            Some(ev) => ev,
            None => {
                self.tracee = Some(t);
                proof {
                    lemma_reqs_distinct(old(self).reqs(), self.reqs());
                    lemma_bp_addrs_distinct(old(self).bps(), self.bps());
                }
                return StopReport::TraceFailure;
            },
        };
        self.tracee = Some(t);
        proof {
            lemma_reqs_distinct(old(self).reqs(), self.reqs());
            lemma_bp_addrs_distinct(old(self).bps(), self.bps());
        }
        self.handle_stop(ev)
    }

    /// Executes one machine instruction. From a breakpoint hit, stepping
    /// past the hit breakpoint (re-arming it) is itself the requested step,
    /// so no further resume is issued; from any other stop every breakpoint
    /// is re-installed and the thread single-stepped directly. Ends by
    /// classifying the resulting stop.
    pub fn stepi(&mut self) -> (r: StopReport)
        requires
            old(self).wf(),
            old(self).attached(),
        ensures
            final(self).wf(),
            final(self).reqs() == old(self).reqs(),
            report_ok(*final(self), r),
            !(r matches StopReport::Exited(_)) ==> final(self).bps().len()
                == old(self).bps().len() && (forall|k: int|
                0 <= k < old(self).bps().len() ==> (#[trigger] final(self).bps()[k].addr)
                    == old(self).bps()[k].addr),
    {
        let mut t = match self.tracee.take() {
            Some(t) => t,
            None => {
                proof {
                    assert(false);
                }
                return StopReport::TraceFailure;
            },
        };
        match self.hit_index {
            Some(idx) => {
                self.hit_index = None;
                if !self.rearm_except(Some(idx), &mut t) {
                    self.tracee = Some(t);
                    proof {
                        lemma_reqs_distinct(old(self).reqs(), self.reqs());
                        lemma_bp_addrs_distinct(old(self).bps(), self.bps());
                    }
                    return StopReport::TraceFailure;
                }
                let mut bp = self.breakpoints[idx];
                let ghost addr0 = bp.addr;
                let stepped = bp.run(&mut t);
                self.breakpoints[idx] = bp;
                proof {
                    assert(bp.addr == addr0);
                    assert forall|k: int|
                        0 <= k < self.breakpoints@.len() implies (
                    #[trigger] self.breakpoints@[k].addr) == old(self).bps()[k].addr by {}
                    assert forall|p: int, q: int|
                        0 <= p < q < self.breakpoints@.len() implies (
                    #[trigger] self.breakpoints@[p].addr) != (
                    #[trigger] self.breakpoints@[q].addr) by {
                        assert(old(self).bps()[p].addr != old(self).bps()[q].addr);
                    }
                }
                let ev = match stepped {
                    Some(ev) => ev,
                    None => {
                        self.tracee = Some(t);
                        proof {
                            lemma_reqs_distinct(old(self).reqs(), self.reqs());
                            lemma_bp_addrs_distinct(old(self).bps(), self.bps());
                        }
                        return StopReport::TraceFailure;
                    },
                };
                self.tracee = Some(t);
                proof {
                    lemma_reqs_distinct(old(self).reqs(), self.reqs());
                    lemma_bp_addrs_distinct(old(self).bps(), self.bps());
                }
                self.handle_stop(ev)
            },
            None => {
                if !self.rearm_except(None, &mut t) {
                    self.tracee = Some(t);
                    proof {
                        lemma_reqs_distinct(old(self).reqs(), self.reqs());
                        lemma_bp_addrs_distinct(old(self).bps(), self.bps());
                    }
                    return StopReport::TraceFailure;
                }
                match t.single_step() {
                    Some(()) => {},
                    None => {
                        self.tracee = Some(t);
                        proof {
                            lemma_reqs_distinct(old(self).reqs(), self.reqs());
                            lemma_bp_addrs_distinct(old(self).bps(), self.bps());
                        }
                        return StopReport::TraceFailure;
                    },
                }
                let ev = match t.wait_for_stop() {
                    Some(ev) => ev,
                    None => {
                        self.tracee = Some(t);
                        proof {
                            lemma_reqs_distinct(old(self).reqs(), self.reqs());
                            lemma_bp_addrs_distinct(old(self).bps(), self.bps());
                        }
                        return StopReport::TraceFailure;
                    },
                };
                self.tracee = Some(t);
                proof {
                    lemma_reqs_distinct(old(self).reqs(), self.reqs());
                    lemma_bp_addrs_distinct(old(self).bps(), self.bps());
                }
                self.handle_stop(ev)
            },
        }
    }
}

} // verus!

