//! Word-granular access to the stopped tracee's memory.
//!
//! The trace facility reads and writes one machine word at a time. Arbitrary
//! byte-precise access therefore splices words: a write whose tail is shorter
//! than a word first reads the word that is present, overlays only the
//! leading bytes, and writes the combined word back, so that no byte outside
//! the requested range ever changes.

use vstd::prelude::*;

use crate::trace::Tracee;
use crate::word::{get_wbyte, set_wbyte, wbyte, WORD_SIZE};

verus! {

/// Writes `buf` at `addr` in the stopped tracee's memory, one machine word at
/// a time, splicing the final partial word so that a successful write never
/// modifies a byte outside `addr..addr+buf.len()`. On failure, `Err(n)` says
/// exactly how many leading bytes were written, always a whole number of
/// words; the word whose write failed may be partially written (a word can
/// span a page boundary), but nothing beyond it is touched.
pub fn write_data(t: &mut Tracee, addr: usize, buf: &[u8]) -> (r: Result<(), usize>)
    requires
        addr + buf@.len() <= usize::MAX as int + 1,
    ensures
        final(t).rip() == old(t).rip(),
        r is Ok ==> forall|a: int|
            addr <= a < addr + buf@.len() ==> #[trigger] final(t).mem()[a] == buf@[a - addr],
        r is Ok ==> forall|a: int|
            !(addr <= a < addr + buf@.len()) ==> #[trigger] final(t).mem()[a] == old(t).mem()[a],
        r matches Err(n) ==> n < buf@.len() && n % WORD_SIZE == 0 && (forall|a: int|
            addr <= a < addr + n ==> #[trigger] final(t).mem()[a] == buf@[a - addr]) && (
        forall|a: int|
            !(addr <= a < addr + n + WORD_SIZE) ==> #[trigger] final(t).mem()[a] == old(
                t,
            ).mem()[a]),
{
    let len = buf.len();
    let mut off: usize = 0;
    while off < len
        invariant
            addr + len <= usize::MAX as int + 1,
            len == buf@.len(),
            off <= len,
            off % WORD_SIZE == 0 || off == len,
            t.rip() == old(t).rip(),
            forall|a: int| addr <= a < addr + off ==> #[trigger] t.mem()[a] == buf@[a - addr],
            forall|a: int| !(addr <= a < addr + off) ==> #[trigger] t.mem()[a] == old(t).mem()[a],
        decreases len - off,
    {
        let rest = len - off;
        if rest >= WORD_SIZE {
            let mut w: u64 = 0;
            let mut k: usize = 0;
            while k < WORD_SIZE
                invariant
                    k <= WORD_SIZE,
                    off + WORD_SIZE <= len,
                    len == buf@.len(),
                    forall|j: int| 0 <= j < k ==> #[trigger] wbyte(w, j) == buf@[off + j],
                decreases WORD_SIZE - k,
            {
                w = set_wbyte(w, k, buf[off + k]);
                k += 1;
            }
            match t.poke_word(addr + off, w) {
                Ok(()) => {},
                Err(()) => {
                    return Err(off);
                },
            }
            off += WORD_SIZE;
        } else {
            let present = match t.peek_word(addr + off) {
                Some(p) => p,
                None => {
                    return Err(off);
                },
            };
            let mut w: u64 = present;
            let mut k: usize = 0;
            while k < rest
                invariant
                    k <= rest,
                    rest < WORD_SIZE,
                    off + rest == len,
                    len == buf@.len(),
                    forall|j: int| 0 <= j < k ==> #[trigger] wbyte(w, j) == buf@[off + j],
                    forall|j: int| k <= j < 8 ==> #[trigger] wbyte(w, j) == wbyte(present, j),
                decreases rest - k,
            {
                w = set_wbyte(w, k, buf[off + k]);
                k += 1;
            }
            let ghost m1 = t.mem();
            match t.poke_word(addr + off, w) {
                Ok(()) => {},
                Err(()) => {
                    return Err(off);
                },
            }
            proof {
                assert forall|a: int| !(addr <= a < addr + len) implies #[trigger] t.mem()[a]
                    == old(t).mem()[a] by {
                    if addr + off <= a < addr + off + 8 {
                        assert(t.mem()[a] == wbyte(w, a - (addr + off)));
                        assert(wbyte(w, a - (addr + off)) == wbyte(present, a - (addr + off)));
                        assert(m1[a] == wbyte(present, a - (addr + off)));
                        assert(m1[a] == old(t).mem()[a]);
                    } else {
                        assert(t.mem()[a] == m1[a]);
                        assert(m1[a] == old(t).mem()[a]);
                    }
                }
                assert forall|a: int| addr <= a < addr + len implies #[trigger] t.mem()[a] == buf@[a
                    - addr] by {
                    if a < addr + off {
                        assert(t.mem()[a] == m1[a]);
                        assert(m1[a] == buf@[a - addr]);
                    } else {
                        assert(t.mem()[a] == wbyte(w, a - (addr + off)));
                        assert(wbyte(w, a - (addr + off)) == buf@[off + (a - (addr + off))]);
                    }
                }
            }
            off = len;
        }
    }
    Ok(())
}

/// Reads `n` bytes at `addr` from the stopped tracee's memory, failing if any
/// word access fails (for example when the tracee is gone or the address is
/// unmapped) rather than returning stale data.
pub fn read_data(t: &Tracee, addr: usize, n: usize) -> (r: Option<Vec<u8>>)
    requires
        addr + n <= usize::MAX as int + 1,
    ensures
        r matches Some(v) ==> v@.len() == n && forall|a: int|
            addr <= a < addr + n ==> #[trigger] t.mem()[a] == v@[a - addr],
        n == 0 ==> r is Some,
{
    let mut res: Vec<u8> = Vec::new();
    let mut off: usize = 0;
    while off < n
        invariant
            addr + n <= usize::MAX as int + 1,
            off <= n,
            res@.len() == off,
            forall|a: int| addr <= a < addr + off ==> #[trigger] t.mem()[a] == res@[a - addr],
        decreases n - off,
    {
        let w = match t.peek_word(addr + off) {
            Some(w) => w,
            None => {
                return None;
            },
        };
        let rest = n - off;
        let take = if rest >= WORD_SIZE {
            WORD_SIZE
        } else {
            rest
        };
        let mut k: usize = 0;
        while k < take
            invariant
                k <= take,
                take <= WORD_SIZE,
                off + take <= n,
                res@.len() == off + k,
                forall|a: int|
                    addr + off <= a < addr + off + 8 ==> #[trigger] t.mem()[a] == wbyte(
                        w,
                        a - addr - off,
                    ),
                forall|a: int| addr <= a < addr + off + k ==> #[trigger] t.mem()[a] == res@[a
                    - addr],
            decreases take - k,
        {
            res.push(get_wbyte(w, k));
            k += 1;
        }
        off += take;
    }
    Some(res)
}

/// Reads `N` bytes at `addr` from the stopped tracee's memory into a buffer
/// whose length is known at compile time.
pub fn read_data_fixed<const N: usize>(t: &Tracee, addr: usize) -> (r: Option<[u8; N]>)
    requires
        addr + N <= usize::MAX as int + 1,
    ensures
        r matches Some(b) ==> forall|a: int|
            addr <= a < addr + N ==> #[trigger] t.mem()[a] == b@[a - addr],
        N == 0 ==> r is Some,
{
    let v = match read_data(t, addr, N) {
        Some(v) => v,
        None => {
            return None;
        },
    };
    let mut res: [u8; N] = [0; N];
    let mut k: usize = 0;
    while k < N
        invariant
            k <= N,
            v@.len() == N,
            res@.len() == N,
            forall|a: int| addr <= a < addr + N ==> #[trigger] t.mem()[a] == v@[a - addr],
            forall|a: int| addr <= a < addr + k ==> #[trigger] t.mem()[a] == res@[a - addr],
        decreases N - k,
    {
        res[k] = v[k];
        k += 1;
    }
    Some(res)
}

/// Round-trip: a successful write of `data` at `addr` followed by a
/// successful read of the same length returns exactly `data`. Here `m` is the
/// tracee memory after the write, constrained as `write_data` ensures it, and
/// `out` is what `read_data` then returned.
pub proof fn lemma_write_read_round_trip(m: Map<int, u8>, addr: int, data: Seq<u8>, out: Seq<u8>)
    requires
        forall|a: int| addr <= a < addr + data.len() ==> #[trigger] m[a] == data[a - addr],
        out.len() == data.len(),
        forall|a: int| addr <= a < addr + out.len() ==> #[trigger] m[a] == out[a - addr],
    ensures
        out =~= data,
{
    assert forall|j: int| 0 <= j < data.len() implies out[j] == data[j] by {
        assert(m[addr + j] == data[j]);
        assert(m[addr + j] == out[j]);
    }
}

} // verus!
