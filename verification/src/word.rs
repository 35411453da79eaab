//! Byte-level view of a machine word.
//!
//! The trace facility moves tracee memory one machine word at a time, so
//! byte-precise access is built by extracting and replacing single bytes of a
//! word. The word is seen as eight bytes, least significant first, matching
//! the native byte order of the x86_64 target.

use vstd::prelude::*;

verus! {

/// Number of bytes in a machine word of the target.
pub const WORD_SIZE: usize = 8;

/// Byte `i` of word `w`, counting from the least significant byte.
pub open spec fn wbyte(w: u64, i: int) -> u8
    recommends
        0 <= i < 8,
{
    (w >> ((8 * i) as u64)) as u8
}

/// Extracts byte `i` of `w`.
pub fn get_wbyte(w: u64, i: usize) -> (b: u8)
    requires
        i < 8,
    ensures
        b == wbyte(w, i as int),
{
    (w >> ((8 * i) as u64)) as u8
}

/// Replaces byte `i` of `w` with `b`, leaving the other bytes unchanged.
pub fn set_wbyte(w: u64, i: usize, b: u8) -> (r: u64)
    requires
        i < 8,
    ensures
        forall|j: int| 0 <= j < 8 ==> wbyte(r, j) == if j == i { b } else { wbyte(w, j) },
{
    let sh: u64 = 8 * (i as u64);
    let r: u64 = (w & !(0xffu64 << sh)) | ((b as u64) << sh);
    proof {
        assert forall|j: int| 0 <= j < 8 implies wbyte(r, j) == if j == i {
            b
        } else {
            wbyte(w, j)
        } by {
            let ju = j as u64;
            let iu = i as u64;
            assert(iu < 8 && ju < 8 ==> (((w & !(0xffu64 << (8 * iu))) | ((b as u64) << (8 * iu)))
                >> (8 * ju)) as u8 == if ju == iu {
                b
            } else {
                (w >> (8 * ju)) as u8
            }) by (bit_vector);
        }
    }
    r
}

} // verus!
