//! Depth ranks: integers that order visibility as the depths they stand for.
//!
//! A depth is carried through the compositor as the sign-magnitude integer
//! read from the bits of its IEEE 754 double. For every depth that is not a
//! NaN this integer orders as the depth does under IEEE 754, and the two
//! zeros both read as 0, so the compositor's strict comparison of ranks is
//! the comparison of the depths themselves.

use vstd::prelude::*;

verus! {

/// Mask of the 63 magnitude bits of a double.
pub const MAGNITUDE_MASK: u64 = 0x7fff_ffff_ffff_ffff;

/// The sign-magnitude integer held by the 64 bits of a double.
pub open spec fn rank_of_bits(bits: u64) -> int {
    let magnitude = (bits & MAGNITUDE_MASK) as int;
    if bits >> 63u64 == 1 {
        -magnitude
    } else {
        magnitude
    }
}

/// The depth rank of the double whose bit pattern is `bits`.
pub fn depth_rank(bits: u64) -> (r: i64)
    ensures
        r == rank_of_bits(bits),
{
    let magnitude = bits & MAGNITUDE_MASK;
    assert(bits & MAGNITUDE_MASK <= MAGNITUDE_MASK) by (bit_vector);
    if bits >> 63u64 == 1 {
        -(magnitude as i64)
    } else {
        magnitude as i64
    }
}

} // verus!
