//! Item classification bits as they appear on the wire.

use vstd::prelude::*;

verus! {

pub const ADVANCEMENT: u32 = 1;

pub const USEFUL: u32 = 2;

pub const TRAP: u32 = 4;

/// Whether the trap bit is set.
pub open spec fn trap_bit(flags: u32) -> bool {
    (flags / 4) % 2 == 1
}

/// Whether an item is a trap, the only classification that is read here.
pub fn is_trap(flags: u32) -> (r: bool)
    ensures
        r == trap_bit(flags),
{
    assert((flags & 4 != 0) == ((flags / 4) % 2 == 1)) by (bit_vector);
    flags & TRAP != 0
}

} // verus!
