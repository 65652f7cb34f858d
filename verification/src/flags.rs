//! The flag bits of the HTTP/2 frame header and the test for one of them.
use vstd::prelude::*;

verus! {

/// Used by Data and Headers frames.
pub const END_STREAM: u8 = 0x1;

/// Used by Settings and Ping frames; shares the bit with `END_STREAM`.
pub const ACK: u8 = 0x1;

/// Used by Headers, PushPromise and Continuation frames.
pub const END_HEADERS: u8 = 0x4;

/// Used by Data, Headers and PushPromise frames.
pub const PADDED: u8 = 0x8;

/// Used by Headers frames.
pub const PRIORITY: u8 = 0x20;

/// Whether `flag` is set in the bitfield `flags`.
pub open spec fn flag_set(flags: u8, flag: u8) -> bool {
    flags & flag != 0
}

/// Whether `flag` is set in the bitfield `flags`.
pub fn is_set(flags: u8, flag: u8) -> (r: bool)
    ensures
        r == flag_set(flags, flag),
{
    (flags & flag) != 0
}

} // verus!
