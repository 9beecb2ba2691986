//! The bare kernel's own debug output.
use vstd::prelude::*;
use crate::math::rendered;
use crate::debug::hex_prefix;
use vstd::string::StringSliceAdditionalSpecFns;

pub mod debug;
pub mod mem;

verus! {

/// The frame the kernel sends when asked to show `val` for debugging,
/// once the serial port is up.
pub fn teensy_debug(val: u32) -> (frame: Vec<u8>)
    ensures
        frame@ == hex_prefix() + rendered(val as nat, 16) + "TEENSY DEBUG".spec_bytes().push(10u8),
{
    debug::debug_hex(val, "TEENSY DEBUG".as_bytes())
}

} // verus!
