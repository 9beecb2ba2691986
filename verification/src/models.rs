//! Commands that reach the device over the network.
use vstd::prelude::*;

verus! {

/// A command: a four-byte name, up to ten integer arguments and a
/// checksum.
pub struct SystemCommand {
    pub command: [u8; 4],
    pub args: [i32; 10],
    pub checksum: u64,
}

impl SystemCommand {
    /// An empty command: zero name, every argument `i32::MAX` (unset), zero
    /// checksum.
    pub fn new() -> (r: Self)
        ensures
            r.command@ == Seq::new(4, |i: int| 0u8),
            r.args@ == Seq::new(10, |i: int| i32::MAX),
            r.checksum == 0,
    {
        let r = SystemCommand { command: [0; 4], args: [i32::MAX; 10], checksum: 0 };
        assert(r.command@ =~= Seq::new(4, |i: int| 0u8));
        assert(r.args@ =~= Seq::new(10, |i: int| i32::MAX));
        r
    }
}

} // verus!
