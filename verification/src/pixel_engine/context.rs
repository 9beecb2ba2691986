//! The state of one hexagon unit as the pixel engine sees it.
use vstd::prelude::*;

verus! {

/// The attributes of one hexagon unit. Node numbers are time units, as
/// they are mixed with time in the effects.
#[derive(Copy, Clone)]
pub struct Context {
    pub initialized: bool,
    pub node_id: u64,
    pub total_nodes: u64,
    pub temperature: i32,
    pub registers: [i32; 10],
    pub offset: u64,
}

impl Context {
    /// A context that has not been initialized: everything zero.
    pub fn empty() -> (r: Self)
        ensures
            !r.initialized,
            r.node_id == 0,
            r.total_nodes == 0,
            r.temperature == 0,
            r.registers@ == Seq::new(10, |i: int| 0i32),
            r.offset == 0,
    {
        let r = Context {
            initialized: false,
            node_id: 0,
            total_nodes: 0,
            temperature: 0,
            registers: [0; 10],
            offset: 0,
        };
        assert(r.registers@ =~= Seq::new(10, |i: int| 0i32));
        r
    }
}

} // verus!
