//! A task that runs timed chores.
use vstd::prelude::*;
use crate::tasks::Task;

verus! {

/// The periodic chores task.
pub struct PeriodicTask {}

/// A pair of wide counters.
pub struct OmgCats {
    pub lolz: u128,
    pub catz: u128,
}

impl PeriodicTask {
    pub fn new() -> (r: PeriodicTask) {
        PeriodicTask {}
    }
}

impl Task for PeriodicTask {
}

} // verus!
