//! A task that says it is alive every second and a half.
use vstd::prelude::*;
use crate::date_time::MS_TO_NANO;
use crate::debug::{debug_str, line_frame};
use crate::gate::{Gate, GateCondition};
use crate::tasks::Task;
use vstd::string::StringSliceAdditionalSpecFns;

verus! {

/// The action of the ping task's single step.
pub const PING: u32 = 1;

/// The liveness task.
pub struct PingTask {
    pub gate: Gate,
}

impl PingTask {
    /// The task's consistency condition: one timed step of 1.5 seconds.
    pub open spec fn well_formed(&self) -> bool {
        &&& self.gate.well_formed()
        &&& !self.gate.once
        &&& !self.gate.finished
        &&& self.gate.compiled
        &&& self.gate.tail == 1
        &&& self.gate.current_index == 0
        &&& self.gate.conditions@[0] == GateCondition::Elapsed
        &&& self.gate.functions@[0] == PING
        &&& self.gate.durations@[0] == MS_TO_NANO * 1500
    }

    pub fn new() -> (r: PingTask)
        ensures
            r.well_formed(),
            r.gate.target_times@[0] == 0,
    {
        let mut gate = Gate::new();
        gate.when_nano(MS_TO_NANO * 1500, PING);
        let (compiled, _) = gate.compile(0, false);
        PingTask { gate: compiled }
    }

    /// One pass at uptime `now`: once the interval has passed, returns
    /// the line "ping pong".
    pub fn system_loop(&mut self, now: u64) -> (frame: Option<Vec<u8>>)
        requires
            old(self).well_formed(),
            now <= u64::MAX - MS_TO_NANO * 1500,
        ensures
            final(self).well_formed(),
            now <= old(self).gate.target_times@[0] ==> frame is None && final(self).gate == old(self).gate,
            now > old(self).gate.target_times@[0] ==> (frame matches Some(f) && f@ == line_frame(
                "ping pong".spec_bytes(),
            )) && final(self).gate.target_times@[0] == now + MS_TO_NANO * 1500,
    {
        match self.gate.process(now, false) {
            Some(_) => Some(debug_str("ping pong".as_bytes())),
            None => None,
        }
    }
}

impl Task for PingTask {
}

} // verus!
