//! A task that reports the uptime every second, with a short blink.
use vstd::prelude::*;
use crate::date_time::MS_TO_NANO;
use crate::debug::{blink, debug_u64, BlinkConfig, Speed, number_frame};
use crate::gate::{Gate, GateCondition};
use crate::math::rendered;
use crate::tasks::Task;
use vstd::string::StringSliceAdditionalSpecFns;

verus! {

/// The action of the clock task's single step.
pub const CLOCK_BEEP: u32 = 1;

/// The uptime reporting task.
pub struct ClockTask {
    pub gate: Gate,
}

impl ClockTask {
    /// The task's consistency condition: one timed step of a second.
    pub open spec fn well_formed(&self) -> bool {
        &&& self.gate.well_formed()
        &&& !self.gate.once
        &&& !self.gate.finished
        &&& self.gate.compiled
        &&& self.gate.tail == 1
        &&& self.gate.current_index == 0
        &&& self.gate.conditions@[0] == GateCondition::Elapsed
        &&& self.gate.functions@[0] == CLOCK_BEEP
        &&& self.gate.durations@[0] == MS_TO_NANO * 1000
    }

    pub fn new() -> (r: ClockTask)
        ensures
            r.well_formed(),
            r.gate.target_times@[0] == 0,
    {
        let mut gate = Gate::new();
        gate.when_nano(MS_TO_NANO * 1000, CLOCK_BEEP);
        let (compiled, _) = gate.compile(0, false);
        ClockTask { gate: compiled }
    }

    /// One pass at uptime `now`: once a second has passed since the last
    /// report, asks for two fast blinks and returns the report, the uptime
    /// in milliseconds and "beep boop".
    pub fn system_loop(&mut self, now: u64, config: &mut BlinkConfig) -> (frame: Option<Vec<u8>>)
        requires
            old(self).well_formed(),
            now <= u64::MAX - MS_TO_NANO * 1000,
        ensures
            final(self).well_formed(),
            now <= old(self).gate.target_times@[0] ==> frame is None && *final(config) == *old(config)
                && final(self).gate == old(self).gate,
            now > old(self).gate.target_times@[0] ==> (frame matches Some(f) && f@ == number_frame(
                rendered((now / MS_TO_NANO) as nat, 10),
                "beep boop".spec_bytes(),
            )) && final(self).gate.target_times@[0] == now + MS_TO_NANO * 1000 && (if old(config).remaining_count == 0
                || Speed::Fast != old(config).speed {
                *final(config) == (BlinkConfig { speed: Speed::Fast, remaining_count: 4 })
            } else {
                *final(config) == *old(config)
            }),
    {
        match self.gate.process(now, false) {
            Some(_) => {
                blink(config, 2, Speed::Fast);
                Some(debug_u64(now / MS_TO_NANO, "beep boop".as_bytes()))
            },
            None => None,
        }
    }
}

impl Task for ClockTask {
}

} // verus!
