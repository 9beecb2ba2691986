//! The task that paces the status LED's blinks: it waits for pending
//! blinks, then toggles the LED once per blink period, counting the
//! pending blinks down.
use vstd::prelude::*;
use crate::debug::{BlinkConfig, blink_led_on, blink_led_off, speed_period, speed_nanos};
use crate::gate::{Gate, GateCondition, MAX_SUPPORTED_FUNCTIONS};
use crate::phys::pins::GpioOutput;
use crate::tasks::Task;

verus! {

/// The step that waits for pending blinks and schedules the next one.
pub const SCHEDULE_BLINK: u32 = 1;
/// The step that toggles the LED once the scheduled time has passed.
pub const TOGGLE_LED: u32 = 2;

/// The status LED task: its two-step gate and when the next toggle is due.
pub struct BlinkTask {
    pub gate: Gate,
    pub next_blink_event: u64,
}

impl BlinkTask {
    pub fn new() -> (r: BlinkTask)
        ensures
            r.well_formed(),
            r.gate.tail == 0,
            !r.gate.compiled,
            r.next_blink_event == 0,
    {
        BlinkTask { gate: Gate::new(), next_blink_event: 0 }
    }

    /// The task's consistency condition: once set up, its gate has its two
    /// steps.
    pub open spec fn well_formed(&self) -> bool {
        &&& self.gate.well_formed()
        &&& !self.gate.once
        &&& !self.gate.finished
        &&& self.gate.compiled ==> self.gate.tail == 2 && self.gate.current_index < 2
            && self.gate.conditions@[0] == GateCondition::Custom(0)
            && self.gate.conditions@[1] == GateCondition::Custom(1)
            && self.gate.functions@[0] == SCHEDULE_BLINK && self.gate.functions@[1] == TOGGLE_LED
            && self.gate.durations@[0] == 0 && self.gate.durations@[1] == 0
        &&& !self.gate.compiled ==> self.gate.tail == 0 && self.gate.current_index == 0
            && self.gate.durations@[0] == 0 && self.gate.durations@[1] == 0
    }

    /// Whether the current step's condition holds at `now`.
    pub open spec fn step_holds(&self, config: BlinkConfig, now: u64) -> bool {
        if self.gate.current_index == 0 {
            config.remaining_count > 0
        } else {
            now > self.next_blink_event
        }
    }

    /// One pass of the task at `now` over the pending blinks `config`.
    /// The first pass sets up its two steps. Later passes: when blinks are
    /// pending, the next toggle is scheduled one blink period on; once it
    /// is due, the LED is turned on (even count) or off (odd count) and
    /// one blink is counted off.
    pub fn step(&mut self, config: &mut BlinkConfig, now: u64) -> (r: Option<GpioOutput>)
        requires
            old(self).well_formed(),
            now <= u64::MAX - 1_000_000_000,
            old(self).gate.compiled && old(self).gate.current_index == 1 && now > old(self).next_blink_event
                ==> old(config).remaining_count > 0,
        ensures
            final(self).well_formed(),
            final(self).gate.compiled,
            !old(self).gate.compiled ==> r is None && *final(config) == *old(config)
                && final(self).gate.current_index == old(self).gate.current_index,
            old(self).gate.compiled && !old(self).step_holds(*old(config), now) ==> r is None
                && *final(config) == *old(config) && final(self).next_blink_event == old(self).next_blink_event
                && final(self).gate.current_index == old(self).gate.current_index,
            old(self).gate.compiled && old(self).step_holds(*old(config), now) && old(self).gate.current_index == 0
                ==> r is None && *final(config) == *old(config) && final(self).next_blink_event == now
                + speed_period(old(config).speed) && final(self).gate.current_index == 1,
            old(self).gate.compiled && old(self).step_holds(*old(config), now) && old(self).gate.current_index == 1
                ==> (r matches Some(o) && o.high == (old(config).remaining_count % 2 == 0))
                && final(config).remaining_count == old(config).remaining_count - 1
                && final(config).speed == old(config).speed && final(self).gate.current_index == 0
                && final(self).next_blink_event == old(self).next_blink_event,
    {
        if !self.gate.compiled {
            self.gate.when(0, SCHEDULE_BLINK);
            self.gate.when(1, TOGGLE_LED);
            let _ = self.gate.compile(now, false);
            return None;
        }
        let holds = if self.gate.current_index == 0 {
            config.remaining_count > 0
        } else {
            now > self.next_blink_event
        };
        let (_, action) = self.gate.compile(now, holds);
        match action {
            Some(a) => {
                if a == SCHEDULE_BLINK {
                    self.next_blink_event = now + speed_nanos(config.speed);
                    None
                } else {
                    let out = if config.remaining_count % 2 == 0 {
                        blink_led_on()
                    } else {
                        blink_led_off()
                    };
                    config.remaining_count = config.remaining_count - 1;
                    Some(out)
                }
            },
            None => None,
        }
    }
}

impl Task for BlinkTask {
}

} // verus!
