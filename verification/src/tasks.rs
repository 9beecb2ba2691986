//! The cooperative tasks the firmware runs in turn.
use vstd::prelude::*;

pub mod ws2812_task;
pub mod blink_task;
pub mod periodic_task;
pub mod clock_task;
pub mod ping_task;
pub mod serial_task;
pub mod wifi_task;

verus! {

/// A task: set up once, then stepped forever by the scheduler.
pub trait Task {
    fn init(&mut self) {
    }

    fn system_loop(&mut self) {
    }
}

} // verus!
