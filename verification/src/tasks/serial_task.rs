//! A task that echoes what arrives on the default serial port.
use vstd::prelude::*;
use crate::datastructures::{Buffer, Stack, Items};
use crate::gate::{Gate, GateCondition};
use crate::serio::{SerialPorts, serio_available, serio_read, serio_write, capped};
use crate::tasks::Task;
use vstd::string::StringSliceAdditionalSpecFns;

verus! {

/// The action of the serial task's single step.
pub const ECHO: u32 = 1;

/// The echo task.
pub struct SerialTask {
    pub gate: Gate,
}

impl SerialTask {
    /// The task's consistency condition: one step guarded by the caller's
    /// condition, that bytes are waiting.
    pub open spec fn well_formed(&self) -> bool {
        &&& self.gate.well_formed()
        &&& !self.gate.once
        &&& !self.gate.finished
        &&& self.gate.compiled
        &&& self.gate.tail == 1
        &&& self.gate.current_index == 0
        &&& self.gate.conditions@[0] == GateCondition::Custom(0)
        &&& self.gate.functions@[0] == ECHO
        &&& self.gate.durations@[0] == 0
    }

    pub fn new() -> (r: SerialTask)
        ensures
            r.well_formed(),
    {
        let mut gate = Gate::new();
        gate.when(0, ECHO);
        let (compiled, _) = gate.compile(0, false);
        SerialTask { gate: compiled }
    }

    /// One pass at uptime `now`: when bytes are waiting on the default
    /// port, reads them all, keeps the first 20, and queues "received "
    /// and the 20-byte buffer (unused slots zero) on the port. Returns
    /// whether the port has yet to be set up.
    pub fn system_loop(&mut self, now: u64, ports: &mut SerialPorts) -> (needs_init: bool)
        requires
            old(self).well_formed(),
            old(ports).well_formed(),
        ensures
            final(self).well_formed(),
            final(ports).well_formed(),
            old(ports).uarts@[5].rx_buffer.tail == 0 ==> !needs_init && *final(ports) == *old(ports),
            old(ports).uarts@[5].rx_buffer.tail > 0 ==> {
                let got = old(ports).uarts@[5].rx_buffer.items();
                let kept = if got.len() <= 20 { got } else { got.take(20) };
                &&& needs_init == !old(ports).uarts@[5].initialized
                &&& final(ports).uarts@[5].rx_buffer.items().len() == 0
                &&& final(ports).uarts@[5].tx_buffer.items() == capped(capped(old(ports).uarts@[5].tx_buffer.items() + "received ".spec_bytes()) + kept + Seq::new((20 - kept.len()) as nat, |i: int| 0u8))
            },
    {
        let waiting = serio_available(ports) > 0;
        match self.gate.process(now, waiting) {
            None => false,
            Some(_) => {
                let mut buf = Buffer::<20, u8>::new(0u8);
                let ghost got = ports.uarts@[5].rx_buffer.items();
                let count = serio_available(ports);
                let mut i: usize = 0;
                while i < count
                    invariant
                        ports.well_formed(),
                        old(ports).well_formed(),
                        buf.well_formed(),
                        count == got.len(),
                        got == old(ports).uarts@[5].rx_buffer.items(),
                        got.len() <= 256,
                        i <= count,
                        ports.uarts@[5].rx_buffer.items() == got.skip(i as int),
                        ports.uarts@[5].rx_buffer.tail == count - i,
                        buf.items() == (if i <= 20 { got.take(i as int) } else { got.take(20) }),
                        forall|k: int| buf.tail <= k < 20 ==> #[trigger] buf.data@[k] == 0u8,
                        ports.uarts@[5].tx_buffer == old(ports).uarts@[5].tx_buffer,
                        ports.uarts@[5].initialized == old(ports).uarts@[5].initialized,
                    decreases count - i,
                {
                    proof {
                        assert(got.skip(i as int).len() == count - i);
                    }
                    match serio_read(ports) {
                        None => {},
                        Some(word) => {
                            assert(word == got[i as int]);
                            let ghost before = buf.items();
                            buf.push(word);
                            proof {
                                if i < 20 {
                                    assert(got.take(i + 1) =~= got.take(i as int).push(word));
                                }
                            }
                        },
                    }
                    proof {
                        assert(got.skip(i as int).drop_first() =~= got.skip(i + 1));
                    }
                    i = i + 1;
                }
                proof {
                    assert(got.skip(count as int).len() == 0);
                    let kept = if got.len() <= 20 { got } else { got.take(20) };
                    if got.len() <= 20 {
                        assert(got.take(count as int) =~= got);
                    }
                    assert(buf.data@ =~= kept + Seq::new((20 - kept.len()) as nat, |i: int| 0u8)) by {
                        assert forall|k: int| 0 <= k < 20 implies buf.data@[k] == (kept + Seq::new((20 - kept.len()) as nat, |i: int| 0u8))[k] by {
                            if k < buf.tail {
                                assert(buf.items()[k] == buf.data@[k]);
                            }
                        }
                    }
                }
                let first = serio_write(ports, "received ".as_bytes());
                let ghost mid = ports.uarts@[5].tx_buffer.items();
                let second = serio_write(ports, buf.as_array());
                proof {
                    let kept = if got.len() <= 20 { got } else { got.take(20) };
                    assert(mid + buf.data@ =~= mid + kept + Seq::new((20 - kept.len()) as nat, |i: int| 0u8));
                }
                first || second
            },
        }
    }
}

impl Task for SerialTask {
}

} // verus!
