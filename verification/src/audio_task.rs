//! The audio task: once a second it has the equalizer's seven bands read,
//! and reports each band's level on the debug port.
use vstd::prelude::*;
use vstd::string::StringSliceAdditionalSpecFns;
use crate::date_time::S_TO_NANO;
use crate::debug::append_bytes;
use crate::drivers::esp8266::decimal;
use crate::drivers::msgeq7::MSGEQ7Driver;
use crate::math::decimal_text;

verus! {

/// The report line of band `index` at `level`: `<level> band <index>` and
/// a newline.
pub open spec fn band_line(level: u64, index: int) -> Seq<u8> {
    decimal(level as nat) + " band ".spec_bytes() + decimal(index as nat) + seq![10u8]
}

/// The lines of the first `k` bands.
pub open spec fn band_lines(bands: Seq<u64>, k: int) -> Seq<u8>
    decreases k,
{
    if k <= 0 {
        Seq::empty()
    } else {
        band_lines(bands, k - 1) + band_line(bands[k - 1], k - 1)
    }
}

/// The audio task and its equalizer.
pub struct AudioTask {
    pub driver: MSGEQ7Driver,
    pub next_event: u64,
}

impl AudioTask {
    /// The task with the equalizer's clock on pin 9, strobe on 11, output
    /// on 10 and reset on 12.
    pub fn new() -> (r: Self)
        ensures
            r.driver.clk_pin == 9,
            r.driver.strobe_pin == 11,
            r.driver.out_pin == 10,
            r.driver.reset_pin == 12,
            r.next_event == 0,
    {
        AudioTask { driver: MSGEQ7Driver::new(9, 11, 10, 12), next_event: 0 }
    }

    /// Nothing is set up at start.
    pub fn init(&self) {
    }

    /// One step at `now`: once due, the caller is to read the bands and
    /// send their report, and the next step is due a second later.
    pub fn system_loop(&mut self, now: u64) -> (due: bool)
        requires
            now + S_TO_NANO <= u64::MAX,
        ensures
            due == (now > old(self).next_event),
            due ==> final(self).next_event == S_TO_NANO + now,
            !due ==> final(self).next_event == old(self).next_event,
            final(self).driver == old(self).driver,
    {
        if now > self.next_event {
            self.next_event = S_TO_NANO + now;
            true
        } else {
            false
        }
    }

    /// The report of the band levels: a line for each band, then an empty
    /// line.
    pub fn report(bands: &[u64; 7]) -> (r: Vec<u8>)
        ensures
            r@ == band_lines(bands@, 7).push(10u8),
    {
        let mut r: Vec<u8> = Vec::new();
        let mut i: usize = 0;
        while i < 7
            invariant
                i <= 7,
                r@ == band_lines(bands@, i as int),
            decreases 7 - i,
        {
            let level = decimal_text(bands[i]);
            append_bytes(&mut r, level.as_slice());
            append_bytes(&mut r, " band ".as_bytes());
            let index = decimal_text(i as u64);
            append_bytes(&mut r, index.as_slice());
            r.push(10u8);
            i = i + 1;
            assert(r@ =~= band_lines(bands@, i as int));
        }
        r.push(10u8);
        r
    }
}

} // verus!
