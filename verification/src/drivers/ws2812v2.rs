//! A timer-driven driver for a strip of WS2812 LEDs. Each call of
//! `process` is one timer tick: it says what the data pin is to be set to
//! and when the next tick is due, one half of one bit at a time, most
//! significant bit first, with a long low rest after the last LED.
use vstd::prelude::*;
use crate::phys::pins::{DriveStrength, Mode, PadConfig, PinSetup, PinSpeed, Power, PullKeep, PullUpDown};

verus! {

/// The number of LEDs the driver has room for.
pub const MAX_LEDS: usize = 180;

/// The pad settings of the strip's data pin.
pub open spec fn strip_pad() -> PadConfig {
    PadConfig {
        hysterisis: true,
        resistance: PullUpDown::PullDown100k,
        pull_keep: PullKeep::Pull,
        pull_keep_en: true,
        open_drain: false,
        speed: PinSpeed::Fast150MHz,
        drive_strength: DriveStrength::Disabled,
        fast_slew_rate: true,
    }
}

/// Which half of a bit is being sent: the high part, then the low part.
#[derive(Copy, Clone, PartialEq, Eq, Structural, Debug)]
pub enum Stage {
    First,
    Second,
}

pub struct WS2812V2Driver {
    /// The colour of each LED, 24 bits each.
    pub leds: [u32; 180],
    /// The LED being sent.
    pub index: usize,
    pub pin: usize,
    /// The bit of the LED's colour being sent, counting down from 23.
    pub bit: usize,
    pub stage: Stage,
    /// When the next tick is due, in nanoseconds of uptime.
    pub next_event: u64,
    /// Whether the reset pause after the last LED is under way.
    pub rest: bool,
    /// Whether a frame is being sent.
    pub flush: bool,
    /// How many LEDs the strip has.
    pub size: usize,
}

/// The position of the driver within a frame.
#[derive(Copy, Clone, PartialEq, Eq, Structural, Debug)]
pub struct Cursor {
    pub index: usize,
    pub bit: usize,
    pub stage: Stage,
    pub rest: bool,
    pub flush: bool,
}

/// The cursor after one half-bit on a strip of `size` LEDs: the rest ends
/// the frame; the first half moves to the second; the second half moves to
/// the next bit, or to the next LED after bit 0; passing the LED after the
/// last one starts the rest.
pub open spec fn advance_cursor(c: Cursor, size: usize) -> Cursor {
    if c.rest {
        Cursor { rest: false, flush: false, ..c }
    } else if c.stage == Stage::First {
        Cursor { stage: Stage::Second, ..c }
    } else {
        let index = if c.bit == 0 { c.index + 1 } else { c.index as int };
        let bit = if c.bit == 0 { 23 } else { c.bit - 1 };
        if index > size {
            Cursor { index: 0, bit: 23, stage: Stage::First, rest: true, flush: c.flush }
        } else {
            Cursor { index: index as usize, bit: bit as usize, stage: Stage::First, rest: c.rest, flush: c.flush }
        }
    }
}

/// How long, in nanoseconds, the pin holds after a tick: the reset pause,
/// or the high and low parts of a one or a zero bit.
pub open spec fn hold_time(rest: bool, signal_high: bool, stage: Stage) -> u64 {
    if rest {
        85_000
    } else if signal_high {
        if stage == Stage::First { 700 } else { 600 }
    } else {
        if stage == Stage::First { 350 } else { 800 }
    }
}

/// The pin level of a tick: low during the rest, else high for the first
/// half of a bit and low for the second.
pub open spec fn tick_level(rest: bool, stage: Stage) -> Power {
    if rest {
        Power::Low
    } else if stage == Stage::First {
        Power::High
    } else {
        Power::Low
    }
}

impl WS2812V2Driver {
    /// The cursor of the driver.
    pub open spec fn cursor(&self) -> Cursor {
        Cursor {
            index: self.index,
            bit: self.bit,
            stage: self.stage,
            rest: self.rest,
            flush: self.flush,
        }
    }

    /// The driver's consistency condition: the strip fits the storage and
    /// the cursor stays within it.
    pub open spec fn well_formed(&self) -> bool {
        &&& self.size < MAX_LEDS
        &&& self.index <= self.size
        &&& self.bit <= 23
    }

    /// A driver for `led_count` LEDs on `pin`, all off, with no frame
    /// under way.
    pub fn new(pin: usize, led_count: usize) -> (r: Self)
        requires
            led_count < MAX_LEDS,
        ensures
            r.well_formed(),
            r.leds@ == Seq::new(180, |i: int| 0u32),
            r.pin == pin,
            r.size == led_count,
            r.cursor() == (Cursor { index: 0, bit: 23, stage: Stage::First, rest: false, flush: false }),
            r.next_event == 0,
    {
        let r = WS2812V2Driver {
            leds: [0; 180],
            index: 0,
            pin: pin,
            bit: 23,
            stage: Stage::First,
            next_event: 0,
            rest: false,
            flush: false,
            size: led_count,
        };
        assert(r.leds@ =~= Seq::new(180, |i: int| 0u32));
        r
    }

    /// Preparing the data pin: an output with the strip's pad settings,
    /// driven low.
    pub fn setup(&self) -> (steps: Vec<PinSetup>)
        ensures
            steps@ == seq![
                PinSetup::Direction { pin: self.pin, mode: Mode::Output },
                PinSetup::Pad { pin: self.pin, config: strip_pad() },
                PinSetup::Level { pin: self.pin, power: Power::Low },
            ],
    {
        let mut steps: Vec<PinSetup> = Vec::new();
        steps.push(PinSetup::Direction { pin: self.pin, mode: Mode::Output });
        steps.push(
            PinSetup::Pad {
                pin: self.pin,
                config: PadConfig {
                    hysterisis: true,
                    resistance: PullUpDown::PullDown100k,
                    pull_keep: PullKeep::Pull,
                    pull_keep_en: true,
                    open_drain: false,
                    speed: PinSpeed::Fast150MHz,
                    drive_strength: DriveStrength::Disabled,
                    fast_slew_rate: true,
                },
            },
        );
        steps.push(PinSetup::Level { pin: self.pin, power: Power::Low });
        assert(steps@ =~= seq![
            PinSetup::Direction { pin: self.pin, mode: Mode::Output },
            PinSetup::Pad { pin: self.pin, config: strip_pad() },
            PinSetup::Level { pin: self.pin, power: Power::Low },
        ]);
        steps
    }

    /// Sets the colour of LED `index`; an index past the strip is ignored.
    pub fn set_color(&mut self, index: usize, rgb: u32)
        requires
            old(self).well_formed(),
        ensures
            final(self).well_formed(),
            index < old(self).size ==> final(self).leds@ == old(self).leds@.update(index as int, rgb),
            index >= old(self).size ==> final(self).leds == old(self).leds,
            final(self).cursor() == old(self).cursor(),
            final(self).size == old(self).size,
            final(self).pin == old(self).pin,
            final(self).next_event == old(self).next_event,
    {
        if index >= self.size {
            return;
        }
        self.leds[index] = rgb;
    }

    /// Asks for the colours to be sent.
    pub fn flush(&mut self)
        ensures
            final(self).flush,
            final(self).leds == old(self).leds,
            final(self).index == old(self).index,
            final(self).bit == old(self).bit,
            final(self).stage == old(self).stage,
            final(self).rest == old(self).rest,
            final(self).size == old(self).size,
            final(self).pin == old(self).pin,
            final(self).next_event == old(self).next_event,
    {
        self.flush = true;
    }

    /// One timer tick at uptime `now`. While a frame is being sent and the
    /// next tick is due, returns the level to set the data pin to, holds it
    /// for the half-bit's time and advances the cursor; otherwise changes
    /// nothing.
    pub fn process(&mut self, now: u64) -> (level: Option<Power>)
        requires
            old(self).well_formed(),
            now <= u64::MAX - 85_000,
        ensures
            final(self).well_formed(),
            final(self).leds == old(self).leds,
            final(self).size == old(self).size,
            final(self).pin == old(self).pin,
            (!old(self).flush || now < old(self).next_event) ==> level is None && *final(self)
                == *old(self),
            (old(self).flush && now >= old(self).next_event) ==> {
                let signal_high = (1u32 << (old(self).bit as u32)) & old(self).leds@[old(
                    self,
                ).index as int] > 0;
                &&& level == Some(tick_level(old(self).rest, old(self).stage))
                &&& final(self).next_event == now + hold_time(
                    old(self).rest,
                    signal_high,
                    old(self).stage,
                )
                &&& final(self).cursor() == advance_cursor(old(self).cursor(), old(self).size)
            },
    {
        if !self.flush {
            return None;
        }
        if now < self.next_event {
            return None;
        }
        let level = if self.rest {
            Power::Low
        } else {
            match self.stage {
                Stage::First => Power::High,
                Stage::Second => Power::Low,
            }
        };
        let color = self.leds[self.index];
        let signal_high = ((0x1u32 << (self.bit as u32)) & color) > 0;
        let time: u64;
        if self.rest {
            time = 85_000;
        } else if signal_high {
            time = match self.stage {
                Stage::First => 700,
                Stage::Second => 600,
            };
        } else {
            time = match self.stage {
                Stage::First => 350,
                Stage::Second => 800,
            };
        }
        self.next_event = now + time;
        self.advance();
        Some(level)
    }

    /// Moves the cursor on by one half-bit.
    fn advance(&mut self)
        requires
            old(self).well_formed(),
        ensures
            final(self).well_formed(),
            final(self).cursor() == advance_cursor(old(self).cursor(), old(self).size),
            final(self).leds == old(self).leds,
            final(self).size == old(self).size,
            final(self).pin == old(self).pin,
            final(self).next_event == old(self).next_event,
    {
        if self.rest {
            self.rest = false;
            self.flush = false;
            return;
        }
        match self.stage {
            Stage::First => {
                self.stage = Stage::Second;
                return;
            },
            Stage::Second => {
                self.stage = Stage::First;
            },
        }
        if self.bit == 0 {
            self.index = self.index + 1;
            self.bit = 23;
        } else {
            self.bit = self.bit - 1;
        }
        if self.index > self.size {
            self.rest = true;
            self.index = 0;
            self.bit = 23;
            self.stage = Stage::First;
        }
    }
}

/// The cursor after `k` half-bits from `c`.
pub open spec fn advance_n(c: Cursor, size: usize, k: nat) -> Cursor
    decreases k,
{
    if k == 0 {
        c
    } else {
        advance_cursor(advance_n(c, size, (k - 1) as nat), size)
    }
}

/// The cursor when a frame starts.
pub open spec fn frame_start() -> Cursor {
    Cursor { index: 0, bit: 23, stage: Stage::First, rest: false, flush: true }
}

/// The cursor during the reset pause that ends a frame.
pub open spec fn frame_rest() -> Cursor {
    Cursor { index: 0, bit: 23, stage: Stage::First, rest: true, flush: true }
}

/// Where a frame on `size` LEDs stands after `k` half-bits: LED `k / 48`,
/// bit `23 - (k % 48) / 2`, first half on even steps; after the last
/// half-bit of the LED past the last one, the reset pause.
pub open spec fn frame_cursor(size: usize, k: nat) -> Cursor {
    if k == 48 * (size + 1) {
        frame_rest()
    } else {
        Cursor {
            index: (k / 48) as usize,
            bit: (23 - (k % 48) / 2) as usize,
            stage: if k % 2 == 0 { Stage::First } else { Stage::Second },
            rest: false,
            flush: true,
        }
    }
}

proof fn lemma_frame_prefix(size: usize, k: nat)
    requires
        size < MAX_LEDS,
        k <= 48 * (size + 1),
    ensures
        advance_n(frame_start(), size, k) == frame_cursor(size, k),
    decreases k,
{
    if k > 0 {
        let j = (k - 1) as nat;
        lemma_frame_prefix(size, j);
        let q = j / 48;
        let r = j % 48;
        assert(j == 48 * q + r && 0 <= r < 48) by (nonlinear_arith)
            requires
                q == j / 48,
                r == j % 48,
        ;
        assert(q <= size) by (nonlinear_arith)
            requires
                j == 48 * q + r,
                0 <= r,
                j < 48 * (size + 1),
        ;
        assert(j % 2 == r % 2) by (nonlinear_arith)
            requires
                j == 48 * q + r,
                0 <= r < 48,
        ;
        if r < 47 {
            assert(k / 48 == q && k % 48 == r + 1) by (nonlinear_arith)
                requires
                    k == 48 * q + r + 1,
                    0 <= r < 47,
            ;
            assert(k % 2 == (r + 1) % 2) by (nonlinear_arith)
                requires
                    k == 48 * q + r + 1,
            ;
        } else {
            assert(k == 48 * (q + 1));
            if q < size {
                assert(k / 48 == q + 1 && k % 48 == 0) by (nonlinear_arith)
                    requires
                        k == 48 * (q + 1),
                ;
                assert(k % 2 == 0) by (nonlinear_arith)
                    requires
                        k == 48 * (q + 1),
                ;
            }
        }
    }
}

/// A frame on `size` LEDs sends two half-bits for each of the 24 bits of
/// each LED and of one LED more, then pauses once, and then stops.
pub proof fn lemma_frame_length(size: usize)
    requires
        size < MAX_LEDS,
    ensures
        forall|k: nat| k < 48 * (size + 1) ==> !(#[trigger] advance_n(frame_start(), size, k)).rest,
        advance_n(frame_start(), size, (48 * (size + 1)) as nat) == frame_rest(),
        !advance_n(frame_start(), size, (48 * (size + 1) + 1) as nat).flush,
{
    assert forall|k: nat| k < 48 * (size + 1) implies !(#[trigger] advance_n(
        frame_start(),
        size,
        k,
    )).rest by {
        lemma_frame_prefix(size, k);
    }
    lemma_frame_prefix(size, (48 * (size + 1)) as nat);
}

} // verus!
