//! The MSGEQ7 seven-band audio equalizer: which pins it uses and how they
//! are set up. Pulsing its strobe and reset lines and sampling its output,
//! which is timed to the microsecond, is the caller's.
use vstd::prelude::*;
use crate::phys::pins::{Alt, DriveStrength, Mode, PadConfig, PinSetup, PinSpeed, PullKeep, PullUpDown};

verus! {

/// The pad settings of the equalizer's pins.
pub open spec fn msgeq7_pad() -> PadConfig {
    PadConfig {
        hysterisis: false,
        resistance: PullUpDown::PullDown100k,
        pull_keep: PullKeep::Pull,
        pull_keep_en: false,
        open_drain: false,
        speed: PinSpeed::Max200MHz,
        drive_strength: DriveStrength::Max,
        fast_slew_rate: true,
    }
}

/// The equalizer's clock, strobe, output and reset pins.
pub struct MSGEQ7Driver {
    pub clk_pin: usize,
    pub strobe_pin: usize,
    pub out_pin: usize,
    pub reset_pin: usize,
}

impl MSGEQ7Driver {
    /// A driver on these pins; `setup` says how to prepare them.
    pub fn new(clk_pin: usize, strobe_pin: usize, out_pin: usize, reset_pin: usize) -> (r: Self)
        ensures
            r.clk_pin == clk_pin,
            r.strobe_pin == strobe_pin,
            r.out_pin == out_pin,
            r.reset_pin == reset_pin,
    {
        MSGEQ7Driver { clk_pin: clk_pin, strobe_pin: strobe_pin, out_pin: out_pin, reset_pin: reset_pin }
    }

    /// Preparing the pins: the strobe and reset pins are outputs and the
    /// output pin an input; all three are muxed to their fifth function
    /// and get the equalizer's pad settings.
    pub fn setup(&self) -> (steps: Vec<PinSetup>)
        ensures
            steps@ == seq![
                PinSetup::Direction { pin: self.strobe_pin, mode: Mode::Output },
                PinSetup::Direction { pin: self.reset_pin, mode: Mode::Output },
                PinSetup::Direction { pin: self.out_pin, mode: Mode::Input },
                PinSetup::Mux { pin: self.reset_pin, alt: Alt::Alt5 },
                PinSetup::Mux { pin: self.strobe_pin, alt: Alt::Alt5 },
                PinSetup::Mux { pin: self.out_pin, alt: Alt::Alt5 },
                PinSetup::Pad { pin: self.out_pin, config: msgeq7_pad() },
                PinSetup::Pad { pin: self.reset_pin, config: msgeq7_pad() },
                PinSetup::Pad { pin: self.strobe_pin, config: msgeq7_pad() },
            ],
    {
        let pad = PadConfig {
            hysterisis: false,
            resistance: PullUpDown::PullDown100k,
            pull_keep: PullKeep::Pull,
            pull_keep_en: false,
            open_drain: false,
            speed: PinSpeed::Max200MHz,
            drive_strength: DriveStrength::Max,
            fast_slew_rate: true,
        };
        let mut steps: Vec<PinSetup> = Vec::new();
        steps.push(PinSetup::Direction { pin: self.strobe_pin, mode: Mode::Output });
        steps.push(PinSetup::Direction { pin: self.reset_pin, mode: Mode::Output });
        steps.push(PinSetup::Direction { pin: self.out_pin, mode: Mode::Input });
        steps.push(PinSetup::Mux { pin: self.reset_pin, alt: Alt::Alt5 });
        steps.push(PinSetup::Mux { pin: self.strobe_pin, alt: Alt::Alt5 });
        steps.push(PinSetup::Mux { pin: self.out_pin, alt: Alt::Alt5 });
        steps.push(PinSetup::Pad { pin: self.out_pin, config: pad });
        steps.push(PinSetup::Pad { pin: self.reset_pin, config: pad });
        steps.push(PinSetup::Pad { pin: self.strobe_pin, config: pad });
        assert(steps@ =~= seq![
            PinSetup::Direction { pin: self.strobe_pin, mode: Mode::Output },
            PinSetup::Direction { pin: self.reset_pin, mode: Mode::Output },
            PinSetup::Direction { pin: self.out_pin, mode: Mode::Input },
            PinSetup::Mux { pin: self.reset_pin, alt: Alt::Alt5 },
            PinSetup::Mux { pin: self.strobe_pin, alt: Alt::Alt5 },
            PinSetup::Mux { pin: self.out_pin, alt: Alt::Alt5 },
            PinSetup::Pad { pin: self.out_pin, config: msgeq7_pad() },
            PinSetup::Pad { pin: self.reset_pin, config: msgeq7_pad() },
            PinSetup::Pad { pin: self.strobe_pin, config: msgeq7_pad() },
        ]);
        steps
    }
}

} // verus!
