//! The MAX31820 one-wire thermometer: how its data pin is set up for each
//! direction, and how the samples read back become bits, bytes and a
//! temperature word. Driving the line with its microsecond timings is the
//! caller's.
use vstd::prelude::*;
use crate::phys::pins::{Alt, DriveStrength, Mode, PadConfig, PinSetup, PinSpeed, Power, PullKeep, PullUpDown};

verus! {

/// The pad settings of the data pin when it listens.
pub open spec fn listening_pad() -> PadConfig {
    PadConfig {
        hysterisis: true,
        resistance: PullUpDown::PullUp47k,
        pull_keep: PullKeep::Pull,
        pull_keep_en: true,
        open_drain: false,
        speed: PinSpeed::Medium100MHz,
        drive_strength: DriveStrength::Max,
        fast_slew_rate: true,
    }
}

/// The thermometer on its data pin.
pub struct Max31820Driver {
    pub pin: usize,
}

/// Bits `0..k` of `r` are `bits[0..k]`.
pub open spec fn low_bits_are(r: u8, bits: Seq<u8>, k: int) -> bool {
    forall|j: int| 0 <= j < k ==> #[trigger] ((r >> (j as u8)) & 1u8) == bits[j]
}

/// Setting bit `k` of a byte whose bits from `k` up are clear keeps its
/// lower bits and puts `b` at `k`.
proof fn lemma_set_bit(r: u8, b: u8, k: u8)
    requires
        k < 8,
        b <= 1,
        r < (1u8 << k) || (k == 7 && r < 128),
    ensures
        forall|j: u8| j < k ==> #[trigger] (((r | (b << k)) >> j) & 1u8) == ((r >> j) & 1u8),
        (((r | (b << k)) >> k) & 1u8) == b,
        k < 7 ==> (r | (b << k)) < (1u8 << ((k + 1) as u8)),
{
    assert(forall|j: u8| j < k ==> #[trigger] (((r | (b << k)) >> j) & 1u8) == ((r >> j) & 1u8)) by (bit_vector)
        requires
            k < 8,
            b <= 1,
            r < (1u8 << k) || (k == 7 && r < 128),
    ;
    assert((((r | (b << k)) >> k) & 1u8) == b) by (bit_vector)
        requires
            k < 8,
            b <= 1,
            r < (1u8 << k) || (k == 7 && r < 128),
    ;
    assert(k < 7 ==> (r | (b << k)) < (1u8 << ((k + 1) as u8))) by (bit_vector)
        requires
            k < 8,
            b <= 1,
            r < (1u8 << k) || (k == 7 && r < 128),
    ;
}

impl Max31820Driver {
    /// A driver on `data_pin`; `setup` says how to prepare it.
    pub fn new(data_pin: usize) -> (r: Self)
        ensures
            r.pin == data_pin,
    {
        Max31820Driver { pin: data_pin }
    }

    /// Preparing the pin: its pad is muxed to the fifth function.
    pub fn setup(&self) -> (steps: Vec<PinSetup>)
        ensures
            steps@ == seq![PinSetup::Mux { pin: self.pin, alt: Alt::Alt5 }],
    {
        let mut steps: Vec<PinSetup> = Vec::new();
        steps.push(PinSetup::Mux { pin: self.pin, alt: Alt::Alt5 });
        assert(steps@ =~= seq![PinSetup::Mux { pin: self.pin, alt: Alt::Alt5 }]);
        steps
    }

    /// Making the pin listen: an input, pulled up.
    pub fn as_input(&self) -> (steps: Vec<PinSetup>)
        ensures
            steps@ == seq![
                PinSetup::Direction { pin: self.pin, mode: Mode::Input },
                PinSetup::Pad { pin: self.pin, config: listening_pad() },
            ],
    {
        let mut steps: Vec<PinSetup> = Vec::new();
        steps.push(PinSetup::Direction { pin: self.pin, mode: Mode::Input });
        steps.push(
            PinSetup::Pad {
                pin: self.pin,
                config: PadConfig {
                    hysterisis: true,
                    resistance: PullUpDown::PullUp47k,
                    pull_keep: PullKeep::Pull,
                    pull_keep_en: true,
                    open_drain: false,
                    speed: PinSpeed::Medium100MHz,
                    drive_strength: DriveStrength::Max,
                    fast_slew_rate: true,
                },
            },
        );
        assert(steps@ =~= seq![
            PinSetup::Direction { pin: self.pin, mode: Mode::Input },
            PinSetup::Pad { pin: self.pin, config: listening_pad() },
        ]);
        steps
    }

    /// Making the pin drive the line.
    pub fn as_output(&self) -> (steps: Vec<PinSetup>)
        ensures
            steps@ == seq![PinSetup::Direction { pin: self.pin, mode: Mode::Output }],
    {
        let mut steps: Vec<PinSetup> = Vec::new();
        steps.push(PinSetup::Direction { pin: self.pin, mode: Mode::Output });
        assert(steps@ =~= seq![PinSetup::Direction { pin: self.pin, mode: Mode::Output }]);
        steps
    }

    /// Pulling the line low: the pin drives it, low.
    pub fn pull_low(&self) -> (steps: Vec<PinSetup>)
        ensures
            steps@ == seq![
                PinSetup::Direction { pin: self.pin, mode: Mode::Output },
                PinSetup::Level { pin: self.pin, power: Power::Low },
            ],
    {
        let mut steps = self.as_output();
        steps.push(PinSetup::Level { pin: self.pin, power: Power::Low });
        assert(steps@ =~= seq![
            PinSetup::Direction { pin: self.pin, mode: Mode::Output },
            PinSetup::Level { pin: self.pin, power: Power::Low },
        ]);
        steps
    }

    /// Whether the thermometer answered the reset: some sample of the line
    /// read high.
    pub fn detect_pulse(readings: &[u32]) -> (detected: bool)
        ensures
            detected == exists|i: int| 0 <= i < readings@.len() && readings@[i] > 0,
    {
        let mut i: usize = 0;
        while i < readings.len()
            invariant
                i <= readings@.len(),
                forall|j: int| 0 <= j < i ==> readings@[j] == 0,
            decreases readings@.len() - i,
        {
            if readings[i] > 0 {
                return true;
            }
            i = i + 1;
        }
        false
    }

    /// A bit read in a slot: one when more samples read high than low.
    pub fn read_bit(high: u64, low: u64) -> (bit: u8)
        ensures
            bit == if high > low { 1u8 } else { 0u8 },
    {
        if high > low {
            1
        } else {
            0
        }
    }

    /// The byte read as eight bits, least significant first.
    pub fn read_byte(bits: &[u8; 8]) -> (r: u8)
        requires
            forall|i: int| 0 <= i < 8 ==> bits@[i] <= 1,
        ensures
            low_bits_are(r, bits@, 8),
    {
        let mut result: u8 = 0;
        let mut k: u8 = 0;
        assert(0u8 < (1u8 << 0u8)) by (bit_vector);
        while k < 8
            invariant
                k <= 8,
                forall|i: int| 0 <= i < 8 ==> bits@[i] <= 1,
                low_bits_are(result, bits@, k as int),
                k < 8 ==> (result < (1u8 << k) || (k == 7 && result < 128)),
            decreases 8 - k,
        {
            let b = bits[k as usize];
            proof {
                lemma_set_bit(result, b, k);
            }
            let next = result | (b << k);
            assert forall|j: int| 0 <= j < k + 1 implies #[trigger] ((next >> (j as u8)) & 1u8) == bits@[j] by {
                if j < k {
                    assert((((result | (b << k)) >> (j as u8)) & 1u8) == ((result >> (j as u8)) & 1u8));
                }
            }
            result = next;
            k = k + 1;
            if k == 7 {
                assert(result < 128) by (bit_vector)
                    requires
                        result < (1u8 << 7u8),
                ;
            }
        }
        result
    }

    /// The temperature word: the most significant byte, then the least.
    pub fn temperature_word(lsb: u8, msb: u8) -> (t: u16)
        ensures
            t == (msb as u16) * 256 + (lsb as u16),
    {
        let t: u16 = ((msb as u16) << 8u16) | (lsb as u16);
        assert(((msb as u16) << 8u16) | (lsb as u16) == (msb as u16) * 256 + (lsb as u16)) by (bit_vector);
        t
    }
}

} // verus!
