//! Board pins, numbered as on the Teensy 4.0's diagrams: which pad
//! multiplexer register, GPIO bank and bit each one has.
use vstd::prelude::*;
use crate::phys::{Bitwise, Dir, RegisterWrite};

verus! {

#[derive(Copy, Clone, PartialEq, Eq, Structural, Debug)]
pub enum Mode {
    Output,
    Input,
}

#[derive(Copy, Clone, PartialEq, Eq, Structural, Debug)]
pub enum Power {
    High,
    Low,
}

/// The alternate functions a pad can be muxed to.
#[derive(Copy, Clone, PartialEq, Eq, Structural, Debug)]
pub enum Alt {
    Alt0,
    Alt1,
    Alt2,
    Alt3,
    Alt4,
    Alt5,
}

/// The fast GPIO banks that drive the board pins.
#[derive(Copy, Clone, PartialEq, Eq, Structural, Debug)]
pub enum GpioBank {
    Gpio6,
    Gpio7,
    Gpio8,
    Gpio9,
}

/// A change to the output bits of a GPIO bank: the bits of `mask` are set
/// when `high` holds and cleared otherwise.
#[derive(Copy, Clone, PartialEq, Eq, Structural, Debug)]
pub struct GpioOutput {
    pub bank: GpioBank,
    pub mask: u32,
    pub high: bool,
}

/// Drive strength enable.
pub const PCR_DSE: u32 = 0x40;
/// Open drain enable.
pub const PCR_ODE: u32 = 0x20;
/// Passive filter enable.
pub const PCR_PFE: u32 = 0x10;
/// Slew rate enable.
pub const PCR_SRE: u32 = 0x04;
/// Pull enable.
pub const PCR_PE: u32 = 0x02;
/// Pull select.
pub const PCR_PS: u32 = 0x01;

/// The number of board pins.
pub const PIN_COUNT: usize = 40;

/// The bit of its GPIO bank that drives each board pin.
pub const PIN_BITS: [u8; 40] = [
    3, 2, 4, 5, 6, 8, 10, 17, 16, 11, 0, 2, 1, 3, 18, 19, 23, 22, 17, 16, 26, 27, 24, 25, 12, 13,
    30, 31, 18, 31, 23, 22, 12, 7, 15, 14, 13, 12, 17, 16,
];

/// The GPIO bank of each board pin, as its number 6 to 9.
pub const PIN_TO_GPIO_PIN: [u8; 40] = [
    6, 6, 9, 9, 9, 9, 7, 7, 7, 7, 7, 7, 7, 7, 6, 6, 6, 6, 6, 6, 6, 6, 6, 6, 6, 6, 6, 6, 8, 9, 8, 8,
    7, 9, 8, 8, 8, 8, 8, 8,
];

/// The pad multiplexer register of each board pin.
pub const PIN_MUX: [u32; 40] = [
    0x401F_80C8, 0x401F_80C4, 0x401F_8024, 0x401F_8028, 0x401F_802C, 0x401F_8034, 0x401F_8164,
    0x401F_8180, 0x401F_817C, 0x401F_8168, 0x401F_813C, 0x401F_8144, 0x401F_8140, 0x401F_8148,
    0x401F_8104, 0x401F_8108, 0x401F_8118, 0x401F_8114, 0x401F_8100, 0x401F_80FC, 0x401F_8124,
    0x401F_8128, 0x401F_811C, 0x401F_8120, 0x401F_80EC, 0x401F_80F0, 0x401F_8134, 0x401F_8138,
    0x401F_8094, 0x401F_8090, 0x401F_80A8, 0x401F_80A4, 0x401F_816C, 0x401F_8030, 0x401F_81C8,
    0x401F_81C4, 0x401F_81C0, 0x401F_81BC, 0x401F_81D0, 0x401F_81CC,
];

/// The register encoding of an alternate function.
pub open spec fn alt_value(alt: Alt) -> u32 {
    match alt {
        Alt::Alt0 => 0,
        Alt::Alt1 => 1,
        Alt::Alt2 => 2,
        Alt::Alt3 => 3,
        Alt::Alt4 => 4,
        Alt::Alt5 => 5,
    }
}

/// The register encoding of an alternate function.
pub fn alt_bits(alt: Alt) -> (r: u32)
    ensures
        r == alt_value(alt),
{
    match alt {
        Alt::Alt0 => 0,
        Alt::Alt1 => 1,
        Alt::Alt2 => 2,
        Alt::Alt3 => 3,
        Alt::Alt4 => 4,
        Alt::Alt5 => 5,
    }
}

/// The GPIO bank numbered `n` (6 to 9).
pub open spec fn bank_of(n: u8) -> GpioBank {
    if n == 6 {
        GpioBank::Gpio6
    } else if n == 7 {
        GpioBank::Gpio7
    } else if n == 8 {
        GpioBank::Gpio8
    } else {
        GpioBank::Gpio9
    }
}

fn gpio_bank(pin: usize) -> (r: GpioBank)
    requires
        pin < 40,
    ensures
        r == bank_of(PIN_TO_GPIO_PIN@[pin as int]),
{
    let n = PIN_TO_GPIO_PIN[pin];
    if n == 6 {
        GpioBank::Gpio6
    } else if n == 7 {
        GpioBank::Gpio7
    } else if n == 8 {
        GpioBank::Gpio8
    } else {
        GpioBank::Gpio9
    }
}

/// The write that muxes `pin` to the alternate function `alt`.
pub fn pin_mux_config(pin: usize, alt: Alt) -> (w: RegisterWrite)
    requires
        pin < 40,
    ensures
        w.address == PIN_MUX@[pin as int],
        w.value == alt_value(alt),
{
    let addr = PIN_MUX[pin];
    RegisterWrite { address: addr, value: alt_bits(alt) }
}

/// The pad control register of `pin`: its multiplexer register less
/// `0x1F0`, the distance between the two register blocks.
pub open spec fn pad_addr(pin: int) -> u32 {
    (PIN_MUX@[pin] - 0x1F0) as u32
}

/// The value `op` makes of a register holding `current` and the operand
/// `value`.
pub open spec fn combine(op: Bitwise, current: u32, value: u32) -> u32 {
    match op {
        Bitwise::And => current & value,
        Bitwise::Or => current | value,
        Bitwise::Eq => value,
    }
}

/// The write that applies `value` to the pad control register of `pin`
/// with `op`, given the register's current value `current`.
pub fn pin_pad_config(pin: usize, op: Bitwise, value: u32, current: u32) -> (w: RegisterWrite)
    requires
        pin < 40,
    ensures
        w.address == pad_addr(pin as int),
        w.value == combine(op, current, value),
{
    assert(PIN_MUX@[pin as int] >= 0x1F0) by {
        assert(forall|i: int| 0 <= i < 40 ==> #[trigger] PIN_MUX@[i] >= 0x401F_8000);
    }
    let addr = PIN_MUX[pin] - 0x1F0;
    let next = match op {
        Bitwise::And => current & value,
        Bitwise::Or => current | value,
        Bitwise::Eq => value,
    };
    RegisterWrite { address: addr, value: next }
}

/// The bank that drives `pin`, and the direction `mode` sets it to. The
/// bank is to be run at its fast speed.
pub fn pin_mode(pin: usize, mode: Mode) -> (r: (GpioBank, Dir))
    requires
        pin < 40,
    ensures
        r.0 == bank_of(PIN_TO_GPIO_PIN@[pin as int]),
        r.1 == (match mode {
            Mode::Output => Dir::Output,
            Mode::Input => Dir::Input,
        }),
{
    let bank = gpio_bank(pin);
    match mode {
        Mode::Output => (bank, Dir::Output),
        Mode::Input => (bank, Dir::Input),
    }
}

/// The change that drives `pin` high or low: its bit in its bank.
pub fn pin_out(pin: usize, power: Power) -> (r: GpioOutput)
    requires
        pin < 40,
    ensures
        r.bank == bank_of(PIN_TO_GPIO_PIN@[pin as int]),
        r.mask == 1u32 << PIN_BITS@[pin as int],
        r.high == (power == Power::High),
{
    assert(PIN_BITS@[pin as int] < 32) by {
        assert(forall|i: int| 0 <= i < 40 ==> #[trigger] PIN_BITS@[i] < 32);
    }
    let mask = 0x1u32 << PIN_BITS[pin];
    let bank = gpio_bank(pin);
    match power {
        Power::High => GpioOutput { bank: bank, mask: mask, high: true },
        Power::Low => GpioOutput { bank: bank, mask: mask, high: false },
    }
}

/// The pull resistor of a pad.
#[derive(Copy, Clone, PartialEq, Eq, Structural, Debug)]
pub enum PullUpDown {
    PullDown100k,
    PullUp47k,
    PullUp100k,
    PullUp22k,
}

/// The speed of a pad.
#[derive(Copy, Clone, PartialEq, Eq, Structural, Debug)]
pub enum PinSpeed {
    Low50MHz,
    Medium100MHz,
    Fast150MHz,
    Max200MHz,
}

/// Whether a pad pulls or keeps its level.
#[derive(Copy, Clone, PartialEq, Eq, Structural, Debug)]
pub enum PullKeep {
    Keeper,
    Pull,
}

/// The drive strength of a pad.
#[derive(Copy, Clone, PartialEq, Eq, Structural, Debug)]
pub enum DriveStrength {
    Disabled,
    Max,
    MaxDiv2,
    MaxDiv3,
    MaxDiv4,
    MaxDiv5,
    MaxDiv6,
    MaxDiv7,
}

/// The electrical settings of a pad.
#[derive(Copy, Clone, PartialEq, Eq, Structural, Debug)]
pub struct PadConfig {
    pub hysterisis: bool,
    pub resistance: PullUpDown,
    pub pull_keep: PullKeep,
    pub pull_keep_en: bool,
    pub open_drain: bool,
    pub speed: PinSpeed,
    pub drive_strength: DriveStrength,
    pub fast_slew_rate: bool,
}

/// One step of setting a pin up, for the caller to carry out.
#[derive(Copy, Clone, PartialEq, Eq, Structural, Debug)]
pub enum PinSetup {
    /// Make the pin an input or an output.
    Direction { pin: usize, mode: Mode },
    /// Mux the pin's pad to an alternate function.
    Mux { pin: usize, alt: Alt },
    /// Set the pin's pad electrically.
    Pad { pin: usize, config: PadConfig },
    /// Drive the pin high or low.
    Level { pin: usize, power: Power },
}

} // verus!
