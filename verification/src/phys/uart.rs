//! The serial ports: their registers and how a configuration is encoded.
use vstd::prelude::*;
use crate::phys::addrs;
use crate::phys::{RegisterWrite, set_bit, clear_bit};

verus! {

#[derive(Copy, Clone, PartialEq, Eq, Structural, Debug)]
pub enum ParityType {
    Even,
    Odd,
}

#[derive(Copy, Clone, PartialEq, Eq, Structural, Debug)]
pub enum BitMode {
    NineBits,
    EightBits,
}

/// How many idle characters raise the idle flag.
#[derive(Copy, Clone, PartialEq, Eq, Structural, Debug)]
pub enum IdleConfiguration {
    Idle1Char,
    Idle2Char,
    Idle4Char,
    Idle8Char,
    Idle16Char,
    Idle32Char,
    Idle64Char,
    Idle128Char,
}

#[derive(Copy, Clone, PartialEq, Eq, Structural, Debug)]
pub enum Device {
    Uart1,
    Uart2,
    Uart3,
    Uart4,
    Uart5,
    Uart6,
    Uart7,
    Uart8,
}

/// The settings of a serial port's control register. Not supported: R8T9,
/// R9T8, TXDIR, receiver wakeup, SBK, 7-bit mode, loops, RSRC, received
/// wakeup and line idle type.
#[derive(Copy, Clone, PartialEq, Eq, Structural, Debug)]
pub struct UartConfig {
    pub invert_transmission_polarity: bool,
    pub overrun_irq_en: bool,
    pub noise_error_irq_en: bool,
    pub framing_error_irq_en: bool,
    pub parity_error_irq_en: bool,
    pub tx_irq_en: bool,
    pub tx_complete_irq_en: bool,
    pub rx_irq_en: bool,
    pub idle_line_irq_en: bool,
    pub tx_en: bool,
    pub rx_en: bool,
    pub match1_irq_en: bool,
    pub match2_irq_en: bool,
    pub idle_config: IdleConfiguration,
    pub doze_en: bool,
    pub bit_mode: BitMode,
    pub parity_en: bool,
    pub parity_type: ParityType,
}

/// The register encoding of an idle configuration.
pub open spec fn idle_value(idle: IdleConfiguration) -> u32 {
    match idle {
        IdleConfiguration::Idle1Char => 0,
        IdleConfiguration::Idle2Char => 1,
        IdleConfiguration::Idle4Char => 2,
        IdleConfiguration::Idle8Char => 3,
        IdleConfiguration::Idle16Char => 4,
        IdleConfiguration::Idle32Char => 5,
        IdleConfiguration::Idle64Char => 6,
        IdleConfiguration::Idle128Char => 7,
    }
}

/// The register encoding of an idle configuration.
pub fn idle_bits(idle: IdleConfiguration) -> (r: u32)
    ensures
        r == idle_value(idle),
{
    match idle {
        IdleConfiguration::Idle1Char => 0,
        IdleConfiguration::Idle2Char => 1,
        IdleConfiguration::Idle4Char => 2,
        IdleConfiguration::Idle8Char => 3,
        IdleConfiguration::Idle16Char => 4,
        IdleConfiguration::Idle32Char => 5,
        IdleConfiguration::Idle64Char => 6,
        IdleConfiguration::Idle128Char => 7,
    }
}

/// `baseline` with bit `bit` set when `value` holds and cleared otherwise.
pub open spec fn with_bit(baseline: u32, bit: u32, value: bool) -> u32 {
    if value { baseline | (1u32 << bit) } else { baseline & !(1u32 << bit) }
}

/// The single-bit word of bit `bit` if `value` holds, else zero.
pub open spec fn flag(value: bool, bit: u32) -> u32 {
    if value { 1u32 << bit } else { 0u32 }
}

/// Sets or clears bit `bit` of `baseline` as `value` says.
pub fn set_bit_from_bool(baseline: u32, bit: u8, value: bool) -> (r: u32)
    requires
        bit < 32,
    ensures
        r == with_bit(baseline, bit as u32, value),
{
    if value {
        set_bit(baseline, bit)
    } else {
        clear_bit(baseline, bit)
    }
}

/// The control word that a configuration is written as. Clearing the idle
/// field and then masking with the idle value leaves no bit below 14
/// standing, so the parity, bit mode, doze and idle settings do not reach
/// the word: it holds the match, enable and interrupt flags alone.
pub open spec fn control_word(config: UartConfig) -> u32 {
    flag(config.match2_irq_en, 14) | flag(config.match1_irq_en, 15) | flag(config.rx_en, 18) | flag(
        config.tx_en,
        19,
    ) | flag(config.idle_line_irq_en, 20) | flag(config.rx_irq_en, 21) | flag(
        config.tx_complete_irq_en,
        22,
    ) | flag(config.tx_irq_en, 23) | flag(config.parity_error_irq_en, 24) | flag(
        config.framing_error_irq_en,
        25,
    ) | flag(config.noise_error_irq_en, 26) | flag(config.overrun_irq_en, 27) | flag(
        config.invert_transmission_polarity,
        28,
    )
}

/// Setting the thirteen flag bits one after the other on a zero word gives
/// the control word.
proof fn lemma_control_word_steps(config: UartConfig)
    ensures
        with_bit(with_bit(with_bit(with_bit(with_bit(with_bit(with_bit(with_bit(with_bit(
            with_bit(with_bit(with_bit(with_bit(0u32, 14, config.match2_irq_en), 15, config.match1_irq_en),
            18, config.rx_en), 19, config.tx_en), 20, config.idle_line_irq_en), 21, config.rx_irq_en),
            22, config.tx_complete_irq_en), 23, config.tx_irq_en), 24, config.parity_error_irq_en),
            25, config.framing_error_irq_en), 26, config.noise_error_irq_en), 27, config.overrun_irq_en),
            28, config.invert_transmission_polarity) == control_word(config),
{
    lemma_flag_steps(
        config.match2_irq_en,
        config.match1_irq_en,
        config.rx_en,
        config.tx_en,
        config.idle_line_irq_en,
        config.rx_irq_en,
        config.tx_complete_irq_en,
        config.tx_irq_en,
        config.parity_error_irq_en,
        config.framing_error_irq_en,
        config.noise_error_irq_en,
        config.overrun_irq_en,
        config.invert_transmission_polarity,
    );
}

proof fn lemma_flag_steps(
    a: bool,
    b: bool,
    c: bool,
    d: bool,
    e: bool,
    f: bool,
    g: bool,
    h: bool,
    i: bool,
    j: bool,
    k: bool,
    l: bool,
    m: bool,
) by (bit_vector)
    ensures
        with_bit(with_bit(with_bit(with_bit(with_bit(with_bit(with_bit(with_bit(with_bit(
            with_bit(with_bit(with_bit(with_bit(0u32, 14, a), 15, b), 18, c), 19, d), 20, e), 21, f),
            22, g), 23, h), 24, i), 25, j), 26, k), 27, l), 28, m) == flag(a, 14) | flag(b, 15) | flag(
            c,
            18,
        ) | flag(d, 19) | flag(e, 20) | flag(f, 21) | flag(g, 22) | flag(h, 23) | flag(i, 24) | flag(
            j,
            25,
        ) | flag(k, 26) | flag(l, 27) | flag(m, 28),
{
}

/// The control register word for `config`, starting from `baseline`.
#[verifier::rlimit(60)]
pub fn config_to_u32(config: &UartConfig, baseline: u32) -> (r: u32)
    ensures
        r == control_word(*config),
{
    let mut result: u32 = baseline;
    match config.parity_type {
        ParityType::Even => {
            result = clear_bit(result, 0);
        },
        ParityType::Odd => {
            result = set_bit(result, 0);
        },
    }
    result = set_bit_from_bool(result, 1, config.parity_en);
    match config.bit_mode {
        BitMode::NineBits => {
            result = set_bit(result, 4);
        },
        BitMode::EightBits => {
            result = clear_bit(result, 4);
        },
    }
    result = set_bit_from_bool(result, 6, config.doze_en);
    // Clear the idle field, then mask with the idle value.
    let unmasked = result;
    result = result & !(0x7u32 << 8u32);
    let idle = idle_bits(config.idle_config);
    result = result & (idle << 8u32);
    assert(result == 0) by {
        assert(idle <= 7 ==> (unmasked & !(0x7u32 << 8u32)) & (idle << 8u32) == 0) by (bit_vector);
    }
    let w14 = set_bit_from_bool(result, 14, config.match2_irq_en);
    let w15 = set_bit_from_bool(w14, 15, config.match1_irq_en);
    let w18 = set_bit_from_bool(w15, 18, config.rx_en);
    let w19 = set_bit_from_bool(w18, 19, config.tx_en);
    let w20 = set_bit_from_bool(w19, 20, config.idle_line_irq_en);
    let w21 = set_bit_from_bool(w20, 21, config.rx_irq_en);
    let w22 = set_bit_from_bool(w21, 22, config.tx_complete_irq_en);
    let w23 = set_bit_from_bool(w22, 23, config.tx_irq_en);
    let w24 = set_bit_from_bool(w23, 24, config.parity_error_irq_en);
    let w25 = set_bit_from_bool(w24, 25, config.framing_error_irq_en);
    let w26 = set_bit_from_bool(w25, 26, config.noise_error_irq_en);
    let w27 = set_bit_from_bool(w26, 27, config.overrun_irq_en);
    let w28 = set_bit_from_bool(w27, 28, config.invert_transmission_polarity);
    proof {
        lemma_control_word_steps(*config);
    }
    w28
}

/// The base address of a serial port's registers.
pub open spec fn uart_base(device: Device) -> u32 {
    match device {
        Device::Uart1 => addrs::UART1,
        Device::Uart2 => addrs::UART2,
        Device::Uart3 => addrs::UART3,
        Device::Uart4 => addrs::UART4,
        Device::Uart5 => addrs::UART5,
        Device::Uart6 => addrs::UART6,
        Device::Uart7 => addrs::UART7,
        Device::Uart8 => addrs::UART8,
    }
}

/// The base address of a serial port's registers.
pub fn get_addr(device: &Device) -> (r: u32)
    ensures
        r == uart_base(*device),
{
    match device {
        Device::Uart1 => addrs::UART1,
        Device::Uart2 => addrs::UART2,
        Device::Uart3 => addrs::UART3,
        Device::Uart4 => addrs::UART4,
        Device::Uart5 => addrs::UART5,
        Device::Uart6 => addrs::UART6,
        Device::Uart7 => addrs::UART7,
        Device::Uart8 => addrs::UART8,
    }
}

/// The address of a serial port's control register.
pub open spec fn control_addr(device: Device) -> u32 {
    (uart_base(device) + 0x18) as u32
}

/// The write that turns a port's software reset on or off.
pub fn uart_sw_reset(device: &Device, sw_reset: bool) -> (w: RegisterWrite)
    ensures
        w.address == uart_base(*device),
        w.value == if sw_reset { 2u32 } else { 0u32 },
{
    let value: u32 = match sw_reset {
        true => 0x2,
        false => 0x0,
    };
    RegisterWrite { address: get_addr(device), value: value }
}

/// The write that configures a port's control register.
pub fn uart_configure(device: &Device, configuration: UartConfig) -> (w: RegisterWrite)
    ensures
        w.address == control_addr(*device),
        w.value == control_word(configuration),
{
    let addr = get_addr(device) + 0x18;
    RegisterWrite { address: addr, value: config_to_u32(&configuration, 0x0) }
}

/// The write that turns off a port's receiver and transmitter, given the
/// control register's current value `baseline`.
pub fn uart_disable(device: &Device, baseline: u32) -> (w: RegisterWrite)
    ensures
        w.address == control_addr(*device),
        w.value == baseline & !(1u32 << 18u32) & !(1u32 << 19u32),
{
    let addr = get_addr(device) + 0x18;
    RegisterWrite { address: addr, value: baseline & !(0x1u32 << 18u32) & !(0x1u32 << 19u32) }
}

/// The write meant to turn on a port's receiver and transmitter, given the
/// control register's current value `baseline`. It masks the baseline with
/// the two enable bits one after the other, which no bit survives: the
/// word written is zero.
pub fn uart_enable(device: &Device, baseline: u32) -> (w: RegisterWrite)
    ensures
        w.address == control_addr(*device),
        w.value == 0,
{
    let addr = get_addr(device) + 0x18;
    let value = baseline & (0x1u32 << 18u32) & (0x1u32 << 19u32);
    assert(baseline & (0x1u32 << 18u32) & (0x1u32 << 19u32) == 0) by (bit_vector);
    RegisterWrite { address: addr, value: value }
}

} // verus!
