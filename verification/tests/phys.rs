use hexagon::phys::dma::{dma_configure_source, dma_destination, dma_disable, dma_enable, DMASource};
use hexagon::phys::irq::{irq_clear_pending, irq_disable, irq_enable, Irq};
use hexagon::phys::pins::{pin_mode, pin_mux_config, pin_out, pin_pad_config, Alt, GpioBank, Mode, Power};
use hexagon::phys::uart::{
    config_to_u32, get_addr, uart_configure, uart_disable, uart_enable, uart_sw_reset, BitMode, Device,
    IdleConfiguration, ParityType, UartConfig,
};
use hexagon::phys::{clear_bit, set_bit, Bitwise, Dir, RegisterWrite};

fn quiet_config() -> UartConfig {
    UartConfig {
        invert_transmission_polarity: false,
        overrun_irq_en: false,
        noise_error_irq_en: false,
        framing_error_irq_en: false,
        parity_error_irq_en: false,
        tx_irq_en: false,
        tx_complete_irq_en: false,
        rx_irq_en: true,
        idle_line_irq_en: false,
        tx_en: false,
        rx_en: false,
        match1_irq_en: false,
        match2_irq_en: false,
        idle_config: IdleConfiguration::Idle16Char,
        doze_en: true,
        bit_mode: BitMode::NineBits,
        parity_en: true,
        parity_type: ParityType::Odd,
    }
}

#[test]
fn bits() {
    assert_eq!(set_bit(0, 3), 8);
    assert_eq!(clear_bit(0xFF, 0), 0xFE);
    assert_eq!(clear_bit(set_bit(0x10, 31), 31), 0x10);
}

#[test]
fn uart_registers() {
    assert_eq!(get_addr(&Device::Uart3), 0x4018_C000);
    assert_eq!(uart_sw_reset(&Device::Uart1, true), RegisterWrite { address: 0x4018_4000, value: 2 });
    assert_eq!(uart_sw_reset(&Device::Uart1, false).value, 0);
    // The low settings are lost to the idle mask: only the flags remain.
    assert_eq!(config_to_u32(&quiet_config(), 0xFFFF_FFFF), 0x20_0000);
    let mut all = quiet_config();
    all.tx_en = true;
    all.rx_en = true;
    all.invert_transmission_polarity = true;
    assert_eq!(uart_configure(&Device::Uart2, all), RegisterWrite {
        address: 0x4018_8018,
        value: 0x1000_0000 | 0x20_0000 | 0x8_0000 | 0x4_0000,
    });
    assert_eq!(uart_enable(&Device::Uart1, 0xFFFF_FFFF), RegisterWrite { address: 0x4018_4018, value: 0 });
    assert_eq!(uart_disable(&Device::Uart1, 0xFFFF_FFFF).value, 0xFFF3_FFFF);
}

#[test]
fn interrupt_banks() {
    assert_eq!(irq_enable(Irq::Uart1, 0), RegisterWrite { address: 0xE000_E100, value: 1 << 20 });
    assert_eq!(irq_enable(Irq::Gpt1, 1), RegisterWrite { address: 0xE000_E10C, value: 0x11 });
    assert_eq!(irq_disable(Irq::PeriodicTimer, 0), RegisterWrite { address: 0xE000_E18C, value: 1 << 26 });
    let writes = irq_clear_pending();
    assert_eq!(writes.len(), 4);
    assert_eq!(writes[3], RegisterWrite { address: 0xE000_E28C, value: 0 });
}

#[test]
fn dma_channels() {
    assert_eq!(dma_enable(2, 0), RegisterWrite { address: 0x400E_C008, value: 0x8000_0000 });
    assert_eq!(dma_disable(2, 0xFFFF_FFFF).value, 0x7FFF_FFFF);
    assert_eq!(dma_configure_source(0, DMASource::Uart1Tx, 0xFF).value, 0xC2);
    assert_eq!(dma_configure_source(0, DMASource::Uart8Rx, 0).value, 73);
    assert_eq!(dma_destination(1, 0x1234), RegisterWrite { address: 0x400E_9030, value: 0x1234 });
}

#[test]
fn board_pins() {
    assert_eq!(pin_mux_config(13, Alt::Alt5), RegisterWrite { address: 0x401F_8148, value: 5 });
    assert_eq!(pin_pad_config(13, Bitwise::Or, 0x1, 0x10), RegisterWrite { address: 0x401F_7F58, value: 0x11 });
    assert_eq!(pin_pad_config(13, Bitwise::And, 0x1, 0x11).value, 0x1);
    assert_eq!(pin_pad_config(13, Bitwise::Eq, 0x7, 0x11).value, 0x7);
    let out = pin_out(13, Power::High);
    assert_eq!(out.bank, GpioBank::Gpio7);
    assert_eq!(out.mask, 8);
    assert!(out.high);
    assert!(!pin_out(0, Power::Low).high);
    assert_eq!(pin_mode(13, Mode::Output), (GpioBank::Gpio7, Dir::Output));
    assert_eq!(pin_mode(2, Mode::Input), (GpioBank::Gpio9, Dir::Input));
}
