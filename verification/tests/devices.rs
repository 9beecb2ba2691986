use hexagon::drivers::ws2812v2::{Stage, WS2812V2Driver};
use hexagon::phys::irq::Irq;
use hexagon::phys::pins::{Alt, DriveStrength, Mode, PinSetup, PinSpeed, Power, PullUpDown};
use hexagon::phys::uart::{uart_sw_reset, Device};
use hexagon::serio::{SendAction, Uart};

#[test]
fn strip_driver_sends_a_frame() {
    let mut driver = WS2812V2Driver::new(18, 1);
    driver.set_color(0, 0x80_0000);
    driver.set_color(5, 0xFFFFFF);
    assert_eq!(driver.leds[5], 0);
    assert_eq!(driver.process(0), None);
    driver.flush();
    assert_eq!(driver.process(0), Some(Power::High));
    assert_eq!(driver.next_event, 700);
    assert_eq!(driver.stage, Stage::Second);
    assert_eq!(driver.process(100), None);
    assert_eq!(driver.process(700), Some(Power::Low));
    assert_eq!(driver.next_event, 1300);
    assert_eq!(driver.bit, 22);
    assert_eq!(driver.process(1300), Some(Power::High));
    assert_eq!(driver.next_event, 1650);

    // Run the frame out: two LED slots of 24 bits, two halves each, then
    // the rest.
    let mut now = driver.next_event;
    let mut ticks = 3;
    while !driver.rest {
        assert!(driver.process(now).is_some());
        now = driver.next_event;
        ticks += 1;
    }
    assert_eq!(ticks, 2 * 24 * 2);
    assert_eq!(driver.process(now), Some(Power::Low));
    assert_eq!(driver.next_event, now + 85_000);
    assert!(!driver.flush);
    assert_eq!(driver.process(now + 85_000), None);
}

#[test]
fn serial_port_queues() {
    let mut port = Uart::new(Device::Uart6, 1, 0, Irq::Uart6);
    assert_eq!(port.handle_irq(1 << 23, &[]), None);
    assert!(port.write(b"ab"));
    assert!(!port.write(b"c"));
    assert_eq!(port.available(), 0);
    let (clear_idle, action) = port.handle_irq((1 << 23) | (1 << 21) | (1 << 20), b"xy").unwrap();
    assert!(clear_idle);
    assert_eq!(action, SendAction::Write(b'a'));
    assert_eq!(port.available(), 2);
    assert_eq!(port.read(), Some(b'x'));
    assert_eq!(port.read(), Some(b'y'));
    assert_eq!(port.read(), None);
    assert_eq!(port.handle_send_irq(0), SendAction::Idle);
    assert_eq!(port.handle_send_irq(1 << 23), SendAction::Write(b'b'));
    assert_eq!(port.handle_send_irq(1 << 23), SendAction::Write(b'c'));
    assert_eq!(port.handle_send_irq(1 << 23), SendAction::StopTransmit);
    assert!(!port.handle_receive_irq(0, b"z"));
    assert_eq!(port.available(), 0);
}

#[test]
fn serial_port_drops_what_does_not_fit() {
    let mut port = Uart::new(Device::Uart1, 24, 25, Irq::Uart1);
    let big = [7u8; 300];
    port.write(&big);
    assert_eq!(port.tx_buffer.tail, 256);
}

#[test]
fn uart_setup_lists_pin_steps_in_order() {
    let port = Uart::new(Device::Uart6, 1, 0, Irq::Uart6);
    let steps = port.setup();
    assert_eq!(steps.len(), 7);
    assert_eq!(steps[0], PinSetup::Mux { pin: 1, alt: Alt::Alt2 });
    match steps[1] {
        PinSetup::Pad { pin, config } => {
            assert_eq!(pin, 1);
            assert_eq!(config.resistance, PullUpDown::PullDown100k);
            assert!(config.fast_slew_rate);
        }
        _ => panic!("expected the transmit pad"),
    }
    assert_eq!(steps[2], PinSetup::Mux { pin: 0, alt: Alt::Alt2 });
    match steps[3] {
        PinSetup::Pad { pin, config } => {
            assert_eq!(pin, 0);
            assert_eq!(config.resistance, PullUpDown::PullUp22k);
            assert!(config.pull_keep_en);
        }
        _ => panic!("expected the receive pad"),
    }
    assert_eq!(steps[4], PinSetup::Direction { pin: 1, mode: Mode::Output });
    assert_eq!(steps[5], PinSetup::Direction { pin: 0, mode: Mode::Input });
    assert_eq!(steps[6], PinSetup::Level { pin: 1, power: Power::Low });
}

#[test]
fn uart_register_setup_resets_then_configures() {
    let port = Uart::new(Device::Uart6, 1, 0, Irq::Uart6);
    let writes = port.register_setup(0xFFFF_FFFF);
    assert_eq!(writes.len(), 5);
    // Receiver and transmitter enable bits cleared, the rest kept.
    assert_eq!(writes[0].value, 0xFFF3_FFFF);
    assert_eq!(writes[0].address, writes[3].address);
    assert_eq!(writes[1], uart_sw_reset(&Device::Uart6, true));
    assert_eq!(writes[1].value, 2);
    assert_eq!(writes[2], uart_sw_reset(&Device::Uart6, false));
    assert_eq!(writes[2].value, 0);
    assert_eq!(writes[4].address, 0x401F_8550);
    assert_eq!(writes[4].value, 1);
}

#[test]
fn strip_driver_setup_prepares_data_pin() {
    let driver = WS2812V2Driver::new(18, 1);
    let steps = driver.setup();
    assert_eq!(steps.len(), 3);
    assert_eq!(steps[0], PinSetup::Direction { pin: 18, mode: Mode::Output });
    match steps[1] {
        PinSetup::Pad { pin, config } => {
            assert_eq!(pin, 18);
            assert_eq!(config.speed, PinSpeed::Fast150MHz);
            assert_eq!(config.drive_strength, DriveStrength::Disabled);
            assert!(config.pull_keep_en);
        }
        _ => panic!("expected the data pad"),
    }
    assert_eq!(steps[2], PinSetup::Level { pin: 18, power: Power::Low });
}
