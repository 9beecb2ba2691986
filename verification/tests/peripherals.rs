use hexagon::drivers::esp8266::{
    esp8266_at, esp8266_auto_connect, esp8266_block_until, esp8266_close_tcp, esp8266_configure_echo,
    esp8266_connect_to_wifi, esp8266_create_server, esp8266_dhcp_mode, esp8266_disconnect_from_wifi,
    esp8266_dns_lookup, esp8266_list_wifi, esp8266_multiple_connections, esp8266_open_tcp, esp8266_raw,
    esp8266_read_ip, esp8266_reset, esp8266_set_ip, esp8266_set_server_timeout, esp8266_version, esp8266_wifi_mode,
    esp8266_write, BlockStep, WifiMode,
};
use hexagon::drivers::max31820::Max31820Driver;
use hexagon::drivers::msgeq7::MSGEQ7Driver;
use hexagon::drivers::ws2812::{Node, WS2812Driver};
use hexagon::phys::pins::{Alt, Mode, PinSetup, Power, PullUpDown};

#[test]
fn esp8266_simple_commands() {
    assert_eq!(esp8266_at(), b"AT\r\n".to_vec());
    assert_eq!(esp8266_reset(), b"AT+RST\r\n".to_vec());
    assert_eq!(esp8266_configure_echo(true), b"ATE1\r\n".to_vec());
    assert_eq!(esp8266_configure_echo(false), b"ATE0\r\n".to_vec());
    assert_eq!(esp8266_disconnect_from_wifi(), b"AT+CWQAP\r\n".to_vec());
    assert_eq!(esp8266_version(), b"AT+GMR\r\n".to_vec());
    assert_eq!(esp8266_read_ip(), b"AT+CIFSR\r\n".to_vec());
    assert_eq!(esp8266_list_wifi(), b"AT+CWLAP\r\n".to_vec());
    assert_eq!(esp8266_auto_connect(true), b"AT+CWAUTOCONN=1\r\n".to_vec());
    assert_eq!(esp8266_auto_connect(false), b"AT+CWAUTOCONN=0\r\n".to_vec());
    assert_eq!(esp8266_multiple_connections(true), b"AT+CIPMUX=1\r\n".to_vec());
    assert_eq!(esp8266_multiple_connections(false), b"AT+CIPMUX=0\r\n".to_vec());
    assert_eq!(esp8266_raw(b"AT+X"), b"AT+X\r\n".to_vec());
}

#[test]
fn esp8266_commands_with_arguments() {
    assert_eq!(esp8266_dhcp_mode(WifiMode::Client, true), b"0,0\r\n".to_vec());
    assert_eq!(esp8266_dhcp_mode(WifiMode::All, false), b"2,1\r\n".to_vec());
    assert_eq!(esp8266_wifi_mode(WifiMode::Host), b"AT+CWMODE=2\r\n".to_vec());
    assert_eq!(esp8266_connect_to_wifi(b"net", b"pw"), b"AT+CWJAP=\"net\",\"pw\"\r\n".to_vec());
    assert_eq!(esp8266_dns_lookup(b"example.org"), b"AT+CIPDOMAIN=\"example.org\"\r\n".to_vec());
    assert_eq!(esp8266_open_tcp(b"1.2.3.4", None), b"AT+CIPSTART=\"1.2.3.4\"\r\n".to_vec());
    assert_eq!(esp8266_open_tcp(b"1.2.3.4", Some(3)), b"AT+CIPSTART=3,\"1.2.3.4\"\r\n".to_vec());
    assert_eq!(esp8266_close_tcp(None), b"AT+CIPCLOSE\r\n".to_vec());
    assert_eq!(esp8266_close_tcp(Some(12)), b"AT+CIPCLOSE=12\r\n".to_vec());
    assert_eq!(esp8266_set_ip(b"10.0.0.1"), b"AT+CIPAP=\"10.0.0.1\"\r\n".to_vec());
    assert_eq!(esp8266_create_server(8080), b"AT+CIPSERVER=1,8080\r\n".to_vec());
    assert_eq!(esp8266_set_server_timeout(0), b"AT+CIPSTO=0\r\n".to_vec());
}

#[test]
fn esp8266_write_announces_then_sends() {
    let (head, body) = esp8266_write(b"hello", None);
    assert_eq!(head, b"AT+CIPSEND=5\r\n".to_vec());
    assert_eq!(body, b"hello\r\n".to_vec());
    let (head, body) = esp8266_write(b"", Some(1));
    assert_eq!(head, b"AT+CIPSEND=1,0\r\n".to_vec());
    assert_eq!(body, b"\r\n".to_vec());
}

#[test]
fn esp8266_waiting_for_a_reply() {
    assert_eq!(esp8266_block_until(b"xx OK\r\n", b"OK", 100, 50), BlockStep::Found);
    assert_eq!(esp8266_block_until(b"ERROR", b"OK", 100, 50), BlockStep::TimedOut);
    assert_eq!(esp8266_block_until(b"ERROR", b"OK", 50, 50), BlockStep::Wait);
    assert_eq!(esp8266_block_until(b"", b"", 0, 50), BlockStep::Found);
}

#[test]
fn first_strip_driver_spells_green_red_blue() {
    let mut driver = WS2812Driver::<2>::new(18);
    assert_eq!(driver.flush(), vec![false; 48]);
    driver.set_color(1, 0x80_01_FF);
    driver.set_color(2, 0xFFFFFF);
    assert_eq!(driver.nodes[1], Node::new(0x80, 0x01, 0xFF));
    assert_eq!(driver.nodes[0], Node::new(0, 0, 0));
    let bits = driver.flush();
    assert_eq!(bits.len(), 48);
    let second: Vec<bool> = bits[24..].to_vec();
    let mut expected = Vec::new();
    for byte in [0x01u8, 0x80, 0xFF] {
        for k in (0..8).rev() {
            expected.push(byte & (1 << k) != 0);
        }
    }
    assert_eq!(second, expected);
    driver.iterate();
    assert_eq!(driver.iteration, 1);
    let steps = driver.init();
    assert_eq!(steps.len(), 3);
    assert_eq!(steps[0], PinSetup::Direction { pin: 18, mode: Mode::Output });
    assert_eq!(steps[2], PinSetup::Level { pin: 18, power: Power::Low });
}

#[test]
fn equalizer_pins_are_set_up_in_order() {
    let driver = MSGEQ7Driver::new(9, 11, 10, 12);
    let steps = driver.setup();
    assert_eq!(steps.len(), 9);
    assert_eq!(steps[0], PinSetup::Direction { pin: 11, mode: Mode::Output });
    assert_eq!(steps[2], PinSetup::Direction { pin: 10, mode: Mode::Input });
    assert_eq!(steps[3], PinSetup::Mux { pin: 12, alt: Alt::Alt5 });
    match steps[6] {
        PinSetup::Pad { pin, config } => {
            assert_eq!(pin, 10);
            assert_eq!(config.resistance, PullUpDown::PullDown100k);
            assert!(!config.hysterisis);
            assert!(config.fast_slew_rate);
        },
        _ => panic!("expected a pad setting"),
    }
}

#[test]
fn thermometer_bits_bytes_and_words() {
    let driver = Max31820Driver::new(14);
    assert_eq!(driver.setup(), vec![PinSetup::Mux { pin: 14, alt: Alt::Alt5 }]);
    assert_eq!(
        driver.pull_low(),
        vec![PinSetup::Direction { pin: 14, mode: Mode::Output }, PinSetup::Level { pin: 14, power: Power::Low }]
    );
    assert_eq!(driver.as_input().len(), 2);
    assert_eq!(Max31820Driver::read_bit(5, 3), 1);
    assert_eq!(Max31820Driver::read_bit(3, 3), 0);
    assert_eq!(Max31820Driver::read_byte(&[1, 0, 1, 0, 0, 0, 0, 1]), 0b1000_0101);
    assert_eq!(Max31820Driver::read_byte(&[0; 8]), 0);
    assert_eq!(Max31820Driver::temperature_word(0x91, 0x01), 0x0191);
    assert!(Max31820Driver::detect_pulse(&[0, 0, 1]));
    assert!(!Max31820Driver::detect_pulse(&[0, 0]));
}
