use hexagon::debug::{blink, blink_accumulate, debug_hex, debug_str, debug_u32, debug_u64, BlinkConfig, Speed};
use hexagon::kernel::teensy_debug;

fn bytes_of(parts: &[&[u8]]) -> Vec<u8> {
    let mut out = Vec::new();
    for part in parts {
        out.extend_from_slice(part);
    }
    out
}

#[test]
fn debug_frames() {
    assert_eq!(debug_str(b"hi"), b"hi\n".to_vec());
    assert_eq!(debug_hex(255, b"x"), bytes_of(&[b"0x", b"FF                  ", b" x\n"]));
    assert_eq!(debug_u64(42, b"ok"), bytes_of(&[b"42                  ", b" ok\n"]));
    assert_eq!(debug_u32(7, b""), bytes_of(&[b"7                   ", b" \n"]));
}

#[test]
fn kernel_debug_frames() {
    assert_eq!(hexagon::kernel::debug::debug_hex(1, b"a"), bytes_of(&[b"0x", b"1                   ", b"a\n"]));
    assert_eq!(hexagon::kernel::debug::debug_u64(3, b"b"), bytes_of(&[b"3                   ", b"b\n"]));
    assert_eq!(teensy_debug(16), bytes_of(&[b"0x", b"10                  ", b"TEENSY DEBUG\n"]));
}

#[test]
fn blink_requests() {
    let mut config = BlinkConfig::new();
    blink(&mut config, 3, Speed::Fast);
    assert_eq!(config, BlinkConfig { speed: Speed::Fast, remaining_count: 6 });
    blink(&mut config, 1, Speed::Fast);
    assert_eq!(config.remaining_count, 6);
    blink(&mut config, 1, Speed::Slow);
    assert_eq!(config, BlinkConfig { speed: Speed::Slow, remaining_count: 2 });
    blink_accumulate(&mut config);
    assert_eq!(config, BlinkConfig { speed: Speed::Fast, remaining_count: 4 });

    let mut kernel_config = hexagon::kernel::debug::BlinkConfig::new();
    hexagon::kernel::debug::blink(&mut kernel_config, 3, hexagon::kernel::debug::Speed::Fast);
    assert_eq!(kernel_config.remaining_count, 3);
    hexagon::kernel::debug::blink(&mut kernel_config, 9, hexagon::kernel::debug::Speed::Slow);
    assert_eq!(kernel_config.remaining_count, 3);
}

#[test]
fn status_led() {
    assert!(hexagon::debug::blink_led_on().high);
    assert!(!hexagon::debug::blink_led_off().high);
    assert_eq!(hexagon::debug::blink_led_on().mask, 8);
    assert_eq!(hexagon::debug::speed_nanos(Speed::Slow), 1_000_000_000);
    assert_eq!(hexagon::kernel::debug::speed_nanos(hexagon::kernel::debug::Speed::Slow), 1_100_000_000);
}
