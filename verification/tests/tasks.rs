use hexagon::debug::{BlinkConfig, Speed};
use hexagon::serio::{serial_available, serial_read, serial_write, serio_available, serio_handle_irq, serio_init, serio_read, serio_write, SendAction, SerialPorts, SerioDevice};
use hexagon::tasks::blink_task::BlinkTask;
use hexagon::tasks::clock_task::ClockTask;
use hexagon::tasks::periodic_task::PeriodicTask;
use hexagon::tasks::ping_task::PingTask;
use hexagon::tasks::serial_task::SerialTask;

#[test]
fn blink_task_toggles_the_led() {
    let mut task = BlinkTask::new();
    let mut config = BlinkConfig { speed: Speed::Fast, remaining_count: 2 };
    assert_eq!(task.step(&mut config, 0), None);
    assert!(task.gate.compiled);
    assert_eq!(task.step(&mut config, 10), None);
    assert_eq!(task.next_blink_event, 10 + 350_000_000);
    assert_eq!(task.step(&mut config, 20), None);
    let on = task.step(&mut config, 400_000_000).unwrap();
    assert!(on.high);
    assert_eq!(config.remaining_count, 1);
    assert_eq!(task.step(&mut config, 400_000_001), None);
    let off = task.step(&mut config, 800_000_000).unwrap();
    assert!(!off.high);
    assert_eq!(config.remaining_count, 0);
    assert_eq!(task.step(&mut config, 900_000_000), None);
    let _ = PeriodicTask::new();
}

#[test]
fn timed_reports() {
    let mut clock = ClockTask::new();
    let mut config = BlinkConfig::new();
    let frame = clock.system_loop(2_000_000, &mut config).unwrap();
    assert_eq!(&frame[..2], b"2 ");
    assert_eq!(&frame[20..], b" beep boop\n");
    assert_eq!(config, BlinkConfig { speed: Speed::Fast, remaining_count: 4 });
    assert_eq!(clock.system_loop(3_000_000, &mut config), None);

    let mut ping = PingTask::new();
    assert_eq!(ping.system_loop(1), Some(b"ping pong\n".to_vec()));
    assert_eq!(ping.system_loop(2), None);
}

#[test]
fn serial_ports_and_echo() {
    let mut ports = SerialPorts::new();
    assert!(serio_write(&mut ports, b"hi"));
    assert!(!serial_write(&mut ports, SerioDevice::Uart6, b"!"));
    assert_eq!(ports.uarts[5].tx_buffer.tail, 3);
    assert_eq!(serial_available(&ports, SerioDevice::Uart1), 0);
    assert_eq!(serial_read(&mut ports, SerioDevice::Uart1), None);
    let _ = serio_init(&mut ports);
    let statuses = [0u32, 0, 0, 0, 0, 1 << 21];
    let received = vec![vec![], vec![], vec![], vec![], vec![], b"abc".to_vec()];
    let decisions = serio_handle_irq(&mut ports, &statuses, &received);
    assert_eq!(decisions[0], None);
    assert_eq!(decisions[5], Some((false, SendAction::Idle)));
    assert_eq!(serio_available(&ports), 3);
    assert_eq!(serio_read(&mut ports), Some(b'a'));

    let mut echo = SerialTask::new();
    assert!(!echo.system_loop(0, &mut ports));
    assert_eq!(serio_available(&ports), 0);
    let queued = &ports.uarts[5].tx_buffer.data[..ports.uarts[5].tx_buffer.tail];
    let mut expected = b"hi!received bc".to_vec();
    expected.extend_from_slice(&[0u8; 18]);
    assert_eq!(queued, &expected[..]);
}
