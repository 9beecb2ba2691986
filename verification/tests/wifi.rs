use hexagon::datastructures::Vector;
use hexagon::drivers::wifi::{apply_transform, Transform, WifiCommand, WifiCommandSequence, WifiDriver};
use hexagon::http_models::HttpRequest;
use hexagon::serio::SerioDevice;

fn text(bytes: &[u8]) -> Vector<u8> {
    Vector::from_slice(bytes)
}

#[test]
fn command_builders() {
    let command = WifiCommand::new()
        .with_command(b"AT+")
        .join_vec(text(b"X"))
        .with_expected_response(b"OK")
        .with_delay(5)
        .with_timeout(9)
        .with_transform(Transform::Identity);
    assert_eq!(command.command.as_slice(), b"AT+X");
    assert_eq!(command.expected_response, Some(b"OK".to_vec()));
    assert_eq!(command.delay, 5);
    assert_eq!(command.timeout, Some(9));
    assert_eq!(command.with_vec_command(text(b"!")).command.as_slice(), b"AT+X!");
}

#[test]
fn dns_replies() {
    let reply = text(b"+CIPDOMAIN:1.2.3.4\r\nOK\r\n");
    assert_eq!(apply_transform(Transform::DnsAddress, &reply).as_slice(), b"1.2.3.4");
    assert_eq!(apply_transform(Transform::Identity, &reply).as_slice(), reply.as_slice());
}

#[test]
fn sequence_waits_for_replies() {
    let mut sequence = WifiCommandSequence::new(vec![
        WifiCommand::new().with_command(b"AT").with_expected_response(b"OK"),
        WifiCommand::new().with_command(b"AT+RST"),
    ]);
    let first = sequence.process(0, &text(b""), 0);
    assert_eq!(first.emit, Some(b"AT\r\n".to_vec()));
    assert!(sequence.command_sent);
    assert_eq!(sequence.time_target, 250_000_000);
    let early = sequence.process(100, &text(b"OK\r\n"), 4);
    assert_eq!(early.emit, None);
    let waiting = sequence.process(250_000_000, &text(b"busy"), 4);
    assert!(!waiting.clear_rx);
    assert_eq!(sequence.index, 0);
    let done = sequence.process(500_000_000, &text(b"OK\r\n"), 4);
    assert!(done.clear_rx);
    assert!(!done.finished);
    assert_eq!(sequence.index, 1);
    let last = sequence.process(750_000_000, &text(b""), 0);
    assert_eq!(last.emit, Some(b"AT+RST\r\n".to_vec()));
    assert!(last.finished);
    assert!(sequence.is_complete());
    assert_eq!(sequence.process(2_000_000_000, &text(b""), 0).emit, None);
}

#[test]
fn sequence_aborts_on_error_text() {
    let mut command = WifiCommand::new().with_command(b"AT");
    command.error_response = Some(b"ERROR".to_vec());
    let mut sequence = WifiCommandSequence::new_with_callback(vec![command], 7);
    sequence.process(0, &text(b""), 0);
    let step = sequence.process(250_000_000, &text(b"ERROR\r\n"), 7);
    assert!(step.clear_rx);
    assert!(sequence.is_aborted());
    assert!(!sequence.is_complete());
    assert_eq!(sequence.callback, Some(7));
}

#[test]
fn driver_runs_queued_sequences() {
    let mut driver = WifiDriver::new(SerioDevice::Uart6, 5, 6);
    driver.connect(b"net", b"pw");
    driver.reset();
    assert_eq!(driver.queued_commands.size(), 2);
    let start = driver.process(0, &text(b""), 0);
    assert!(start.step.is_none());
    assert!(driver.active_command.is_some());
    assert_eq!(driver.process(10, &text(b""), 0).step.is_none(), true);
    let first = driver.process(150_000_000, &text(b""), 0);
    assert_eq!(first.step.unwrap().emit, Some(b"AT\r\n".to_vec()));
    assert_eq!(WifiDriver::emit(&text(b"AT")), b"AT\r\n".to_vec());
}

#[test]
fn http_request_commands() {
    let mut driver = WifiDriver::new(SerioDevice::Uart6, 5, 6);
    let request = HttpRequest {
        method: b"GET".to_vec(),
        request_uri: b"/".to_vec(),
        host: b"h".to_vec(),
        headers: None,
        content: None,
    };
    driver.http_request(text(b"1.2.3.4"), request, 3);
    driver.dns_lookup(b"example.com", 4);
    let queued = driver.queued_commands.as_slice();
    assert_eq!(queued[0].commands.len(), 5);
    assert_eq!(queued[0].commands[1].command.as_slice(), b"AT+CIPSTART=\"TCP\",\"1.2.3.4\",80");
    assert_eq!(queued[0].commands[2].command.as_slice(), b"AT+CIPSEND=27                  ");
    assert_eq!(queued[0].commands[3].command.as_slice(), b"GET / HTTP/1.1\r\nHost: h\r\n\r\n");
    assert_eq!(queued[1].commands[1].command.as_slice(), b"AT+CIPDOMAIN=\"example.com\"");
    assert_eq!(queued[1].callback, Some(4));
}
