use hexagon::http::models::{HttpHeader as PlainHeader, HttpRequest as PlainRequest};
use hexagon::http::parser::{arr_contains, atoi, find_in, parse_command, parse_http_request, parse_response_payload};
use hexagon::http_models::{HttpHeader, HttpRequest};
use hexagon::math::decimal_text;

#[test]
fn http_model_serialization() {
    let basic_request = HttpRequest {
        method: b"GET".to_vec(),
        request_uri: b"/".to_vec(),
        host: b"joshcole.dev".to_vec(),
        headers: None,
        content: None,
    };

    let comparator = b"GET / HTTP/1.1\r\nHost: joshcole.dev\r\n\r\n".to_vec();
    let serialized = basic_request.as_vec();

    assert_eq!(comparator.len(), serialized.len());
    for i in 0..comparator.len() {
        assert_eq!(serialized.get(i), comparator.get(i));
    }
}

#[test]
fn request_with_headers_and_content() {
    let request = HttpRequest {
        method: b"POST".to_vec(),
        request_uri: b"/x".to_vec(),
        host: b"h".to_vec(),
        headers: Some(vec![HttpHeader { key: b"A".to_vec(), value: b"1".to_vec() }]),
        content: Some(b"body".to_vec()),
    };
    assert_eq!(request.as_vec(), b"POST /x HTTP/1.1\r\nHost: h\r\nA: 1\r\n\r\nbody".to_vec());

    let plain = PlainRequest {
        method: b"PUT".to_vec(),
        request_path: b"/y".to_vec(),
        host: b"h".to_vec(),
        headers: Some(vec![PlainHeader { key: b"B".to_vec(), value: b"2".to_vec() }]),
        content: Some(b"0123456789ab".to_vec()),
    };
    assert_eq!(
        plain.to_str(),
        b"PUT /y HTTP/1.1\nHOST: h\nB: 2\nContent-Length: 12\n\n0123456789ab".to_vec()
    );
    let empty = PlainRequest {
        method: b"GET".to_vec(),
        request_path: b"/".to_vec(),
        host: b"h".to_vec(),
        headers: None,
        content: None,
    };
    assert_eq!(empty.to_str(), b"GET / HTTP/1.1\nHOST: h\n\n".to_vec());
}

#[test]
fn numbers_in_text() {
    assert_eq!(atoi(b"a1b2"), 12);
    assert_eq!(atoi(b""), 0);
    assert_eq!(atoi(b"18446744073709551615"), u64::MAX);
    assert_eq!(decimal_text(0), b"0".to_vec());
    assert_eq!(decimal_text(907), b"907".to_vec());
    assert!(arr_contains(&b"+IPD,".to_vec(), b"+IPD,"));
    assert!(!arr_contains(&b"+IP".to_vec(), b"+IPD,"));
    assert!(find_in(b"xxContent-Length: 9", b"Content-Length: "));
    assert!(!find_in(b"Content", b"Content-Length: "));
    assert!(find_in(b"abc", b""));
}

#[test]
fn system_commands() {
    let command = parse_command(b"LEDS;1;-20;;7;");
    assert_eq!(&command.command, b"LEDS");
    assert_eq!(command.args, [1, -20, i32::MAX, 7, i32::MAX, i32::MAX, i32::MAX, i32::MAX, i32::MAX, i32::MAX]);
    let short = parse_command(b"SETX12;5");
    assert_eq!(&short.command, b"SETX");
    assert_eq!(short.args[0], 12);
    assert_eq!(short.args[1], i32::MAX);
    let tiny = parse_command(b"AB");
    assert_eq!(tiny.command, [b'A', b'B', 0, 0]);
    let many = parse_command(b"NAME1;2;3;4;5;6;7;8;9;10;11;");
    assert_eq!(many.args[9], 10);
}

#[test]
fn framed_payloads() {
    assert_eq!(parse_response_payload(b"junk+IPD,5:hello+IPD,3:abc"), b"helloabc".to_vec());
    assert_eq!(parse_response_payload(b"+IPD,10:short"), Vec::<u8>::new());
    assert_eq!(parse_response_payload(b"no frames"), Vec::<u8>::new());
}

#[test]
fn http_responses() {
    let response: &[u8] = b"HTTP/1.1 200 OK\r\nContent-Length: 4\r\n\r\nabc\n";
    let mut rx = b"+IPD,42:".to_vec();
    rx.extend_from_slice(response);
    let mut header = Vec::new();
    let mut content = Vec::new();
    assert!(parse_http_request(&rx, &mut header, &mut content));
    assert_eq!(header, b"HTTP/1.1 200 OK\rContent-Length: 4\r".to_vec());
    assert_eq!(content, b"abc\n".to_vec());

    let mut short = b"+IPD,20:".to_vec();
    short.extend_from_slice(b"Content-Length: 99\r\n");
    assert!(!parse_http_request(&short, &mut header, &mut content));
    assert!(header.is_empty());
    assert!(content.is_empty());
}
