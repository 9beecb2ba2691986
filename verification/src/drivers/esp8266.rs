//! The commands of the ESP8266 WiFi module's AT instruction set: each
//! function gives the exact bytes to write to the module's serial port.
//! Writing them, and reading the replies, is the caller's.
use vstd::prelude::*;
use vstd::string::StringSliceAdditionalSpecFns;
use crate::debug::append_bytes;
use crate::math::{decimal_text, digit_chars, hex_char, int_to_hex};
use crate::strings::{bytes_contain, contains_bytes};

verus! {

/// Whether the module is a client, a host, or both.
#[derive(Copy, Clone, PartialEq, Eq, Structural, Debug)]
pub enum WifiMode {
    Client,
    Host,
    All,
}

/// The number the module gives a mode.
pub open spec fn mode_number(mode: WifiMode) -> u8 {
    match mode {
        WifiMode::Client => 1,
        WifiMode::Host => 2,
        WifiMode::All => 3,
    }
}

/// The number the module gives a mode.
pub fn wifi_mode_number(mode: WifiMode) -> (n: u8)
    ensures
        n == mode_number(mode),
{
    match mode {
        WifiMode::Client => 1,
        WifiMode::Host => 2,
        WifiMode::All => 3,
    }
}

/// The line ending of a command.
pub open spec fn crlf() -> Seq<u8> {
    seq![13u8, 10u8]
}

/// The decimal digits of `n`, most significant first.
pub open spec fn decimal(n: nat) -> Seq<u8> {
    digit_chars(n, 10).reverse()
}

/// The double quote.
pub open spec fn dq() -> Seq<u8> {
    seq![34u8]
}

/// A command line: `command` and the line ending.
pub open spec fn command_line(command: Seq<u8>) -> Seq<u8> {
    command + crlf()
}

/// `AT`: checks that the module is healthy.
pub fn esp8266_at() -> (r: Vec<u8>)
    ensures
        r@ == command_line("AT".spec_bytes()),
{
    esp8266_raw("AT".as_bytes())
}

/// `AT+RST`: restarts the module's software.
pub fn esp8266_reset() -> (r: Vec<u8>)
    ensures
        r@ == command_line("AT+RST".spec_bytes()),
{
    esp8266_raw("AT+RST".as_bytes())
}

/// `ATE1` or `ATE0`: whether the module echoes the commands it receives.
pub fn esp8266_configure_echo(enabled: bool) -> (r: Vec<u8>)
    ensures
        enabled ==> r@ == command_line("ATE1".spec_bytes()),
        !enabled ==> r@ == command_line("ATE0".spec_bytes()),
{
    if enabled {
        esp8266_raw("ATE1".as_bytes())
    } else {
        esp8266_raw("ATE0".as_bytes())
    }
}

/// The arguments of the DHCP setting: the mode's number less one, a comma,
/// then `0` when DHCP is enabled and `1` when it is not.
pub fn esp8266_dhcp_mode(mode: WifiMode, dhcp_enabled: bool) -> (r: Vec<u8>)
    ensures
        r@ == decimal((mode_number(mode) - 1) as nat) + ",".spec_bytes() + if dhcp_enabled {
            command_line("0".spec_bytes())
        } else {
            command_line("1".spec_bytes())
        },
{
    let mut r = decimal_text((wifi_mode_number(mode) - 1) as u64);
    append_bytes(&mut r, ",".as_bytes());
    if dhcp_enabled {
        append_bytes(&mut r, "0".as_bytes());
    } else {
        append_bytes(&mut r, "1".as_bytes());
    }
    r.push(13u8);
    r.push(10u8);
    assert(r@ =~= decimal((mode_number(mode) - 1) as nat) + ",".spec_bytes() + if dhcp_enabled {
        command_line("0".spec_bytes())
    } else {
        command_line("1".spec_bytes())
    });
    r
}

/// `AT+CWMODE=<mode>`: makes the module a client, a host, or both.
pub fn esp8266_wifi_mode(mode: WifiMode) -> (r: Vec<u8>)
    ensures
        r@ == "AT+CWMODE=".spec_bytes() + seq![hex_char(mode_number(mode))] + crlf(),
{
    let mut r: Vec<u8> = Vec::new();
    append_bytes(&mut r, "AT+CWMODE=".as_bytes());
    r.push(int_to_hex(wifi_mode_number(mode)));
    r.push(13u8);
    r.push(10u8);
    assert(r@ =~= "AT+CWMODE=".spec_bytes() + seq![hex_char(mode_number(mode))] + crlf());
    r
}

/// `AT+CWJAP="<ssid>","<pwd>"`: joins an access point.
pub fn esp8266_connect_to_wifi(ssid: &[u8], pwd: &[u8]) -> (r: Vec<u8>)
    ensures
        r@ == "AT+CWJAP=".spec_bytes() + dq() + ssid@ + dq() + ",".spec_bytes() + dq() + pwd@ + dq() + crlf(),
{
    let mut r: Vec<u8> = Vec::new();
    append_bytes(&mut r, "AT+CWJAP=".as_bytes());
    r.push(34u8);
    append_bytes(&mut r, ssid);
    r.push(34u8);
    append_bytes(&mut r, ",".as_bytes());
    r.push(34u8);
    append_bytes(&mut r, pwd);
    r.push(34u8);
    r.push(13u8);
    r.push(10u8);
    assert(r@ =~= "AT+CWJAP=".spec_bytes() + dq() + ssid@ + dq() + ",".spec_bytes() + dq() + pwd@ + dq() + crlf());
    r
}

/// `AT+CWQAP`: leaves the access point.
pub fn esp8266_disconnect_from_wifi() -> (r: Vec<u8>)
    ensures
        r@ == command_line("AT+CWQAP".spec_bytes()),
{
    esp8266_raw("AT+CWQAP".as_bytes())
}

/// `AT+CIPDOMAIN="<domain>"`: looks up a domain's address.
pub fn esp8266_dns_lookup(domain: &[u8]) -> (r: Vec<u8>)
    ensures
        r@ == "AT+CIPDOMAIN=".spec_bytes() + dq() + domain@ + dq() + crlf(),
{
    let mut r: Vec<u8> = Vec::new();
    append_bytes(&mut r, "AT+CIPDOMAIN=".as_bytes());
    r.push(34u8);
    append_bytes(&mut r, domain);
    r.push(34u8);
    r.push(13u8);
    r.push(10u8);
    assert(r@ =~= "AT+CIPDOMAIN=".spec_bytes() + dq() + domain@ + dq() + crlf());
    r
}

/// `AT+CIPSTART="<domain>"`, or `AT+CIPSTART=<id>,"<domain>"` on connection
/// `id`: opens a TCP connection.
pub fn esp8266_open_tcp(domain: &[u8], id: Option<u8>) -> (r: Vec<u8>)
    ensures
        r@ == match id {
            None => "AT+CIPSTART=".spec_bytes() + dq(),
            Some(con) => "AT+CIPSTART=".spec_bytes() + decimal(con as nat) + ",".spec_bytes() + dq(),
        } + domain@ + dq() + crlf(),
{
    let mut r: Vec<u8> = Vec::new();
    append_bytes(&mut r, "AT+CIPSTART=".as_bytes());
    match id {
        None => {},
        Some(con) => {
            let digits = decimal_text(con as u64);
            append_bytes(&mut r, digits.as_slice());
            append_bytes(&mut r, ",".as_bytes());
        },
    }
    r.push(34u8);
    append_bytes(&mut r, domain);
    r.push(34u8);
    r.push(13u8);
    r.push(10u8);
    assert(r@ =~= match id {
        None => "AT+CIPSTART=".spec_bytes() + dq(),
        Some(con) => "AT+CIPSTART=".spec_bytes() + decimal(con as nat) + ",".spec_bytes() + dq(),
    } + domain@ + dq() + crlf());
    r
}

/// `AT+GMR`: asks for the firmware version.
pub fn esp8266_version() -> (r: Vec<u8>)
    ensures
        r@ == command_line("AT+GMR".spec_bytes()),
{
    esp8266_raw("AT+GMR".as_bytes())
}

/// Sending `content` over a connection, in two parts: first the
/// announcement `AT+CIPSEND=<length>` (or `AT+CIPSEND=<id>,<length>` on
/// connection `id`), after which the caller waits for `OK`; then the
/// content itself, with the line ending.
pub fn esp8266_write(content: &[u8], id: Option<u8>) -> (r: (Vec<u8>, Vec<u8>))
    ensures
        r.0@ == "AT+CIPSEND=".spec_bytes() + match id {
            None => Seq::<u8>::empty(),
            Some(con) => decimal(con as nat) + ",".spec_bytes(),
        } + decimal(content@.len()) + crlf(),
        r.1@ == content@ + crlf(),
{
    let mut head: Vec<u8> = Vec::new();
    append_bytes(&mut head, "AT+CIPSEND=".as_bytes());
    match id {
        None => {},
        Some(con) => {
            let digits = decimal_text(con as u64);
            append_bytes(&mut head, digits.as_slice());
            append_bytes(&mut head, ",".as_bytes());
        },
    }
    let length = decimal_text(content.len() as u64);
    append_bytes(&mut head, length.as_slice());
    head.push(13u8);
    head.push(10u8);
    assert(head@ =~= "AT+CIPSEND=".spec_bytes() + match id {
        None => Seq::<u8>::empty(),
        Some(con) => decimal(con as nat) + ",".spec_bytes(),
    } + decimal(content@.len()) + crlf());
    let mut body: Vec<u8> = Vec::new();
    append_bytes(&mut body, content);
    body.push(13u8);
    body.push(10u8);
    assert(body@ =~= content@ + crlf());
    (head, body)
}

/// `AT+CIPCLOSE`, or `AT+CIPCLOSE=<id>` for connection `id`: closes a
/// connection.
pub fn esp8266_close_tcp(id: Option<u8>) -> (r: Vec<u8>)
    ensures
        r@ == "AT+CIPCLOSE".spec_bytes() + match id {
            None => Seq::<u8>::empty(),
            Some(con) => "=".spec_bytes() + decimal(con as nat),
        } + crlf(),
{
    let mut r: Vec<u8> = Vec::new();
    append_bytes(&mut r, "AT+CIPCLOSE".as_bytes());
    match id {
        None => {},
        Some(con) => {
            append_bytes(&mut r, "=".as_bytes());
            let digits = decimal_text(con as u64);
            append_bytes(&mut r, digits.as_slice());
        },
    }
    r.push(13u8);
    r.push(10u8);
    assert(r@ =~= "AT+CIPCLOSE".spec_bytes() + match id {
        None => Seq::<u8>::empty(),
        Some(con) => "=".spec_bytes() + decimal(con as nat),
    } + crlf());
    r
}

/// `AT+CIFSR`: asks for the module's address.
pub fn esp8266_read_ip() -> (r: Vec<u8>)
    ensures
        r@ == command_line("AT+CIFSR".spec_bytes()),
{
    esp8266_raw("AT+CIFSR".as_bytes())
}

/// `AT+CIPAP="<ip>"`: sets the module's address as a host.
pub fn esp8266_set_ip(ip: &[u8]) -> (r: Vec<u8>)
    ensures
        r@ == "AT+CIPAP=".spec_bytes() + dq() + ip@ + dq() + crlf(),
{
    let mut r: Vec<u8> = Vec::new();
    append_bytes(&mut r, "AT+CIPAP=".as_bytes());
    r.push(34u8);
    append_bytes(&mut r, ip);
    r.push(34u8);
    r.push(13u8);
    r.push(10u8);
    assert(r@ =~= "AT+CIPAP=".spec_bytes() + dq() + ip@ + dq() + crlf());
    r
}

/// `AT+CWAUTOCONN=1` or `=0`: whether the module joins its access point
/// again when it starts.
pub fn esp8266_auto_connect(auto_connect: bool) -> (r: Vec<u8>)
    ensures
        auto_connect ==> r@ == command_line("AT+CWAUTOCONN=1".spec_bytes()),
        !auto_connect ==> r@ == command_line("AT+CWAUTOCONN=0".spec_bytes()),
{
    if auto_connect {
        esp8266_raw("AT+CWAUTOCONN=1".as_bytes())
    } else {
        esp8266_raw("AT+CWAUTOCONN=0".as_bytes())
    }
}

/// `AT+CIPMUX=1` or `=0`: whether several connections may be open at once.
pub fn esp8266_multiple_connections(allow: bool) -> (r: Vec<u8>)
    ensures
        allow ==> r@ == command_line("AT+CIPMUX=1".spec_bytes()),
        !allow ==> r@ == command_line("AT+CIPMUX=0".spec_bytes()),
{
    if allow {
        esp8266_raw("AT+CIPMUX=1".as_bytes())
    } else {
        esp8266_raw("AT+CIPMUX=0".as_bytes())
    }
}

/// `AT+CIPSERVER=1,<port>`: starts a server on `port`.
pub fn esp8266_create_server(port: u32) -> (r: Vec<u8>)
    ensures
        r@ == "AT+CIPSERVER=1,".spec_bytes() + decimal(port as nat) + crlf(),
{
    let mut r: Vec<u8> = Vec::new();
    append_bytes(&mut r, "AT+CIPSERVER=1,".as_bytes());
    let digits = decimal_text(port as u64);
    append_bytes(&mut r, digits.as_slice());
    r.push(13u8);
    r.push(10u8);
    assert(r@ =~= "AT+CIPSERVER=1,".spec_bytes() + decimal(port as nat) + crlf());
    r
}

/// `AT+CIPSTO=<timeout>`: the server's timeout, in seconds.
pub fn esp8266_set_server_timeout(timeout: u32) -> (r: Vec<u8>)
    ensures
        r@ == "AT+CIPSTO=".spec_bytes() + decimal(timeout as nat) + crlf(),
{
    let mut r: Vec<u8> = Vec::new();
    append_bytes(&mut r, "AT+CIPSTO=".as_bytes());
    let digits = decimal_text(timeout as u64);
    append_bytes(&mut r, digits.as_slice());
    r.push(13u8);
    r.push(10u8);
    assert(r@ =~= "AT+CIPSTO=".spec_bytes() + decimal(timeout as nat) + crlf());
    r
}

/// `AT+CWLAP`: lists the access points in range.
pub fn esp8266_list_wifi() -> (r: Vec<u8>)
    ensures
        r@ == command_line("AT+CWLAP".spec_bytes()),
{
    esp8266_raw("AT+CWLAP".as_bytes())
}

/// Where waiting for a reply stands.
#[derive(Copy, Clone, PartialEq, Eq, Structural, Debug)]
pub enum BlockStep {
    /// The reply holds the text: clear it and pause half a second.
    Found,
    /// The time is up.
    TimedOut,
    /// Pause a tenth of a second and read again.
    Wait,
}

/// One look at the reply `buffer` while waiting for `command` until
/// `threshold`, at `now`.
pub fn esp8266_block_until(buffer: &[u8], command: &[u8], now: u64, threshold: u64) -> (r: BlockStep)
    ensures
        r == if bytes_contain(buffer@, command@) {
            BlockStep::Found
        } else if now > threshold {
            BlockStep::TimedOut
        } else {
            BlockStep::Wait
        },
{
    if contains_bytes(buffer, command) {
        BlockStep::Found
    } else if now > threshold {
        BlockStep::TimedOut
    } else {
        BlockStep::Wait
    }
}

/// A raw command: the bytes and the line ending.
pub fn esp8266_raw(command: &[u8]) -> (r: Vec<u8>)
    ensures
        r@ == command_line(command@),
{
    let mut r: Vec<u8> = Vec::new();
    append_bytes(&mut r, command);
    r.push(13u8);
    r.push(10u8);
    assert(r@ =~= command_line(command@));
    r
}

} // verus!
