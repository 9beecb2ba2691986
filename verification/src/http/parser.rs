//! Parsers for what the Wi-Fi module hands over: decimal numbers, system
//! commands of the form `NAME;arg;arg;...;`, payloads framed as
//! `+IPD,<length>:<bytes>`, and the HTTP responses those carry.
use vstd::prelude::*;
use crate::models::SystemCommand;
use crate::math::{digit_chars, rendered, spaces, hex_char, base_digits, lemma_base_digits_step, lemma_decimal_fits};
use crate::strings::occurs_at;
use crate::system::strings::split_spec;

verus! {

/// The byte that ends each argument of a system command.
pub const DELIMITER: u8 = 59;

/// Whether `c` is an ASCII decimal digit.
pub open spec fn is_digit(c: u8) -> bool {
    48 <= c <= 57
}

/// The number that the decimal digits of `s` spell, read in order; every
/// other byte is skipped.
pub open spec fn decimal_value(s: Seq<u8>) -> nat
    decreases s.len(),
{
    if s.len() == 0 {
        0
    } else if is_digit(s.last()) {
        decimal_value(s.drop_last()) * 10 + (s.last() - 48) as nat
    } else {
        decimal_value(s.drop_last())
    }
}

/// When `atoi` can read `s`: it fits the 20-byte work buffer and its value
/// fits 64 bits.
pub open spec fn atoi_ok(s: Seq<u8>) -> bool {
    s.len() <= 20 && decimal_value(s) <= u64::MAX
}

/// Reading more bytes never makes the number smaller.
proof fn lemma_decimal_prefix(s: Seq<u8>, i: int)
    requires
        0 <= i <= s.len(),
    ensures
        decimal_value(s.take(i)) <= decimal_value(s),
    decreases s.len() - i,
{
    if i < s.len() {
        lemma_decimal_prefix(s, i + 1);
        assert(s.take(i + 1).drop_last() =~= s.take(i));
    } else {
        assert(s.take(i) =~= s);
    }
}

/// The number spelled by the decimal digits of `input`, skipping every
/// other byte; zero when there are none.
pub fn atoi(input: &[u8]) -> (r: u64)
    requires
        atoi_ok(input@),
    ensures
        r == decimal_value(input@),
{
    let mut result: u64 = 0;
    let mut idx: usize = 0;
    while idx < input.len()
        invariant
            idx <= input@.len(),
            atoi_ok(input@),
            result == decimal_value(input@.take(idx as int)),
        decreases input@.len() - idx,
    {
        let c = input[idx];
        proof {
            lemma_decimal_prefix(input@, idx + 1);
            assert(input@.take(idx + 1).drop_last() =~= input@.take(idx as int));
        }
        if c >= 48 && c <= 57 {
            result = result * 10 + (c - 48) as u64;
        }
        idx = idx + 1;
    }
    assert(input@.take(idx as int) =~= input@);
    result
}

/// Whether the (at most five) bytes of `window` begin with `target`: the
/// window must be at least as long as the target.
pub open spec fn window_starts_with(window: Seq<u8>, target: Seq<u8>) -> bool {
    window.len() >= target.len() && window.take(target.len() as int) == target
}

/// Whether `arr` begins with `target`.
pub fn arr_contains(arr: &Vec<u8>, target: &[u8]) -> (r: bool)
    ensures
        r == window_starts_with(arr@, target@),
{
    if arr.len() < target.len() {
        return false;
    }
    let mut idx: usize = 0;
    while idx < target.len()
        invariant
            target@.len() <= arr@.len(),
            idx <= target@.len(),
            arr@.take(idx as int) == target@.take(idx as int),
        decreases target@.len() - idx,
    {
        if arr[idx] != target[idx] {
            assert(arr@.take(target@.len() as int)[idx as int] != target@[idx as int]);
            return false;
        }
        idx = idx + 1;
        assert(arr@.take(idx as int) =~= target@.take(idx as int));
    }
    assert(target@.take(target@.len() as int) =~= target@);
    true
}

/// The arguments of a command body (the bytes after the name) that are
/// complete, that is, followed by a delimiter, in order.
pub open spec fn complete_segments(r: Seq<u8>) -> Seq<Seq<u8>>
    decreases r.len(),
{
    if r.len() == 0 {
        Seq::empty()
    } else if r.last() == DELIMITER {
        complete_segments(r.drop_last()).push(open_segment(r.drop_last()))
    } else {
        complete_segments(r.drop_last())
    }
}

/// The bytes after the last delimiter of a command body.
pub open spec fn open_segment(r: Seq<u8>) -> Seq<u8>
    decreases r.len(),
{
    if r.len() == 0 {
        Seq::empty()
    } else if r.last() == DELIMITER {
        Seq::empty()
    } else {
        open_segment(r.drop_last()).push(r.last())
    }
}

/// The body of a command: the bytes after the four-byte name, less one
/// delimiter right after the name.
pub open spec fn command_body(buf: Seq<u8>) -> Seq<u8> {
    if buf.len() > 4 && buf[4] == DELIMITER {
        buf.skip(5)
    } else if buf.len() > 4 {
        buf.skip(4)
    } else {
        Seq::empty()
    }
}

/// The value of one argument: its digits as a number taken to 32 bits,
/// negated when the argument starts with `-`.
pub open spec fn argument_value(seg: Seq<u8>) -> int {
    let v = decimal_value(seg) as u64 as i32;
    if seg[0] == 45u8 { -v } else { v as int }
}

/// Every non-empty argument among the first ten can be read, and no
/// negative one is the least 32-bit integer before its sign is applied.
pub open spec fn command_parses(buf: Seq<u8>) -> bool {
    let segs = complete_segments(command_body(buf));
    forall|i: int|
        0 <= i < segs.len() && i < 10 && #[trigger] segs[i].len() > 0 ==> atoi_ok(segs[i]) && (
        segs[i][0] == 45u8 ==> decimal_value(segs[i]) as u64 as i32 != i32::MIN)
}

/// The arguments a command body gives: argument `i` is the value of the
/// `i`-th complete argument when there is one and it is not empty, and
/// `i32::MAX` (unset) otherwise.
pub open spec fn command_args(buf: Seq<u8>) -> Seq<i32> {
    let segs = complete_segments(command_body(buf));
    Seq::new(
        10,
        |i: int|
            if i < segs.len() && segs[i].len() > 0 {
                argument_value(segs[i]) as i32
            } else {
                i32::MAX
            },
    )
}

/// The name of a command: its first four bytes, zero-padded.
pub open spec fn command_name(buf: Seq<u8>) -> Seq<u8> {
    Seq::new(4, |i: int| if i < buf.len() { buf[i] } else { 0u8 })
}

/// Where the body of a command starts.
pub open spec fn body_start(buf: Seq<u8>) -> int {
    if buf.len() > 4 && buf[4] == DELIMITER { 5 } else { 4 }
}

/// The complete arguments of a prefix of a body are the first complete
/// arguments of the whole body.
proof fn lemma_segments_prefix(s: Seq<u8>, k: int)
    requires
        0 <= k <= s.len(),
    ensures
        complete_segments(s.take(k)).len() <= complete_segments(s).len(),
        forall|i: int|
            0 <= i < complete_segments(s.take(k)).len() ==> #[trigger] complete_segments(s.take(k))[i]
                == complete_segments(s)[i],
    decreases s.len() - k,
{
    if k < s.len() {
        lemma_segments_prefix(s, k + 1);
        let p = s.take(k + 1);
        assert(p.drop_last() =~= s.take(k));
        assert forall|i: int|
            0 <= i < complete_segments(s.take(k)).len() implies #[trigger] complete_segments(
            s.take(k),
        )[i] == complete_segments(s)[i] by {
            assert(complete_segments(s.take(k))[i] == complete_segments(p)[i]);
        }
    } else {
        assert(s.take(k) =~= s);
    }
}

/// Reads a system command: a four-byte name, then arguments each ended by
/// `;` (a `;` right after the name is skipped). Only the first ten
/// arguments are kept; an empty argument leaves its slot unset.
pub fn parse_command(buf: &[u8]) -> (r: SystemCommand)
    requires
        command_parses(buf@),
    ensures
        r.command@ == command_name(buf@),
        r.args@ == command_args(buf@),
        r.checksum == 0,
{
    let mut result = SystemCommand::new();
    let mut buffer: Vec<u8> = Vec::new();
    let mut ptr: usize = 0;
    let mut reg: usize = 0;
    let ghost body = command_body(buf@);
    let ghost segs = complete_segments(body);
    while ptr < buf.len()
        invariant
            ptr <= buf@.len(),
            command_parses(buf@),
            body == command_body(buf@),
            segs == complete_segments(body),
            result.checksum == 0,
            forall|i: int| 0 <= i < 4 ==> #[trigger] result.command@[i] == (if i < ptr {
                buf@[i]
            } else {
                0u8
            }),
            ptr <= 4 ==> reg == 0 && buffer@.len() == 0,
            ptr > 4 ==> ({
                let k = ptr - body_start(buf@);
                &&& 0 <= k <= body.len()
                &&& reg == if complete_segments(body.take(k)).len() < 10 {
                    complete_segments(body.take(k)).len()
                } else {
                    10
                }
                &&& buffer@ == open_segment(body.take(k))
            }),
            reg <= 10,
            reg <= segs.len(),
            forall|i: int|
                0 <= i < 10 ==> #[trigger] result.args@[i] == (if i < reg && segs[i].len() > 0 {
                    argument_value(segs[i]) as i32
                } else {
                    i32::MAX
                }),
        decreases buf@.len() - ptr,
    {
        let c = buf[ptr];
        let ghost k = ptr - body_start(buf@);
        let ghost before = body.take(k);
        let ghost after = body.take(k + 1);
        proof {
            if ptr >= 4 && !(ptr == 4 && c == DELIMITER) {
                assert(body[k] == c);
                assert(after.drop_last() =~= before);
                assert(after.last() == c);
                lemma_segments_prefix(body, k + 1);
                if c == DELIMITER {
                    assert(complete_segments(after) == complete_segments(before).push(
                        open_segment(before),
                    ));
                    assert(open_segment(after) == Seq::<u8>::empty());
                } else {
                    assert(complete_segments(after) == complete_segments(before));
                    assert(open_segment(after) == open_segment(before).push(c));
                }
            }
        }
        if ptr < 4 {
            result.command[ptr] = c;
        } else if ptr == 4 && c == DELIMITER {
            assert(body.take(0) =~= Seq::<u8>::empty());
        } else if c == DELIMITER {
            if reg < 10 {
                assert(complete_segments(after)[reg as int] == buffer@);
                assert(segs[reg as int] == buffer@);
                if buffer.len() > 0 {
                    let number = atoi(buffer.as_slice());
                    let is_negative = buffer[0] == 45u8;
                    result.args[reg] = number as i32;
                    if is_negative {
                        result.args[reg] = result.args[reg] * -1;
                    }
                }
                reg = reg + 1;
            }
            buffer.clear();
        } else {
            buffer.push(c);
        }
        proof {
            if ptr == 4 && c != DELIMITER {
                assert(before =~= Seq::<u8>::empty());
            }
        }
        ptr = ptr + 1;
    }
    proof {
        if buf@.len() > 4 {
            assert(body.take(body.len() as int) =~= body);
        }
        assert(result.command@ =~= command_name(buf@));
        assert(result.args@ =~= command_args(buf@));
    }
    result
}

/// Where a scan of the module's output stands.
#[derive(Copy, Clone, PartialEq, Eq, Structural, Debug)]
pub enum ParserState {
    LookForStart,
    LookForLength,
    LookForContent,
    ReadContent,
    Done,
}

/// The marker that opens a framed payload.
pub open spec fn ipd_marker() -> Seq<u8> {
    seq![43u8, 73u8, 80u8, 68u8, 44u8]
}

/// A scan of the module's output: the state, the bytes gathered for the
/// current length or packet, the last (at most five) bytes seen, the
/// length of the current packet, and the payload so far.
pub type PayloadScan = (ParserState, Seq<u8>, Seq<u8>, Option<usize>, Seq<u8>);

/// The scan before any byte.
pub open spec fn payload_start() -> PayloadScan {
    (ParserState::LookForStart, Seq::empty(), Seq::empty(), None, Seq::empty())
}

/// Whether byte `c` can be taken by the scan `m`: a length that ends
/// here must be readable.
pub open spec fn payload_step_ok(m: PayloadScan, c: u8) -> bool {
    m.0 == ParserState::LookForLength && c == 58u8 ==> atoi_ok(m.1)
}

/// The scan after byte `c`. While reading a length, bytes gather until a
/// `:` gives the packet's length; while reading a packet, bytes gather
/// until there are as many as the length, and then join the payload.
/// Whenever the last five bytes are `+IPD,`, a new length is read.
pub open spec fn payload_step(m: PayloadScan, c: u8) -> PayloadScan {
    let (state, temp, window, length, result) = m;
    let pushed = window.push(c);
    let window2 = if pushed.len() > 5 { pushed.drop_first() } else { pushed };
    let (state2, temp2, length2, result2) = if state == ParserState::LookForLength {
        if c == 58u8 {
            (ParserState::ReadContent, Seq::<u8>::empty(), Some(decimal_value(temp) as u64 as usize), result)
        } else {
            (ParserState::LookForLength, temp.push(c), length, result)
        }
    } else if state == ParserState::ReadContent {
        let t = temp.push(c);
        if length is Some && t.len() >= length->0 {
            (ParserState::LookForStart, Seq::<u8>::empty(), length, result + t)
        } else {
            (ParserState::ReadContent, t, length, result)
        }
    } else {
        (state, temp, length, result)
    };
    if window_starts_with(window2, ipd_marker()) {
        (ParserState::LookForLength, Seq::<u8>::empty(), window2, length2, result2)
    } else {
        (state2, temp2, window2, length2, result2)
    }
}

/// The scan after all of `s`.
pub open spec fn payload_scan(s: Seq<u8>) -> PayloadScan
    decreases s.len(),
{
    if s.len() == 0 {
        payload_start()
    } else {
        payload_step(payload_scan(s.drop_last()), s.last())
    }
}

/// Every byte of `s` can be taken in turn.
pub open spec fn payload_ok(s: Seq<u8>) -> bool
    decreases s.len(),
{
    if s.len() == 0 {
        true
    } else {
        payload_ok(s.drop_last()) && payload_step_ok(payload_scan(s.drop_last()), s.last())
    }
}

/// The prefixes of a readable output are readable.
proof fn lemma_payload_ok_prefix(s: Seq<u8>, k: int)
    requires
        0 <= k <= s.len(),
        payload_ok(s),
    ensures
        payload_ok(s.take(k)),
    decreases s.len() - k,
{
    if k < s.len() {
        lemma_payload_ok_prefix(s, k + 1);
        assert(s.take(k + 1).drop_last() =~= s.take(k));
    } else {
        assert(s.take(k) =~= s);
    }
}

/// The packets framed in the module's output `buf`, joined: each
/// `+IPD,<length>:` is followed by `<length>` bytes of packet.
pub fn parse_response_payload(buf: &[u8]) -> (r: Vec<u8>)
    requires
        payload_ok(buf@),
    ensures
        r@ == payload_scan(buf@).4,
{
    let mut result: Vec<u8> = Vec::new();
    let ipd: [u8; 5] = [43u8, 73u8, 80u8, 68u8, 44u8];
    let mut state = ParserState::LookForStart;
    let mut temp: Vec<u8> = Vec::new();
    let mut ipd_buf: Vec<u8> = Vec::new();
    let mut packet_length: Option<usize> = None;
    let mut idx: usize = 0;
    assert(ipd@ =~= ipd_marker());
    while idx < buf.len()
        invariant
            idx <= buf@.len(),
            payload_ok(buf@),
            ipd@ == ipd_marker(),
            payload_scan(buf@.take(idx as int)) == (state, temp@, ipd_buf@, packet_length, result@),
        decreases buf@.len() - idx,
    {
        let c = buf[idx];
        proof {
            assert(buf@.take(idx + 1).drop_last() =~= buf@.take(idx as int));
            lemma_payload_ok_prefix(buf@, idx + 1);
        }
        ipd_buf.push(c);
        if ipd_buf.len() > 5 {
            ipd_buf.remove(0);
        }
        match state {
            ParserState::LookForLength => {
                if c == 58u8 {
                    packet_length = Some(atoi(temp.as_slice()) as usize);
                    state = ParserState::ReadContent;
                    temp.clear();
                } else {
                    temp.push(c);
                }
            },
            ParserState::ReadContent => {
                temp.push(c);
                if packet_length.is_some() && temp.len() >= packet_length.unwrap() {
                    let mut joined = temp.clone();
                    result.append(&mut joined);
                    temp.clear();
                    state = ParserState::LookForStart;
                }
            },
            _ => {},
        }
        if arr_contains(&ipd_buf, &ipd) {
            state = ParserState::LookForLength;
            temp.clear();
        }
        idx = idx + 1;
        proof {
            assert(temp@ == payload_scan(buf@.take(idx as int)).1);
        }
    }
    assert(buf@.take(idx as int) =~= buf@);
    result
}

/// The header that announces the length of a response's content.
pub open spec fn content_length_marker() -> Seq<u8> {
    seq![67u8, 111u8, 110u8, 116u8, 101u8, 110u8, 116u8, 45u8, 76u8, 101u8, 110u8, 103u8, 116u8, 104u8, 58u8, 32u8]
}

/// Whether `target` occurs anywhere in `line`; an empty target always
/// does.
pub open spec fn line_contains(line: Seq<u8>, target: Seq<u8>) -> bool {
    exists|i: int| occurs_at(line, target, i)
}

/// Whether `target` occurs in `line`.
pub fn find_in(line: &[u8], target: &[u8]) -> (r: bool)
    ensures
        r == line_contains(line@, target@),
{
    if target.len() > line.len() {
        assert forall|i: int| !occurs_at(line@, target@, i) by {}
        return false;
    }
    let mut start: usize = 0;
    while start <= line.len() - target.len()
        invariant
            target@.len() <= line@.len(),
            start <= line@.len() - target@.len() + 1,
            forall|j: int| 0 <= j < start ==> !occurs_at(line@, target@, j),
        decreases line@.len() - target@.len() + 1 - start,
    {
        let mut k: usize = 0;
        let mut same = true;
        while k < target.len()
            invariant
                start + target@.len() <= line@.len(),
                line@.len() <= usize::MAX,
                k <= target@.len(),
                same == (forall|m: int| 0 <= m < k ==> line@[start + m] == target@[m]),
            decreases target@.len() - k,
        {
            if line[start + k] != target[k] {
                same = false;
            }
            k = k + 1;
        }
        if same {
            assert(line@.subrange(start as int, start + target@.len()) =~= target@);
            assert(occurs_at(line@, target@, start as int));
            return true;
        }
        assert(!occurs_at(line@, target@, start as int)) by {
            if occurs_at(line@, target@, start as int) {
                assert forall|m: int| 0 <= m < target@.len() implies line@[start + m] == target@[m] by {
                    assert(line@.subrange(start as int, start + target@.len())[m] == line@[start + m]);
                }
            }
        }
        start = start + 1;
    }
    assert forall|i: int| !occurs_at(line@, target@, i) by {
        if occurs_at(line@, target@, i) {
            assert(i < start);
        }
    }
    false
}

/// A scan of a response's lines: the state, the announced content length,
/// the header and the content gathered so far.
pub type HttpScan = (ParserState, Option<u64>, Seq<u8>, Seq<u8>);

/// The scan before any line.
pub open spec fn http_start() -> HttpScan {
    (ParserState::LookForStart, None, Seq::empty(), Seq::empty())
}

/// Whether `line` can be taken by the scan `m`: a content length it
/// announces must be readable, counting the extra byte past the line that
/// the length is read with.
pub open spec fn http_step_ok(m: HttpScan, line: Seq<u8>) -> bool {
    m.0 == ParserState::LookForStart && line_contains(line, content_length_marker()) ==> {
        &&& line.len() + 1 - 16 <= 20
        &&& atoi_ok(line.skip(16))
    }
}

/// The scan after `line`. Header lines are gathered up to the one that
/// announces the content length (whose digits, from byte 16 on, give the
/// length) and then up to a line of a single byte; the lines after it are
/// the content, each followed by a newline, until it is as long as
/// announced.
pub open spec fn http_step(m: HttpScan, line: Seq<u8>) -> HttpScan {
    let (state, length, header, content) = m;
    if state == ParserState::LookForStart {
        if line_contains(line, content_length_marker()) {
            (ParserState::LookForContent, Some(decimal_value(line.skip(16)) as u64), header + line, content)
        } else {
            (state, length, header + line, content)
        }
    } else if state == ParserState::LookForContent {
        if line.len() == 1 {
            (ParserState::ReadContent, length, header, content)
        } else {
            (state, length, header + line, content)
        }
    } else if state == ParserState::ReadContent {
        let c = content + line.push(10u8);
        if c.len() >= length->0 as usize {
            (ParserState::Done, length, header, c)
        } else {
            (state, length, header, c)
        }
    } else {
        m
    }
}

/// The scan after the lines `lines`.
pub open spec fn http_scan(lines: Seq<Seq<u8>>) -> HttpScan
    decreases lines.len(),
{
    if lines.len() == 0 {
        http_start()
    } else {
        http_step(http_scan(lines.drop_last()), lines.last())
    }
}

/// Every line can be taken in turn.
pub open spec fn http_ok(lines: Seq<Seq<u8>>) -> bool
    decreases lines.len(),
{
    if lines.len() == 0 {
        true
    } else {
        http_ok(lines.drop_last()) && http_step_ok(http_scan(lines.drop_last()), lines.last())
    }
}

/// The lines of the payload framed in the module's output.
pub open spec fn response_lines(rx: Seq<u8>) -> Seq<Seq<u8>> {
    split_spec(payload_scan(rx).4, 10u8)
}

/// The module's output `rx` can be read as a response.
pub open spec fn response_ok(rx: Seq<u8>) -> bool {
    payload_ok(rx) && http_ok(response_lines(rx))
}

proof fn lemma_http_ok_prefix(lines: Seq<Seq<u8>>, k: int)
    requires
        0 <= k <= lines.len(),
        http_ok(lines),
    ensures
        http_ok(lines.take(k)),
    decreases lines.len() - k,
{
    if k < lines.len() {
        lemma_http_ok_prefix(lines, k + 1);
        assert(lines.take(k + 1).drop_last() =~= lines.take(k));
    } else {
        assert(lines.take(k) =~= lines);
    }
}

/// The bytes of `lines`, one after another.
pub open spec fn concat_lines(lines: Seq<Seq<u8>>) -> Seq<u8>
    decreases lines.len(),
{
    if lines.len() == 0 {
        Seq::empty()
    } else {
        concat_lines(lines.drop_last()) + lines.last()
    }
}

/// The bytes of `lines`, each followed by a newline.
pub open spec fn joined_lines(lines: Seq<Seq<u8>>) -> Seq<u8>
    decreases lines.len(),
{
    if lines.len() == 0 {
        Seq::empty()
    } else {
        joined_lines(lines.drop_last()) + lines.last().push(10u8)
    }
}

/// The number a length line announces, read as a 64-bit number from the
/// bytes after the marker.
pub open spec fn announced_u64(line: Seq<u8>) -> u64 {
    decimal_value(line.skip(16)) as u64
}

/// The content length a length line announces, as a machine word.
pub open spec fn announced_length(line: Seq<u8>) -> nat {
    (announced_u64(line) as usize) as nat
}

/// Line `h` is the first that announces the content length.
pub open spec fn length_line(lines: Seq<Seq<u8>>, h: int) -> bool {
    &&& 0 <= h < lines.len()
    &&& line_contains(lines[h], content_length_marker())
    &&& forall|j: int| 0 <= j < h ==> !line_contains(#[trigger] lines[j], content_length_marker())
}

/// Line `b` is the first single-byte line after line `h`: the blank line
/// that ends the header.
pub open spec fn blank_line(lines: Seq<Seq<u8>>, h: int, b: int) -> bool {
    &&& h < b < lines.len()
    &&& lines[b].len() == 1
    &&& forall|j: int| h < j < b ==> (#[trigger] lines[j]).len() != 1
}

/// The content up to and including line `j`, when line `b` ends the
/// header: the lines in between, each followed by a newline.
pub open spec fn body_through(lines: Seq<Seq<u8>>, b: int, j: int) -> Seq<u8> {
    joined_lines(lines.subrange(b + 1, j + 1))
}

/// Line `e` is the first after line `b` at which the content reaches
/// `length` bytes.
pub open spec fn body_end(lines: Seq<Seq<u8>>, b: int, length: nat, e: int) -> bool {
    &&& b < e < lines.len()
    &&& body_through(lines, b, e).len() >= length
    &&& forall|j: int| b < j < e ==> (#[trigger] body_through(lines, b, j)).len() < length
}

/// A complete response: line `h` announces the length, line `b` ends the
/// header, and the content reaches the announced length at line `e`.
pub open spec fn response_parts(lines: Seq<Seq<u8>>, h: int, b: int, e: int) -> bool {
    &&& length_line(lines, h)
    &&& blank_line(lines, h, b)
    &&& body_end(lines, b, announced_length(lines[h]), e)
}

/// Where a scan of the first `n` lines can stand, told by the lines.
spec fn scan_stage(lines: Seq<Seq<u8>>, n: int, s: HttpScan) -> bool {
    ||| {
        &&& s.0 == ParserState::LookForStart
        &&& s.1 is None
        &&& s.2 == concat_lines(lines.take(n))
        &&& s.3 == Seq::<u8>::empty()
        &&& forall|j: int| 0 <= j < n ==> !line_contains(#[trigger] lines[j], content_length_marker())
    }
    ||| {
        &&& s.0 == ParserState::LookForContent
        &&& s.2 == concat_lines(lines.take(n))
        &&& s.3 == Seq::<u8>::empty()
        &&& exists|h: int| #[trigger] length_line(lines, h) && h < n && s.1 == Some(announced_u64(lines[h]))
            && forall|j: int| h < j < n ==> (#[trigger] lines[j]).len() != 1
    }
    ||| {
        &&& s.0 == ParserState::ReadContent
        &&& exists|h: int, b: int| #[trigger] length_line(lines, h) && #[trigger] blank_line(lines, h, b) && b < n
            && s.1 == Some(announced_u64(lines[h])) && s.2 == concat_lines(lines.take(b))
            && s.3 == joined_lines(lines.subrange(b + 1, n))
            && forall|j: int| b < j < n ==> (#[trigger] body_through(lines, b, j)).len() < announced_length(lines[h])
    }
    ||| {
        &&& s.0 == ParserState::Done
        &&& exists|h: int, b: int, e: int| #[trigger] response_parts(lines, h, b, e) && e < n
            && s.1 == Some(announced_u64(lines[h])) && s.2 == concat_lines(lines.take(b))
            && s.3 == body_through(lines, b, e)
    }
}

proof fn lemma_http_prefix(lines: Seq<Seq<u8>>, n: int)
    requires
        0 <= n <= lines.len(),
    ensures
        scan_stage(lines, n, http_scan(lines.take(n))),
    decreases n,
{
    if n == 0 {
        assert(lines.take(0) =~= Seq::<Seq<u8>>::empty());
    } else {
        let m = n - 1;
        lemma_http_prefix(lines, m);
        let prev = http_scan(lines.take(m));
        assert(lines.take(n).drop_last() =~= lines.take(m));
        let line = lines[m];
        assert(lines.take(n).last() == line);
        let s = http_step(prev, line);
        assert(http_scan(lines.take(n)) == s);
        assert(concat_lines(lines.take(n)) == concat_lines(lines.take(m)) + line);
        if prev.0 == ParserState::LookForStart {
            if line_contains(line, content_length_marker()) {
                assert(length_line(lines, m));
                assert(scan_stage(lines, n, s));
            } else {
                assert forall|j: int| 0 <= j < n implies !line_contains(#[trigger] lines[j], content_length_marker()) by {
                    if j < m {
                        assert(!line_contains(lines[j], content_length_marker()));
                    }
                }
                assert(scan_stage(lines, n, s));
            }
        } else if prev.0 == ParserState::LookForContent {
            let h = choose|h: int| #[trigger] length_line(lines, h) && h < m && prev.1 == Some(announced_u64(lines[h]))
                && forall|j: int| h < j < m ==> (#[trigger] lines[j]).len() != 1;
            if line.len() == 1 {
                assert(blank_line(lines, h, m));
                assert(lines.subrange(m + 1, n) =~= Seq::<Seq<u8>>::empty());
                assert(scan_stage(lines, n, s));
            } else {
                assert(forall|j: int| h < j < n ==> (#[trigger] lines[j]).len() != 1);
                assert(scan_stage(lines, n, s));
            }
        } else if prev.0 == ParserState::ReadContent {
            let (h, b) = choose|h: int, b: int| #[trigger] length_line(lines, h) && #[trigger] blank_line(lines, h, b)
                && b < m && prev.1 == Some(announced_u64(lines[h])) && prev.2 == concat_lines(lines.take(b))
                && prev.3 == joined_lines(lines.subrange(b + 1, m))
                && forall|j: int| b < j < m ==> (#[trigger] body_through(lines, b, j)).len() < announced_length(lines[h]);
            assert(lines.subrange(b + 1, n).drop_last() =~= lines.subrange(b + 1, m));
            assert(lines.subrange(b + 1, n).last() == line);
            assert(body_through(lines, b, m) == prev.3 + line.push(10u8));
            if body_through(lines, b, m).len() >= announced_length(lines[h]) {
                assert(body_end(lines, b, announced_length(lines[h]), m));
                assert(response_parts(lines, h, b, m));
                assert(scan_stage(lines, n, s));
            } else {
                assert(forall|j: int| b < j < n ==> (#[trigger] body_through(lines, b, j)).len() < announced_length(lines[h]));
                assert(scan_stage(lines, n, s));
            }
        } else {
            assert(prev.0 == ParserState::Done);
            assert(s == prev);
            let (h, b, e) = choose|h: int, b: int, e: int| #[trigger] response_parts(lines, h, b, e) && e < m
                && prev.1 == Some(announced_u64(lines[h])) && prev.2 == concat_lines(lines.take(b))
                && prev.3 == body_through(lines, b, e);
            assert(scan_stage(lines, n, s));
        }
    }
}

/// A response has one reading at most: its length line, blank line and
/// last content line are each the first of their kind.
proof fn lemma_response_parts_unique(lines: Seq<Seq<u8>>, h: int, b: int, e: int, h2: int, b2: int, e2: int)
    requires
        response_parts(lines, h, b, e),
        response_parts(lines, h2, b2, e2),
    ensures
        h == h2 && b == b2 && e == e2,
{
    if h < h2 {
        assert(!line_contains(lines[h], content_length_marker()));
    } else if h2 < h {
        assert(!line_contains(lines[h2], content_length_marker()));
    }
    if b < b2 {
        assert(lines[b].len() != 1);
    } else if b2 < b {
        assert(lines[b2].len() != 1);
    }
    if e < e2 {
        assert(body_through(lines, b, e).len() < announced_length(lines[h]));
    } else if e2 < e {
        assert(body_through(lines, b, e2).len() < announced_length(lines[h]));
    }
}

/// What reading a response's lines gives. It is complete exactly when
/// some line announces the content length, a blank line follows it, and
/// the lines after the blank line (each with its newline) reach that
/// length; a shorter content is not complete. The header is then every
/// line before the blank line, and the content the lines after it up to
/// the first at which the announced length is reached.
pub proof fn lemma_http_response(lines: Seq<Seq<u8>>)
    ensures
        (http_scan(lines).0 == ParserState::Done) <==> exists|h: int, b: int, e: int|
            #[trigger] response_parts(lines, h, b, e),
        forall|h: int, b: int, e: int| #[trigger] response_parts(lines, h, b, e) ==> {
            &&& http_scan(lines).2 == concat_lines(lines.take(b))
            &&& http_scan(lines).3 == body_through(lines, b, e)
            &&& http_scan(lines).3.len() >= announced_length(lines[h])
        },
{
    let n = lines.len() as int;
    lemma_http_prefix(lines, n);
    assert(lines.take(n) =~= lines);
    let s = http_scan(lines);
    assert forall|h: int, b: int, e: int| #[trigger] response_parts(lines, h, b, e) implies {
        &&& s.0 == ParserState::Done
        &&& s.2 == concat_lines(lines.take(b))
        &&& s.3 == body_through(lines, b, e)
        &&& s.3.len() >= announced_length(lines[h])
    } by {
        if s.0 == ParserState::LookForStart {
            assert(!line_contains(lines[h], content_length_marker()));
        } else if s.0 == ParserState::LookForContent {
            let h2 = choose|h2: int| #[trigger] length_line(lines, h2) && h2 < n && s.1 == Some(announced_u64(lines[h2]))
                && forall|j: int| h2 < j < n ==> (#[trigger] lines[j]).len() != 1;
            if h < h2 {
                assert(!line_contains(lines[h], content_length_marker()));
            } else if h2 < h {
                assert(!line_contains(lines[h2], content_length_marker()));
            }
            assert(lines[b].len() != 1);
        } else if s.0 == ParserState::ReadContent {
            let (h2, b2) = choose|h2: int, b2: int| #[trigger] length_line(lines, h2) && #[trigger] blank_line(lines, h2, b2)
                && b2 < n && s.1 == Some(announced_u64(lines[h2])) && s.2 == concat_lines(lines.take(b2))
                && s.3 == joined_lines(lines.subrange(b2 + 1, n))
                && forall|j: int| b2 < j < n ==> (#[trigger] body_through(lines, b2, j)).len() < announced_length(lines[h2]);
            if h < h2 {
                assert(!line_contains(lines[h], content_length_marker()));
            } else if h2 < h {
                assert(!line_contains(lines[h2], content_length_marker()));
            }
            if b < b2 {
                assert(lines[b].len() != 1);
            } else if b2 < b {
                assert(lines[b2].len() != 1);
            }
            assert(body_through(lines, b, e).len() < announced_length(lines[h]));
        } else {
            let (h2, b2, e2) = choose|h2: int, b2: int, e2: int| #[trigger] response_parts(lines, h2, b2, e2) && e2 < n
                && s.1 == Some(announced_u64(lines[h2])) && s.2 == concat_lines(lines.take(b2))
                && s.3 == body_through(lines, b2, e2);
            lemma_response_parts_unique(lines, h, b, e, h2, b2, e2);
        }
    }
    if s.0 == ParserState::Done {
        let (h2, b2, e2) = choose|h2: int, b2: int, e2: int| #[trigger] response_parts(lines, h2, b2, e2) && e2 < n
            && s.1 == Some(announced_u64(lines[h2])) && s.2 == concat_lines(lines.take(b2))
            && s.3 == body_through(lines, b2, e2);
        assert(response_parts(lines, h2, b2, e2));
    }
}

/// Reads an HTTP response out of the module's output `rx_buffer` into
/// `header` and `content`. Returns whether the whole announced content
/// arrived; when it did not, both are left empty.
pub fn parse_http_request(rx_buffer: &[u8], header: &mut Vec<u8>, content: &mut Vec<u8>) -> (done: bool)
    requires
        response_ok(rx_buffer@),
    ensures
        done == (http_scan(response_lines(rx_buffer@)).0 == ParserState::Done),
        done ==> final(header)@ == http_scan(response_lines(rx_buffer@)).2 && final(content)@
            == http_scan(response_lines(rx_buffer@)).3,
        !done ==> final(header)@.len() == 0 && final(content)@.len() == 0,
        done <==> exists|h: int, b: int, e: int| #[trigger] response_parts(response_lines(rx_buffer@), h, b, e),
        forall|h: int, b: int, e: int| #[trigger] response_parts(response_lines(rx_buffer@), h, b, e) ==> {
            &&& final(header)@ == concat_lines(response_lines(rx_buffer@).take(b))
            &&& final(content)@ == body_through(response_lines(rx_buffer@), b, e)
            &&& final(content)@.len() >= announced_length(response_lines(rx_buffer@)[h])
        },
{
    header.clear();
    content.clear();
    let length_marker: [u8; 16] = [
        67u8, 111u8, 110u8, 116u8, 101u8, 110u8, 116u8, 45u8, 76u8, 101u8, 110u8, 103u8, 116u8,
        104u8, 58u8, 32u8,
    ];
    assert(length_marker@ =~= content_length_marker());
    let mut content_length: Option<u64> = None;
    let mut state = ParserState::LookForStart;
    let parsed_packet = parse_response_payload(rx_buffer);
    let text = crate::datastructures::Vector::from_slice(parsed_packet.as_slice());
    let lines = crate::system::strings::StringBuffer::split(&text, 10u8);
    let ghost all = response_lines(rx_buffer@);
    assert(lines@.map_values(|v: crate::datastructures::Vector<u8>| v@) == all);
    let n = lines.size();
    let mut idx: usize = 0;
    while idx < n
        invariant
            n == all.len(),
            lines@.map_values(|v: crate::datastructures::Vector<u8>| v@) == all,
            idx <= n,
            http_ok(all),
            length_marker@ == content_length_marker(),
            http_scan(all.take(idx as int)) == (state, content_length, header@, content@),
            state == ParserState::ReadContent ==> content_length is Some,
            state == ParserState::LookForContent ==> content_length is Some,
            state == ParserState::Done ==> content_length is Some,
        decreases n - idx,
    {
        proof {
            assert(all.take(idx + 1).drop_last() =~= all.take(idx as int));
            lemma_http_ok_prefix(all, idx + 1);
        }
        let line_vec = lines.get(idx).unwrap();
        let line = line_vec.as_slice();
        assert(line@ == all[idx as int]);
        match state {
            ParserState::LookForStart => {
                if find_in(line, &length_marker) {
                    let temp = slice_from(line, 16);
                    content_length = Some(atoi(temp.as_slice()));
                    state = ParserState::LookForContent;
                }
                crate::debug::append_bytes(header, line);
            },
            ParserState::LookForContent => {
                if line.len() == 1 {
                    state = ParserState::ReadContent;
                } else {
                    crate::debug::append_bytes(header, line);
                }
            },
            ParserState::ReadContent => {
                crate::debug::append_bytes(content, line);
                content.push(10u8);
                if content.len() >= content_length.unwrap() as usize {
                    state = ParserState::Done;
                }
            },
            _ => {},
        }
        idx = idx + 1;
        proof {
            let prev = all.take(idx - 1);
            assert(all.take(idx as int).last() == all[idx - 1]);
        }
    }
    assert(all.take(n as int) =~= all);
    proof {
        lemma_http_response(all);
    }
    if state == ParserState::Done {
        true
    } else {
        header.clear();
        content.clear();
        false
    }
}

/// The bytes of `s` from position `start` on.
fn slice_from(s: &[u8], start: usize) -> (r: Vec<u8>)
    requires
        start <= s@.len(),
    ensures
        r@ == s@.skip(start as int),
{
    let mut r: Vec<u8> = Vec::new();
    let mut i: usize = start;
    while i < s.len()
        invariant
            start <= i <= s@.len(),
            r@ == s@.subrange(start as int, i as int),
        decreases s@.len() - i,
    {
        r.push(s[i]);
        i = i + 1;
        assert(r@ =~= s@.subrange(start as int, i as int));
    }
    assert(s@.subrange(start as int, i as int) =~= s@.skip(start as int));
    r
}

/// Reading back the decimal digits of `n` gives `n`.
pub proof fn lemma_decimal_digits_value(n: nat)
    ensures
        decimal_value(digit_chars(n, 10).reverse()) == n,
    decreases n,
{
    lemma_base_digits_step(n, 10);
    vstd::arithmetic::div_mod::lemma_fundamental_div_mod(n as int, 10);
    let d = (n % 10) as u8;
    assert(d == n % 10);
    let c = hex_char(d);
    assert(c == (n % 10) + 48);
    assert(is_digit(c));
    let cs = digit_chars(n, 10);
    if n / 10 == 0 {
        assert(cs =~= seq![c]);
        assert(cs.reverse() =~= seq![c]);
        assert(cs.reverse().drop_last() =~= Seq::<u8>::empty());
        assert(decimal_value(Seq::<u8>::empty()) == 0);
        assert(decimal_value(cs.reverse()) == (c - 48) as nat);
    } else {
        let rest = digit_chars(n / 10, 10);
        assert(cs =~= seq![c] + rest);
        assert(cs.reverse() =~= rest.reverse().push(c));
        assert(cs.reverse().drop_last() =~= rest.reverse());
        lemma_decimal_digits_value(n / 10);
        assert(decimal_value(cs.reverse()) == decimal_value(rest.reverse()) * 10 + (c - 48) as nat);
    }
}

/// Trailing spaces do not change the number read.
pub proof fn lemma_decimal_spaces(s: Seq<u8>, k: nat)
    ensures
        decimal_value(s + spaces(k)) == decimal_value(s),
    decreases k,
{
    if k == 0 {
        assert(s + spaces(0) =~= s);
    } else {
        assert((s + spaces(k)).drop_last() =~= s + spaces((k - 1) as nat));
        lemma_decimal_spaces(s, (k - 1) as nat);
    }
}

/// Reading back a number rendered in decimal gives the number: `atoi` can
/// read what `itoa_u64` writes, and returns the value written.
pub proof fn lemma_atoi_inverts_itoa(n: u64)
    ensures
        atoi_ok(rendered(n as nat, 10)),
        decimal_value(rendered(n as nat, 10)) == n,
{
    lemma_decimal_fits(n);
    lemma_decimal_digits_value(n as nat);
    let ds = digit_chars(n as nat, 10).reverse();
    lemma_decimal_spaces(ds, (20 - digit_chars(n as nat, 10).len()) as nat);
}

/// Whether `s` ends with the frame marker.
pub open spec fn ends_with_marker(s: Seq<u8>) -> bool {
    s.len() >= 5 && s.subrange(s.len() - 5, s.len() as int) == ipd_marker()
}

/// The scan after one more byte is one step of the scan.
proof fn lemma_scan_push(s: Seq<u8>, c: u8)
    ensures
        payload_scan(s.push(c)) == payload_step(payload_scan(s), c),
        payload_ok(s.push(c)) == (payload_ok(s) && payload_step_ok(payload_scan(s), c)),
{
    assert(s.push(c).drop_last() =~= s);
}

/// The scan's window holds the last (at most five) bytes read, and sees
/// the marker exactly when the bytes read end with it.
proof fn lemma_scan_window(s: Seq<u8>)
    ensures
        payload_scan(s).2 == (if s.len() <= 5 { s } else { s.skip(s.len() - 5) }),
        window_starts_with(payload_scan(s).2, ipd_marker()) == ends_with_marker(s),
    decreases s.len(),
{
    if s.len() > 0 {
        let t = s.drop_last();
        lemma_scan_window(t);
        assert(t.push(s.last()) =~= s);
        lemma_scan_push(t, s.last());
        let w = payload_scan(t).2;
        if t.len() < 5 {
            assert(w.push(s.last()) =~= s);
        } else {
            assert(w.push(s.last()).drop_first() =~= s.skip(s.len() - 5));
        }
    }
    let w = payload_scan(s).2;
    if s.len() >= 5 {
        if s.len() == 5 {
            assert(w.take(5) =~= s.subrange(0, 5));
        } else {
            assert(w.take(5) =~= s.subrange(s.len() - 5, s.len() as int));
        }
    }
}

/// Reading bytes that cannot end a marker leaves an idle scan idle, and
/// a scan reading a length gathers them.
proof fn lemma_scan_plain(s: Seq<u8>, t: Seq<u8>)
    requires
        payload_scan(s).0 != ParserState::ReadContent,
        forall|k: int| 0 <= k < t.len() ==> t[k] != 44u8 && t[k] != 58u8,
    ensures
        payload_scan(s + t).0 == payload_scan(s).0,
        payload_scan(s).0 == ParserState::LookForLength ==> payload_scan(s + t).1 == payload_scan(s).1 + t,
        payload_scan(s).0 != ParserState::LookForLength ==> payload_scan(s + t).1 == payload_scan(s).1,
        payload_scan(s + t).3 == payload_scan(s).3,
        payload_scan(s + t).4 == payload_scan(s).4,
        payload_ok(s) ==> payload_ok(s + t),
    decreases t.len(),
{
    if t.len() == 0 {
        assert(s + t =~= s);
    } else {
        let u = t.drop_last();
        lemma_scan_plain(s, u);
        assert(s + t =~= (s + u).push(t.last()));
        lemma_scan_push(s + u, t.last());
        lemma_scan_window((s + u).push(t.last()));
        assert(!ends_with_marker((s + u).push(t.last()))) by {
            if ends_with_marker((s + u).push(t.last())) {
                let v = (s + u).push(t.last());
                assert(v.subrange(v.len() - 5, v.len() as int)[4] == v.last());
            }
        }
        lemma_scan_window(s + u);
        if payload_scan(s).0 == ParserState::LookForLength {
            assert(payload_scan(s).1 + u.push(t.last()) =~= payload_scan(s).1 + t);
            assert(u.push(t.last()) =~= t);
        }
    }
}

/// Reading the bytes of a packet gathers them until there are as many as
/// the packet's length; the last one joins them to the payload.
proof fn lemma_scan_packet(s: Seq<u8>, data: Seq<u8>, k: int)
    requires
        payload_scan(s).0 == ParserState::ReadContent,
        payload_scan(s).1 == Seq::<u8>::empty(),
        payload_scan(s).3 == Some(data.len() as usize),
        data.len() <= usize::MAX,
        0 <= k <= data.len(),
        forall|j: int| 1 <= j <= data.len() ==> !ends_with_marker(#[trigger] (s + data.take(j))),
    ensures
        k < data.len() ==> payload_scan(s + data.take(k)) == (
            ParserState::ReadContent,
            data.take(k),
            payload_scan(s + data.take(k)).2,
            Some(data.len() as usize),
            payload_scan(s).4,
        ),
        k == data.len() && k > 0 ==> payload_scan(s + data).0 == ParserState::LookForStart
            && payload_scan(s + data).4 == payload_scan(s).4 + data,
        payload_ok(s) ==> payload_ok(s + data.take(k)),
    decreases k,
{
    if k == 0 {
        assert(s + data.take(0) =~= s);
    } else {
        lemma_scan_packet(s, data, k - 1);
        let prev = s + data.take(k - 1);
        assert(s + data.take(k) =~= prev.push(data[k - 1]));
        lemma_scan_push(prev, data[k - 1]);
        lemma_scan_window(prev.push(data[k - 1]));
        assert(data.take(k - 1).push(data[k - 1]) =~= data.take(k));
        if k == data.len() {
            assert(data.take(k) =~= data);
        }
    }
}

/// The central promise of `parse_response_payload`: after output that is
/// not in the middle of a packet, a frame `+IPD,<length>:<packet>` adds
/// exactly its packet to the payload, provided the length is the
/// packet's, written in decimal, and no other marker ends inside the
/// frame. Frames can follow one another, as a non-empty packet leaves the
/// scan idle.
pub proof fn lemma_frame_payload(pre: Seq<u8>, digits: Seq<u8>, data: Seq<u8>)
    requires
        payload_scan(pre).0 != ParserState::ReadContent,
        1 <= digits.len() <= 20,
        forall|k: int| 0 <= k < digits.len() ==> is_digit(#[trigger] digits[k]),
        decimal_value(digits) == data.len(),
        data.len() <= usize::MAX,
        forall|j: int|
            1 <= j <= data.len() ==> !ends_with_marker(
                #[trigger] (pre + ipd_marker() + digits + seq![58u8] + data.take(j)),
            ),
    ensures
        payload_ok(pre) ==> payload_ok(pre + ipd_marker() + digits + seq![58u8] + data),
        payload_scan(pre + ipd_marker() + digits + seq![58u8] + data).4 == payload_scan(pre).4 + data,
        data.len() > 0 ==> payload_scan(pre + ipd_marker() + digits + seq![58u8] + data).0
            == ParserState::LookForStart,
{
    let head = seq![43u8, 73u8, 80u8, 68u8];
    lemma_scan_plain(pre, head);
    let s1 = pre + head;
    assert(pre + ipd_marker() =~= s1.push(44u8));
    lemma_scan_push(s1, 44u8);
    lemma_scan_window(s1.push(44u8));
    let s2 = pre + ipd_marker();
    assert(ends_with_marker(s2)) by {
        assert(s2.subrange(s2.len() - 5, s2.len() as int) =~= ipd_marker());
    }
    assert(payload_scan(s2).0 == ParserState::LookForLength);
    assert(payload_scan(s2).1 == Seq::<u8>::empty());
    assert forall|k: int| 0 <= k < digits.len() implies digits[k] != 44u8 && digits[k] != 58u8 by {
        assert(is_digit(digits[k]));
    }
    lemma_scan_plain(s2, digits);
    let s3 = s2 + digits;
    assert(payload_scan(s3).1 =~= digits);
    assert(pre + ipd_marker() + digits + seq![58u8] =~= s3.push(58u8));
    lemma_scan_push(s3, 58u8);
    lemma_scan_window(s3.push(58u8));
    let s4 = s3.push(58u8);
    assert(!ends_with_marker(s4)) by {
        if ends_with_marker(s4) {
            assert(s4.subrange(s4.len() - 5, s4.len() as int)[4] == 58u8);
        }
    }
    assert(decimal_value(digits) as u64 as usize == data.len() as usize);
    lemma_scan_packet(s4, data, data.len() as int);
    if data.len() == 0 {
        assert(s4 + data =~= s4);
        assert(data.take(0) =~= data);
    }
    assert(data.take(data.len() as int) =~= data);
}

} // verus!
