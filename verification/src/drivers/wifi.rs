//! The ESP8266 Wi-Fi module, driven by AT commands over a serial port.
//! Commands run in sequences: each command is sent once, then the sequence
//! waits until the module's reply holds the expected text (or the error
//! text, which aborts the sequence). The driver runs the queued sequences
//! one after another.
use vstd::prelude::*;
use vstd::string::StringSliceAdditionalSpecFns;
use crate::datastructures::{Queue, Vector};
use crate::date_time::MS_TO_NANO;
use crate::debug::append_bytes;
use crate::http_models::{HttpRequest, request_bytes};
use crate::math::{itoa_u32, rendered};
use crate::serio::SerioDevice;
use crate::strings::search_result;
use crate::system::strings::StringBuffer;

verus! {

/// What is made of the module's reply to a command.
#[derive(Copy, Clone, PartialEq, Eq, Structural, Debug)]
pub enum Transform {
    /// The reply as it is.
    Identity,
    /// The address in a DNS reply: after the first `:`, up to the first
    /// carriage return.
    DnsAddress,
}

/// One AT command.
pub struct WifiCommand {
    pub command: Vector<u8>,
    pub expected_response: Option<Vec<u8>>,
    pub error_response: Option<Vec<u8>>,
    pub delay: u64,
    pub timeout: Option<u64>,
    /// When present, what is kept of the reply.
    pub transform_output: Option<Transform>,
}

/// The bytes of an optional byte string.
pub open spec fn opt_bytes(v: Option<Vec<u8>>) -> Option<Seq<u8>> {
    match v {
        Some(b) => Some(b@),
        None => None,
    }
}

/// A copy of an optional byte string.
fn copy_opt(v: &Option<Vec<u8>>) -> (r: Option<Vec<u8>>)
    ensures
        opt_bytes(r) == opt_bytes(*v),
{
    match v {
        None => None,
        Some(b) => {
            let mut c: Vec<u8> = Vec::new();
            append_bytes(&mut c, b.as_slice());
            Some(c)
        },
    }
}

/// What a command is: its bytes, the reply text it waits for, the error
/// text, its delay, timeout and transform.
pub type CommandView = (Seq<u8>, Option<Seq<u8>>, Option<Seq<u8>>, u64, Option<u64>, Option<Transform>);

impl WifiCommand {
    pub open spec fn view_command(&self) -> CommandView {
        (
            self.command@,
            opt_bytes(self.expected_response),
            opt_bytes(self.error_response),
            self.delay,
            self.timeout,
            self.transform_output,
        )
    }

    /// An empty command that waits for nothing.
    pub fn new() -> (r: Self)
        ensures
            r.view_command() == (Seq::<u8>::empty(), None::<Seq<u8>>, None::<Seq<u8>>, 0u64, None::<u64>, None::<Transform>),
    {
        WifiCommand {
            command: Vector::new(),
            expected_response: None,
            error_response: None,
            delay: 0,
            transform_output: None,
            timeout: None,
        }
    }

    fn copy(&self) -> (r: Self)
        ensures
            r.view_command() == self.view_command(),
    {
        WifiCommand {
            command: self.command.clone(),
            expected_response: copy_opt(&self.expected_response),
            error_response: copy_opt(&self.error_response),
            delay: self.delay,
            timeout: self.timeout,
            transform_output: self.transform_output,
        }
    }

    pub fn with_timeout(&self, timeout: u64) -> (r: Self)
        ensures
            r.view_command() == (self.view_command().0, self.view_command().1, self.view_command().2, self.delay, Some(timeout), self.transform_output),
    {
        let mut next = self.copy();
        next.timeout = Some(timeout);
        next
    }

    /// Appends `command` to the command's bytes.
    pub fn with_vec_command(&self, command: Vector<u8>) -> (r: Self)
        ensures
            r.view_command() == (self.command@ + command@, self.view_command().1, self.view_command().2, self.delay, self.timeout, self.transform_output),
    {
        let mut next = self.copy();
        next.command.join(command);
        next
    }

    pub fn with_transform(&self, transform: Transform) -> (r: Self)
        ensures
            r.view_command() == (self.command@, self.view_command().1, self.view_command().2, self.delay, self.timeout, Some(transform)),
    {
        let mut next = self.copy();
        next.transform_output = Some(transform);
        next
    }

    /// Appends the bytes `command` to the command's bytes.
    pub fn with_command(&self, command: &[u8]) -> (r: Self)
        ensures
            r.view_command() == (self.command@ + command@, self.view_command().1, self.view_command().2, self.delay, self.timeout, self.transform_output),
    {
        let mut next = self.copy();
        next.command.join(Vector::from_slice(command));
        next
    }

    /// Appends `vec_to_join` to the command's bytes.
    pub fn join_vec(&self, vec_to_join: Vector<u8>) -> (r: Self)
        ensures
            r.view_command() == (self.command@ + vec_to_join@, self.view_command().1, self.view_command().2, self.delay, self.timeout, self.transform_output),
    {
        let mut next = self.copy();
        next.command.join(vec_to_join);
        next
    }

    pub fn with_expected_response(&self, response: &[u8]) -> (r: Self)
        ensures
            r.view_command() == (self.command@, Some(response@), self.view_command().2, self.delay, self.timeout, self.transform_output),
    {
        let mut next = self.copy();
        let mut bytes: Vec<u8> = Vec::new();
        append_bytes(&mut bytes, response);
        next.expected_response = Some(bytes);
        next
    }

    pub fn with_delay(&self, delay: u64) -> (r: Self)
        ensures
            r.view_command() == (self.command@, self.view_command().1, self.view_command().2, delay, self.timeout, self.transform_output),
    {
        let mut next = self.copy();
        next.delay = delay;
        next
    }
}

/// The position `index_of` finds `t` at in `buf`, or zero when it finds
/// none.
pub open spec fn found_or_zero(buf: Seq<u8>, t: Seq<u8>) -> int {
    if exists|i: usize| search_result(buf, t, Some(i)) {
        (choose|i: usize| search_result(buf, t, Some(i))) as int
    } else {
        0
    }
}

/// The bytes `:`, `OK` and a carriage return.
pub open spec fn colon() -> Seq<u8> {
    seq![58u8]
}

pub open spec fn ok_text() -> Seq<u8> {
    seq![79u8, 75u8]
}

pub open spec fn carriage_return() -> Seq<u8> {
    seq![13u8]
}

/// The reply can be cut as a DNS reply: the `OK` is found at or after the
/// `:`, inside the reply.
pub open spec fn dns_reply_ok(buf: Seq<u8>) -> bool {
    let s = found_or_zero(buf, colon());
    let e = found_or_zero(buf, ok_text());
    s <= e && e + 1 <= buf.len()
}

/// The address in a DNS reply: the bytes after the `:` through the `O` of
/// `OK`, cut at the first carriage return found among them.
pub open spec fn dns_address(buf: Seq<u8>) -> Seq<u8> {
    let s = found_or_zero(buf, colon());
    let e = found_or_zero(buf, ok_text());
    let rx = buf.subrange(s + 1, e + 1);
    rx.take(found_or_zero(rx, carriage_return()))
}

/// Whether `t` can be applied to the reply `buf`.
pub open spec fn transform_ok(t: Transform, buf: Seq<u8>) -> bool {
    t == Transform::DnsAddress ==> dns_reply_ok(buf)
}

/// What `t` makes of the reply `buf`.
pub open spec fn transformed(t: Transform, buf: Seq<u8>) -> Seq<u8> {
    match t {
        Transform::Identity => buf,
        Transform::DnsAddress => dns_address(buf),
    }
}

/// The position `index_of` finds `target` at, or zero.
fn index_or_zero(buf: &Vector<u8>, target: &[u8]) -> (r: usize)
    ensures
        r == found_or_zero(buf@, target@),
        r == 0 || r < buf@.len(),
{
    match buf.index_of(Vector::from_slice(target)) {
        Some(i) => {
            assert(search_result(buf@, target@, Some(i)));
            i
        },
        None => {
            assert forall|i: usize| !search_result(buf@, target@, Some(i)) by {
                if search_result(buf@, target@, Some(i)) {
                    assert(crate::strings::occurs_at(buf@, target@, i as int));
                }
            }
            0
        },
    }
}

/// Applies the transform `t` to the reply `buf`.
pub fn apply_transform(t: Transform, buf: &Vector<u8>) -> (r: Vector<u8>)
    requires
        transform_ok(t, buf@),
    ensures
        r@ == transformed(t, buf@),
{
    match t {
        Transform::Identity => buf.clone(),
        Transform::DnsAddress => {
            let colon_bytes: [u8; 1] = [58u8];
            let ok_bytes: [u8; 2] = [79u8, 75u8];
            let cr_bytes: [u8; 1] = [13u8];
            assert(colon_bytes@ =~= colon());
            assert(ok_bytes@ =~= ok_text());
            assert(cr_bytes@ =~= carriage_return());
            let _n = buf.size();
            let start = index_or_zero(buf, &colon_bytes);
            let end = index_or_zero(buf, &ok_bytes);
            let rx_buffer = buf.substr(start + 1, end - start).unwrap();
            let space = index_or_zero(&rx_buffer, &cr_bytes);
            rx_buffer.substr(0, space).unwrap()
        },
    }
}

/// What the caller is to do after a step of a sequence: send these bytes
/// to the module, clear the port's receive buffer, and, when the sequence
/// has just finished, hand its outputs to its callback.
pub struct SequenceStep {
    pub emit: Option<Vec<u8>>,
    pub clear_rx: bool,
    pub finished: bool,
}

/// A list of commands run in order; each moves on to the next once its
/// criterion is met.
pub struct WifiCommandSequence {
    pub commands: Vec<WifiCommand>,
    pub outputs: Vec<Vector<u8>>,
    pub index: usize,
    pub command_sent: bool,
    pub time_target: u64,
    pub complete: bool,
    pub aborted: bool,
    /// Which of the caller's callbacks gets the outputs.
    pub callback: Option<u32>,
}

/// The bytes sent for a command: the command and `\r\n`.
pub open spec fn emitted(command: Seq<u8>) -> Seq<u8> {
    command + seq![13u8, 10u8]
}

/// Whether `t` occurs in the reply, as the driver's search sees it.
pub open spec fn reply_has(rx: Seq<u8>, t: Seq<u8>) -> bool {
    exists|i: usize| search_result(rx, t, Some(i))
}

/// The pause between two steps of a sequence.
pub const SEQUENCE_PAUSE: u64 = 250_000_000;

/// The bytes of each of a sequence's outputs.
pub open spec fn output_views(outputs: Seq<Vector<u8>>) -> Seq<Seq<u8>> {
    outputs.map_values(|v: Vector<u8>| v@)
}

/// What one step of a sequence does, from `before` to `after`, at `now`,
/// with the reply `rx` and `available` bytes waiting: nothing when it has
/// finished or aborted; otherwise, once the command's delay has passed,
/// the command is sent or its reply checked, as `process` says.
pub open spec fn sequence_stepped(
    before: WifiCommandSequence,
    after: WifiCommandSequence,
    now: u64,
    rx: Seq<u8>,
    available: usize,
    step: SequenceStep,
) -> bool {
    &&& after.commands@ == before.commands@
    &&& after.callback == before.callback
    &&& (before.aborted || before.complete) ==> step.emit is None && !step.clear_rx && !step.finished
        && after.index == before.index && after.time_target == before.time_target
        && after.aborted == before.aborted && after.complete == before.complete
        && after.command_sent == before.command_sent
        && output_views(after.outputs@) == output_views(before.outputs@)
    &&& !(before.aborted || before.complete) && before.index >= before.commands@.len() ==>
        step.emit is None && !step.clear_rx && !step.finished && after.index == before.index
        && after.time_target == now + SEQUENCE_PAUSE && after.aborted == before.aborted
        && after.complete == before.complete && after.command_sent == before.command_sent
        && output_views(after.outputs@) == output_views(before.outputs@)
    &&& !(before.aborted || before.complete) && before.index < before.commands@.len() ==> {
        let c = before.commands@[before.index as int];
        let due = now >= before.time_target + c.delay;
        let waits = c.expected_response is Some || c.error_response is Some;
        let ok = (c.expected_response matches Some(e) && reply_has(rx, e@));
        let err = (c.error_response matches Some(e) && reply_has(rx, e@));
        let done = if !before.command_sent { !waits } else { available > 0 && ok };
        let kept = match c.transform_output {
            Some(t) => output_views(before.outputs@).push(transformed(t, rx)),
            None => output_views(before.outputs@),
        };
        &&& !due ==> step.emit is None && !step.clear_rx && !step.finished && after.index
            == before.index && after.time_target == before.time_target
            && after.command_sent == before.command_sent
            && !after.aborted && !after.complete
            && output_views(after.outputs@) == output_views(before.outputs@)
        &&& due ==> {
            &&& after.time_target == now + SEQUENCE_PAUSE
            &&& !before.command_sent ==> (step.emit matches Some(b) && b@ == emitted(c.command@))
            &&& before.command_sent ==> step.emit is None
            &&& done ==> after.index == before.index + 1
                && output_views(after.outputs@) == kept
                && step.finished == (before.index + 1 >= before.commands@.len())
                && after.complete == step.finished
            &&& !done ==> after.index == before.index && !step.finished
                && !after.complete
                && output_views(after.outputs@)
                    == output_views(before.outputs@)
            &&& after.aborted == (before.command_sent && available > 0 && err)
            &&& step.clear_rx == (done || after.aborted)
            &&& after.command_sent == (!done && !after.aborted && (before.command_sent || waits))
        }
    }
}

impl WifiCommandSequence {
    /// A sequence that has not started, with no callback.
    pub fn new(commands: Vec<WifiCommand>) -> (r: WifiCommandSequence)
        ensures
            r.commands@ == commands@,
            r.outputs@.len() == 0,
            r.index == 0,
            !r.command_sent,
            r.time_target == 0,
            !r.complete,
            !r.aborted,
            r.callback is None,
    {
        WifiCommandSequence {
            commands: commands,
            outputs: Vec::new(),
            command_sent: false,
            index: 0,
            time_target: 0,
            complete: false,
            aborted: false,
            callback: None,
        }
    }

    /// A sequence that has not started and hands its outputs to callback
    /// `func` when it completes.
    pub fn new_with_callback(commands: Vec<WifiCommand>, func: u32) -> (r: WifiCommandSequence)
        ensures
            r.commands@ == commands@,
            r.outputs@.len() == 0,
            r.index == 0,
            !r.command_sent,
            r.time_target == 0,
            !r.complete,
            !r.aborted,
            r.callback == Some(func),
    {
        WifiCommandSequence {
            commands: commands,
            outputs: Vec::new(),
            command_sent: false,
            index: 0,
            time_target: 0,
            complete: false,
            aborted: false,
            callback: Some(func),
        }
    }

    pub fn is_complete(&self) -> (r: bool)
        ensures
            r == self.complete,
    {
        self.complete
    }

    pub fn is_aborted(&self) -> (r: bool)
        ensures
            r == self.aborted,
    {
        self.aborted
    }

    /// The command under way can be stepped at `now` with the reply `rx`:
    /// the times fit, and a transform that will run can cut the reply.
    pub open spec fn step_ok(&self, now: u64, rx: Seq<u8>) -> bool {
        &&& now + SEQUENCE_PAUSE <= u64::MAX
        &&& self.index < self.commands@.len() ==> {
            let c = self.commands@[self.index as int];
            &&& self.time_target + c.delay <= u64::MAX
            &&& (c.transform_output matches Some(t) ==> transform_ok(t, rx))
        }
    }

    /// Moves to the next command; past the last one the sequence is
    /// complete.
    fn advance(&mut self) -> (finished: bool)
        requires
            old(self).index < old(self).commands@.len(),
        ensures
            final(self).index == old(self).index + 1,
            finished == (final(self).index >= old(self).commands@.len()),
            final(self).complete == (finished || old(self).complete),
            !final(self).command_sent,
            final(self).commands@ == old(self).commands@,
            final(self).outputs@ == old(self).outputs@,
            final(self).time_target == old(self).time_target,
            final(self).aborted == old(self).aborted,
            final(self).callback == old(self).callback,
    {
        let _n = self.commands.len();
        self.index = self.index + 1;
        self.command_sent = false;
        if self.index >= self.commands.len() {
            self.complete = true;
            true
        } else {
            false
        }
    }

    /// One step of the sequence at `now`, with the port's reply `rx_buffer`
    /// and the number of bytes the port has waiting. A finished or aborted
    /// sequence does nothing. Otherwise, once the command's delay has
    /// passed since the last step: an unsent command is sent (and, when it
    /// waits for nothing, done at once); a sent one is done when the reply
    /// holds its expected text, and aborts the sequence when it holds its
    /// error text. The next step is due a pause after this one.
    pub fn process(&mut self, now: u64, rx_buffer: &Vector<u8>, available: usize) -> (step: SequenceStep)
        requires
            old(self).step_ok(now, rx_buffer@),
        ensures
            sequence_stepped(*old(self), *final(self), now, rx_buffer@, available, step),
    {
        let mut step = SequenceStep { emit: None, clear_rx: false, finished: false };
        if self.aborted || self.complete {
            return step;
        }
        if self.index >= self.commands.len() {
            self.time_target = now + SEQUENCE_PAUSE;
            return step;
        }
        let idx = self.index;
        let delay = self.commands[idx].delay;
        let transform = self.commands[idx].transform_output;
        if now < self.time_target + delay {
            return step;
        }
        let ghost outs = output_views(self.outputs@);
        if !self.command_sent {
            let mut bytes: Vec<u8> = Vec::new();
            append_bytes(&mut bytes, self.commands[idx].command.as_slice());
            bytes.push(13u8);
            bytes.push(10u8);
            assert(bytes@ =~= emitted(old(self).commands@[idx as int].command@));
            step.emit = Some(bytes);
            self.command_sent = true;
            if self.commands[idx].expected_response.is_none() && self.commands[idx].error_response.is_none() {
                match transform {
                    Some(t) => {
                        let out = apply_transform(t, rx_buffer);
                        self.outputs.push(out);
                        assert(output_views(self.outputs@) =~= outs.push(transformed(t, rx_buffer@)));
                    },
                    None => {},
                }
                step.finished = self.advance();
                step.clear_rx = true;
            }
        } else if available > 0 {
            let mut done = false;
            match &self.commands[idx].expected_response {
                None => {},
                Some(expected) => {
                    if rx_buffer.contains(Vector::from_slice(expected.as_slice())) {
                        done = true;
                    }
                },
            }
            if done {
                match transform {
                    Some(t) => {
                        let out = apply_transform(t, rx_buffer);
                        self.outputs.push(out);
                        assert(output_views(self.outputs@) =~= outs.push(transformed(t, rx_buffer@)));
                    },
                    None => {},
                }
                step.finished = self.advance();
                step.clear_rx = true;
            }
            let mut failed = false;
            match &self.commands[idx].error_response {
                None => {},
                Some(error) => {
                    if rx_buffer.contains(Vector::from_slice(error.as_slice())) {
                        failed = true;
                    }
                },
            }
            if failed {
                self.command_sent = false;
                step.clear_rx = true;
                self.aborted = true;
            }
        }
        self.time_target = now + SEQUENCE_PAUSE;
        step
    }
}

/// A command that sends `command` and waits for `expected`.
pub open spec fn at_command(command: Seq<u8>, expected: Option<Seq<u8>>, delay: u64, transform: Option<Transform>) -> CommandView {
    (command, expected, None, delay, None, transform)
}

/// The views of the commands of a sequence.
pub open spec fn command_views(cs: Seq<WifiCommand>) -> Seq<CommandView> {
    cs.map_values(|c: WifiCommand| c.view_command())
}

/// The bytes `"`.
pub open spec fn quote() -> Seq<u8> {
    seq![34u8]
}

/// The commands that join the network `ssid` with password `pwd`: `AT`,
/// station mode, then `AT+CWJAP="ssid","pwd"`, each waiting for `OK`.
pub open spec fn connect_commands(ssid: Seq<u8>, pwd: Seq<u8>) -> Seq<CommandView> {
    seq![
        at_command("AT".spec_bytes(), Some("OK".spec_bytes()), 0, None),
        at_command("AT+CWMODE=1".spec_bytes(), Some("OK".spec_bytes()), 0, None),
        at_command(
            "AT+CWJAP=".spec_bytes() + quote() + ssid + quote() + ",".spec_bytes() + quote() + pwd + quote(),
            Some("OK".spec_bytes()),
            0,
            None,
        ),
    ]
}

/// The command that turns off the module's echo, a second after a reset.
pub open spec fn reset_commands() -> Seq<CommandView> {
    seq![at_command("ATE0".spec_bytes(), Some("OK".spec_bytes()), 1_000_000_000u64, None)]
}

/// The commands that look `domain` up: `AT`, then
/// `AT+CIPDOMAIN="domain"`, whose reply is cut down to the address.
pub open spec fn dns_commands(domain: Seq<u8>) -> Seq<CommandView> {
    seq![
        at_command("AT".spec_bytes(), Some("OK".spec_bytes()), 0, None),
        at_command(
            "AT+CIPDOMAIN=".spec_bytes() + quote() + domain + quote(),
            Some("OK".spec_bytes()),
            0,
            Some(Transform::DnsAddress),
        ),
    ]
}

/// The commands that send the request bytes `request` to `ip` over TCP
/// port 80: open the connection, announce the length, send the request
/// (keeping the reply) and check the module.
pub open spec fn http_commands(ip: Seq<u8>, request: Seq<u8>) -> Seq<CommandView> {
    seq![
        at_command("AT".spec_bytes(), Some("OK".spec_bytes()), 0, None),
        at_command(
            "AT+CIPSTART=".spec_bytes() + quote() + "TCP".spec_bytes() + quote() + ",".spec_bytes() + quote() + ip
                + quote() + ",80".spec_bytes(),
            None,
            0,
            None,
        ),
        at_command(
            "AT+CIPSEND=".spec_bytes() + rendered(request.len(), 10),
            Some("OK".spec_bytes()),
            0,
            None,
        ),
        at_command(request, Some("OK".spec_bytes()), 250_000_000u64, Some(Transform::Identity)),
        at_command("AT".spec_bytes(), Some("OK".spec_bytes()), 0, None),
    ]
}

/// The module driver: its serial port, enable and reset pins, the queued
/// command sequences and the one under way.
pub struct WifiDriver {
    pub device: SerioDevice,
    pub en_pin: usize,
    pub reset_pin: usize,
    pub queued_commands: Vector<WifiCommandSequence>,
    pub active_command: Option<WifiCommandSequence>,
    pub time_target: u64,
}

/// What the caller is to do after a step of the driver: the step of the
/// sequence under way, if one ran, and the sequence that has just
/// finished, whose outputs go to its callback.
pub struct DriverStep {
    pub step: Option<SequenceStep>,
    pub finished: Option<WifiCommandSequence>,
}

/// What one step of the driver does, from `before` to `after`, at `now`,
/// with the reply `rx` and `available` bytes waiting: nothing before the
/// pause has passed; then, with no sequence under way, the next queued one
/// starts; otherwise the one under way steps, and when it completes it is
/// handed back and the next queued one starts.
pub open spec fn driver_stepped(
    before: WifiDriver,
    after: WifiDriver,
    now: u64,
    rx: Seq<u8>,
    available: usize,
    r: DriverStep,
) -> bool {
    &&& after.device == before.device
    &&& after.en_pin == before.en_pin
    &&& after.reset_pin == before.reset_pin
    &&& now < before.time_target ==> r.step is None && r.finished is None && after.time_target
        == before.time_target && after.queued_commands@ == before.queued_commands@
        && after.active_command == before.active_command
    &&& now >= before.time_target ==> after.time_target == now + DRIVER_PAUSE
    &&& now >= before.time_target && before.active_command is None ==> r.step is None
        && r.finished is None && (if before.queued_commands@.len() == 0 {
        after.active_command is None && after.queued_commands@ == before.queued_commands@
    } else {
        after.active_command == Some(before.queued_commands@[0])
            && after.queued_commands@ == before.queued_commands@.drop_first()
    })
    &&& now >= before.time_target && before.active_command is Some ==> ({
        let c = before.active_command.unwrap();
        &&& r.step is Some
        &&& match r.finished {
            Some(done) => {
                &&& sequence_stepped(c, done, now, rx, available, r.step.unwrap())
                &&& done.complete
                &&& if before.queued_commands@.len() == 0 {
                    after.active_command is None && after.queued_commands@ == before.queued_commands@
                } else {
                    after.active_command == Some(before.queued_commands@[0])
                        && after.queued_commands@ == before.queued_commands@.drop_first()
                }
            },
            None => {
                &&& after.active_command matches Some(next)
                &&& sequence_stepped(c, next, now, rx, available, r.step.unwrap())
                &&& !next.complete
                &&& after.queued_commands@ == before.queued_commands@
            },
        }
    })
}

/// The pause between two steps of the driver.
pub const DRIVER_PAUSE: u64 = 150_000_000;

impl WifiDriver {
    /// A driver with nothing queued.
    pub fn new(device: SerioDevice, en_pin: usize, reset_pin: usize) -> (r: Self)
        ensures
            r.device == device,
            r.en_pin == en_pin,
            r.reset_pin == reset_pin,
            r.queued_commands@.len() == 0,
            r.active_command is None,
            r.time_target == 0,
    {
        WifiDriver {
            device: device,
            en_pin: en_pin,
            reset_pin: reset_pin,
            queued_commands: Vector::new(),
            active_command: None,
            time_target: 0,
        }
    }

    /// Queues joining the network `ssid` with password `pwd`: `AT`, station
    /// mode, then `AT+CWJAP="ssid","pwd"`, each waiting for `OK`.
    pub fn connect(&mut self, ssid: &[u8], pwd: &[u8])
        ensures
            final(self).queued_commands@.len() == old(self).queued_commands@.len() + 1,
            final(self).queued_commands@.drop_last() == old(self).queued_commands@,
            command_views(final(self).queued_commands@.last().commands@) == connect_commands(ssid@, pwd@),
            final(self).queued_commands@.last().callback is None,
            final(self).active_command == old(self).active_command,
            final(self).time_target == old(self).time_target,
            final(self).device == old(self).device,
            final(self).en_pin == old(self).en_pin,
            final(self).reset_pin == old(self).reset_pin,
    {
        let ok = "OK".as_bytes();
        let mut commands: Vec<WifiCommand> = Vec::new();
        commands.push(WifiCommand::new().with_command("AT".as_bytes()).with_expected_response(ok));
        commands.push(WifiCommand::new().with_command("AT+CWMODE=1".as_bytes()).with_expected_response(ok));
        let q: [u8; 1] = [34u8];
        assert(q@ =~= quote());
        commands.push(
            WifiCommand::new().with_command("AT+CWJAP=".as_bytes()).with_command(&q).join_vec(
                Vector::from_slice(ssid),
            ).with_command(&q).with_command(",".as_bytes()).with_command(&q).join_vec(
                Vector::from_slice(pwd),
            ).with_command(&q).with_expected_response(ok),
        );
        let ghost views = command_views(commands@);
        let sequence = WifiCommandSequence::new(commands);
        self.queued_commands.enqueue(sequence);
        assert(command_views(self.queued_commands@.last().commands@) =~= connect_commands(ssid@, pwd@));
        assert(self.queued_commands@.drop_last() =~= old(self).queued_commands@);
    }

    /// Queues turning off the module's echo (`ATE0`, waiting for `OK`, a
    /// second after the reset). Pulsing the reset pin is the caller's.
    pub fn reset(&mut self)
        ensures
            final(self).queued_commands@.len() == old(self).queued_commands@.len() + 1,
            final(self).queued_commands@.drop_last() == old(self).queued_commands@,
            command_views(final(self).queued_commands@.last().commands@) == reset_commands(),
            final(self).queued_commands@.last().callback is None,
            final(self).active_command == old(self).active_command,
            final(self).time_target == old(self).time_target,
            final(self).device == old(self).device,
            final(self).en_pin == old(self).en_pin,
            final(self).reset_pin == old(self).reset_pin,
    {
        let mut commands: Vec<WifiCommand> = Vec::new();
        commands.push(
            WifiCommand::new().with_command("ATE0".as_bytes()).with_expected_response("OK".as_bytes()).with_delay(
                MS_TO_NANO * 1000,
            ),
        );
        let sequence = WifiCommandSequence::new(commands);
        self.queued_commands.enqueue(sequence);
        assert(command_views(self.queued_commands@.last().commands@) =~= reset_commands());
        assert(self.queued_commands@.drop_last() =~= old(self).queued_commands@);
    }

    /// Queues a lookup of `domain`: `AT`, then `AT+CIPDOMAIN="domain"`,
    /// whose reply is cut down to the address and handed to callback
    /// `method`.
    pub fn dns_lookup(&mut self, domain: &[u8], method: u32)
        ensures
            final(self).queued_commands@.len() == old(self).queued_commands@.len() + 1,
            final(self).queued_commands@.drop_last() == old(self).queued_commands@,
            command_views(final(self).queued_commands@.last().commands@) == dns_commands(domain@),
            final(self).queued_commands@.last().callback == Some(method),
            final(self).active_command == old(self).active_command,
            final(self).time_target == old(self).time_target,
            final(self).device == old(self).device,
            final(self).en_pin == old(self).en_pin,
            final(self).reset_pin == old(self).reset_pin,
    {
        let ok = "OK".as_bytes();
        let q: [u8; 1] = [34u8];
        assert(q@ =~= quote());
        let mut commands: Vec<WifiCommand> = Vec::new();
        commands.push(WifiCommand::new().with_command("AT".as_bytes()).with_expected_response(ok));
        commands.push(
            WifiCommand::new().with_command("AT+CIPDOMAIN=".as_bytes()).with_command(&q).join_vec(
                Vector::from_slice(domain),
            ).with_command(&q).with_expected_response(ok).with_transform(Transform::DnsAddress),
        );
        let sequence = WifiCommandSequence::new_with_callback(commands, method);
        self.queued_commands.enqueue(sequence);
        assert(command_views(self.queued_commands@.last().commands@) =~= dns_commands(domain@));
        assert(self.queued_commands@.drop_last() =~= old(self).queued_commands@);
    }

    /// Queues sending `request` to `ip_addr` over TCP port 80: open the
    /// connection, announce the request's length, send it (keeping the
    /// reply) and check the module; the reply goes to callback `method`.
    pub fn http_request(&mut self, ip_addr: Vector<u8>, request: HttpRequest, method: u32)
        requires
            request_bytes(request).len() <= u32::MAX,
        ensures
            final(self).queued_commands@.len() == old(self).queued_commands@.len() + 1,
            final(self).queued_commands@.drop_last() == old(self).queued_commands@,
            command_views(final(self).queued_commands@.last().commands@) == http_commands(ip_addr@, request_bytes(request)),
            final(self).queued_commands@.last().callback == Some(method),
            final(self).active_command == old(self).active_command,
            final(self).time_target == old(self).time_target,
            final(self).device == old(self).device,
            final(self).en_pin == old(self).en_pin,
            final(self).reset_pin == old(self).reset_pin,
    {
        let content = request.as_vec();
        let ok = "OK".as_bytes();
        let q: [u8; 1] = [34u8];
        assert(q@ =~= quote());
        let mut commands: Vec<WifiCommand> = Vec::new();
        commands.push(WifiCommand::new().with_command("AT".as_bytes()).with_expected_response(ok));
        commands.push(
            WifiCommand::new().with_command("AT+CIPSTART=".as_bytes()).with_command(&q).with_command(
                "TCP".as_bytes(),
            ).with_command(&q).with_command(",".as_bytes()).with_command(&q).join_vec(ip_addr).with_command(
                &q,
            ).with_command(",80".as_bytes()),
        );
        let length = itoa_u32(content.len() as u32);
        commands.push(
            WifiCommand::new().with_command("AT+CIPSEND=".as_bytes()).with_command(&length).with_expected_response(ok),
        );
        commands.push(
            WifiCommand::new().with_vec_command(Vector::from_slice(content.as_slice())).with_transform(
                Transform::Identity,
            ).with_expected_response(ok).with_delay(MS_TO_NANO * 250),
        );
        commands.push(WifiCommand::new().with_command("AT".as_bytes()).with_expected_response(ok));
        let sequence = WifiCommandSequence::new_with_callback(commands, method);
        self.queued_commands.enqueue(sequence);
        assert(command_views(self.queued_commands@.last().commands@) =~= http_commands(ip_addr@, request_bytes(request)));
        assert(self.queued_commands@.drop_last() =~= old(self).queued_commands@);
    }

    /// The bytes sent for the message `msg`: the message and `\r\n`.
    pub fn emit(msg: &Vector<u8>) -> (r: Vec<u8>)
        ensures
            r@ == emitted(msg@),
    {
        let mut message: Vec<u8> = Vec::new();
        append_bytes(&mut message, msg.as_slice());
        message.push(13u8);
        message.push(10u8);
        message
    }

    /// One step of the driver at `now`. Once the pause since the last step
    /// has passed: with no sequence under way, the next queued one starts;
    /// otherwise the one under way steps, and when it completes the next
    /// queued one starts and the finished one is handed back.
    pub fn process(&mut self, now: u64, rx_buffer: &Vector<u8>, available: usize) -> (r: DriverStep)
        requires
            now + DRIVER_PAUSE <= u64::MAX,
            old(self).active_command matches Some(c) ==> c.step_ok(now, rx_buffer@),
        ensures
            driver_stepped(*old(self), *final(self), now, rx_buffer@, available, r),
    {
        if now < self.time_target {
            return DriverStep { step: None, finished: None };
        }
        self.time_target = now + DRIVER_PAUSE;
        let active = self.active_command.take();
        match active {
            None => {
                self.active_command = self.queued_commands.dequeue();
                DriverStep { step: None, finished: None }
            },
            Some(mut command) => {
                let step = command.process(now, rx_buffer, available);
                if command.is_complete() {
                    self.active_command = self.queued_commands.dequeue();
                    DriverStep { step: Some(step), finished: Some(command) }
                } else {
                    self.active_command = Some(command);
                    DriverStep { step: Some(step), finished: None }
                }
            },
        }
    }
}

} // verus!
