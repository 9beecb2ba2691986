//! The Wi-Fi task: resets the module, joins the network, looks up the
//! time server and, once its address is known, asks it for the local time.
//! The sequences' callbacks are numbered; the task dispatches them itself.
use vstd::prelude::*;
use vstd::string::StringSliceAdditionalSpecFns;
use crate::datastructures::Vector;
use crate::debug::append_bytes;
use crate::drivers::wifi::{
    CommandView, DRIVER_PAUSE, DriverStep, WifiCommandSequence, WifiDriver, command_views, connect_commands,
    dns_commands, driver_stepped, http_commands, reset_commands,
};
use crate::http_models::{HttpRequest, request_bytes};

verus! {

/// The callback of the time server's lookup.
pub const DNS_LOOKUP_DONE: u32 = 1;
/// The callback of the time request.
pub const HTTP_REQUEST_DONE: u32 = 2;

/// The network the task joins, and its password.
pub open spec fn network_name() -> Seq<u8> {
    "Bird of Prey".spec_bytes()
}

pub open spec fn network_password() -> Seq<u8> {
    "password".spec_bytes()
}

/// The time server.
pub open spec fn time_server() -> Seq<u8> {
    "worldtimeapi.org".spec_bytes()
}

/// The bytes of the time request: a `GET` of the Los Angeles time zone's
/// page from the time server.
pub open spec fn time_request_bytes() -> Seq<u8> {
    "GET".spec_bytes() + seq![32u8] + "/api/timezone/America/Los_Angeles.txt".spec_bytes() + " HTTP/1.1".spec_bytes()
        + seq![13u8, 10u8] + "Host: ".spec_bytes() + time_server() + seq![13u8, 10u8] + seq![13u8, 10u8]
}

/// What handing a finished sequence's outputs on came to.
#[derive(Copy, Clone, PartialEq, Eq, Structural, Debug)]
pub enum WifiEvent {
    /// No callback ran.
    Nothing,
    /// The lookup finished without an address.
    DnsComplete,
    /// The lookup gave an address, and the time request is queued.
    RequestQueued,
    /// The time request has finished; its reply is the sequence's output.
    HttpComplete,
}

/// The sequence `s` runs the commands `views` and hands its outputs to
/// `callback`, and has not started.
pub open spec fn fresh_sequence(s: WifiCommandSequence, views: Seq<CommandView>, callback: Option<u32>) -> bool {
    &&& command_views(s.commands@) == views
    &&& s.callback == callback
}

/// The task over its driver.
pub struct WifiTask {
    pub driver: WifiDriver,
    /// Whether the time request has finished.
    pub http_complete: bool,
}

/// What the callback `callback` does with `outputs`, from the task state
/// `before` (its driver and completion flag) to `after`, giving `event`.
pub open spec fn callback_handled(
    before: WifiDriver,
    before_complete: bool,
    after: WifiTask,
    callback: u32,
    outputs: Seq<Vector<u8>>,
    event: WifiEvent,
) -> bool {
    &&& after.driver.active_command == before.active_command
    &&& after.driver.time_target == before.time_target
    &&& after.driver.device == before.device
    &&& if callback == DNS_LOOKUP_DONE && outputs.len() > 0 && time_request_bytes().len() <= 0xFFFF_FFFF {
        &&& event == WifiEvent::RequestQueued
        &&& after.driver.queued_commands@.len() == before.queued_commands@.len() + 1
        &&& after.driver.queued_commands@.drop_last() == before.queued_commands@
        &&& fresh_sequence(
            after.driver.queued_commands@.last(),
            http_commands(outputs[0]@, time_request_bytes()),
            Some(HTTP_REQUEST_DONE),
        )
        &&& after.http_complete == before_complete
    } else {
        &&& after.driver.queued_commands@ == before.queued_commands@
        &&& event == if callback == DNS_LOOKUP_DONE {
            WifiEvent::DnsComplete
        } else if callback == HTTP_REQUEST_DONE {
            WifiEvent::HttpComplete
        } else {
            WifiEvent::Nothing
        }
        &&& after.http_complete == (before_complete || callback == HTTP_REQUEST_DONE)
    }
}

/// `bytes` as a new vector.
fn bytes_of(bytes: &[u8]) -> (r: Vec<u8>)
    ensures
        r@ == bytes@,
{
    let mut r: Vec<u8> = Vec::new();
    append_bytes(&mut r, bytes);
    r
}

impl WifiTask {
    /// The task over `driver`; the time request has not finished.
    pub fn new(driver: WifiDriver) -> (r: Self)
        ensures
            r.driver == driver,
            !r.http_complete,
    {
        WifiTask { driver: driver, http_complete: false }
    }

    /// Queues the start-up: the reset, joining the network, and the lookup
    /// of the time server, whose address goes to `DNS_LOOKUP_DONE`.
    pub fn init(&mut self)
        ensures
            final(self).driver.queued_commands@.len() == old(self).driver.queued_commands@.len() + 3,
            final(self).driver.queued_commands@.take(old(self).driver.queued_commands@.len() as int)
                == old(self).driver.queued_commands@,
            ({
                let q = final(self).driver.queued_commands@;
                let n = old(self).driver.queued_commands@.len() as int;
                &&& fresh_sequence(q[n], reset_commands(), None)
                &&& fresh_sequence(q[n + 1], connect_commands(network_name(), network_password()), None)
                &&& fresh_sequence(q[n + 2], dns_commands(time_server()), Some(DNS_LOOKUP_DONE))
            }),
            final(self).driver.active_command == old(self).driver.active_command,
            final(self).driver.time_target == old(self).driver.time_target,
            final(self).http_complete == old(self).http_complete,
    {
        let ghost q0 = self.driver.queued_commands@;
        self.driver.reset();
        let ghost q1 = self.driver.queued_commands@;
        self.driver.connect("Bird of Prey".as_bytes(), "password".as_bytes());
        let ghost q2 = self.driver.queued_commands@;
        self.driver.dns_lookup("worldtimeapi.org".as_bytes(), DNS_LOOKUP_DONE);
        let ghost q3 = self.driver.queued_commands@;
        assert(q1 == q0.push(q1.last()));
        assert(q2 == q1.push(q2.last()));
        assert(q3 == q2.push(q3.last()));
        assert(q3.take(q0.len() as int) =~= q0);
    }

    /// Messages from other tasks are ignored.
    pub fn handle_message(&mut self, topic: &[u8], content: &[u8]) {
    }

    /// Hands the outputs of a finished sequence to its callback: the
    /// lookup's first output is the server's address, to which the time
    /// request is queued; the time request's completion is recorded.
    pub fn handle_callback(&mut self, callback: u32, outputs: &Vec<Vector<u8>>) -> (event: WifiEvent)
        ensures
            callback_handled(old(self).driver, old(self).http_complete, *final(self), callback, outputs@, event),
    {
        if callback == DNS_LOOKUP_DONE {
            if outputs.len() > 0 {
                let ip = outputs[0].clone();
                let request = HttpRequest {
                    method: bytes_of("GET".as_bytes()),
                    request_uri: bytes_of("/api/timezone/America/Los_Angeles.txt".as_bytes()),
                    host: bytes_of("worldtimeapi.org".as_bytes()),
                    headers: None,
                    content: None,
                };
                let text = request.as_vec();
                assert(request_bytes(request) =~= time_request_bytes());
                if text.len() <= 0xFFFF_FFFFusize {
                    self.driver.http_request(ip, request, HTTP_REQUEST_DONE);
                    return WifiEvent::RequestQueued;
                }
                return WifiEvent::DnsComplete;
            }
            WifiEvent::DnsComplete
        } else if callback == HTTP_REQUEST_DONE {
            self.http_complete = true;
            WifiEvent::HttpComplete
        } else {
            WifiEvent::Nothing
        }
    }

    /// One step of the task at `now`: the driver steps, and a sequence that
    /// finishes with a callback has its outputs handed on.
    pub fn system_loop(&mut self, now: u64, rx_buffer: &Vector<u8>, available: usize) -> (r: (DriverStep, WifiEvent))
        requires
            now + DRIVER_PAUSE <= u64::MAX,
            old(self).driver.active_command matches Some(c) ==> c.step_ok(now, rx_buffer@),
        ensures
            exists|mid: WifiDriver|
                #![trigger driver_stepped(old(self).driver, mid, now, rx_buffer@, available, r.0)]
                {
                    &&& driver_stepped(old(self).driver, mid, now, rx_buffer@, available, r.0)
                    &&& match r.0.finished {
                        Some(f) => match f.callback {
                            Some(id) => callback_handled(mid, old(self).http_complete, *final(self), id, f.outputs@, r.1),
                            None => final(self).driver == mid && final(self).http_complete == old(self).http_complete
                                && r.1 == WifiEvent::Nothing,
                        },
                        None => final(self).driver == mid && final(self).http_complete == old(self).http_complete
                            && r.1 == WifiEvent::Nothing,
                    }
                },
    {
        let step = self.driver.process(now, rx_buffer, available);
        let event = match &step.finished {
            Some(f) => match f.callback {
                Some(id) => self.handle_callback(id, &f.outputs),
                None => WifiEvent::Nothing,
            },
            None => WifiEvent::Nothing,
        };
        let r = (step, event);
        assert(exists|m: WifiDriver|
            #![trigger driver_stepped(old(self).driver, m, now, rx_buffer@, available, r.0)]
            {
                &&& driver_stepped(old(self).driver, m, now, rx_buffer@, available, r.0)
                &&& match r.0.finished {
                    Some(f) => match f.callback {
                        Some(id) => callback_handled(m, old(self).http_complete, *self, id, f.outputs@, r.1),
                        None => self.driver == m && self.http_complete == old(self).http_complete
                            && r.1 == WifiEvent::Nothing,
                    },
                    None => self.driver == m && self.http_complete == old(self).http_complete
                        && r.1 == WifiEvent::Nothing,
                }
            });
        r
    }
}

} // verus!
