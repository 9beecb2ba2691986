//! Debug output: the status LED on pin 13 and the text frames written to
//! the debug serial port.
use vstd::prelude::*;
use crate::date_time::MS_TO_NANO;
use crate::math::{to_base, itoa_u64, rendered, lemma_hex_fits, lemma_decimal_fits};
use crate::phys::pins::{pin_out, GpioOutput, Power, PIN_BITS, PIN_TO_GPIO_PIN, bank_of};

verus! {

/// The board pin of the status LED.
pub const LED_PIN: usize = 13;

/// How fast the status LED blinks.
#[derive(Copy, Clone, PartialEq, Eq, Structural, Debug)]
pub enum Speed {
    Slow,
    Fast,
    Normal,
}

/// The length, in nanoseconds, of one blink state at `speed`.
pub open spec fn speed_period(speed: Speed) -> u64 {
    match speed {
        Speed::Slow => (MS_TO_NANO * 1000) as u64,
        Speed::Fast => (MS_TO_NANO * 350) as u64,
        Speed::Normal => (MS_TO_NANO * 700) as u64,
    }
}

/// The length, in nanoseconds, of one blink state at `speed`.
pub fn speed_nanos(speed: Speed) -> (r: u64)
    ensures
        r == speed_period(speed),
{
    match speed {
        Speed::Slow => MS_TO_NANO * 1000,
        Speed::Fast => MS_TO_NANO * 350,
        Speed::Normal => MS_TO_NANO * 700,
    }
}

/// Pending blinks of the status LED: one count per on or off state.
#[derive(Copy, Clone, PartialEq, Eq, Structural, Debug)]
pub struct BlinkConfig {
    pub speed: Speed,
    pub remaining_count: u8,
}

impl BlinkConfig {
    /// No pending blinks, at normal speed.
    pub fn new() -> (r: BlinkConfig)
        ensures
            r.speed == Speed::Normal,
            r.remaining_count == 0,
    {
        BlinkConfig { speed: Speed::Normal, remaining_count: 0 }
    }
}

/// Asks for `count` blinks at `speed`. The request replaces the pending
/// one when nothing is pending or the speed differs; otherwise it is
/// dropped.
pub fn blink(config: &mut BlinkConfig, count: u8, speed: Speed)
    requires
        count * 2 <= u8::MAX,
    ensures
        (old(config).remaining_count == 0 || speed != old(config).speed) ==> *final(config) == (
        BlinkConfig { speed: speed, remaining_count: (count * 2) as u8 }),
        !(old(config).remaining_count == 0 || speed != old(config).speed) ==> *final(config)
            == *old(config),
{
    if config.remaining_count == 0 || speed != config.speed {
        config.speed = speed;
        config.remaining_count = count * 2;
    }
}

/// Adds one fast blink to the pending ones.
pub fn blink_accumulate(config: &mut BlinkConfig)
    requires
        old(config).remaining_count + 2 <= u8::MAX,
    ensures
        final(config).speed == Speed::Fast,
        final(config).remaining_count == old(config).remaining_count + 2,
{
    config.speed = Speed::Fast;
    config.remaining_count = config.remaining_count + 2;
}

/// The change that turns the status LED on.
pub fn blink_led_on() -> (r: GpioOutput)
    ensures
        r.bank == bank_of(PIN_TO_GPIO_PIN@[13]),
        r.mask == 1u32 << PIN_BITS@[13],
        r.high,
{
    pin_out(LED_PIN, Power::High)
}

/// The change that turns the status LED off.
pub fn blink_led_off() -> (r: GpioOutput)
    ensures
        r.bank == bank_of(PIN_TO_GPIO_PIN@[13]),
        r.mask == 1u32 << PIN_BITS@[13],
        !r.high,
{
    pin_out(LED_PIN, Power::Low)
}

/// `v` followed by the bytes of `s`.
pub fn append_bytes(v: &mut Vec<u8>, s: &[u8])
    ensures
        final(v)@ == old(v)@ + s@,
{
    v.extend_from_slice(s);
    assert(v@ =~= old(v)@ + s@);
}

/// The bytes "0x".
pub open spec fn hex_prefix() -> Seq<u8> {
    seq![48u8, 120u8]
}

/// The frame of a debug message: `message` and a newline.
pub open spec fn line_frame(message: Seq<u8>) -> Seq<u8> {
    message.push(10u8)
}

/// The frame of a number and a message: the number's 20-byte rendering, a
/// space, then the message line.
pub open spec fn number_frame(digits: Seq<u8>, message: Seq<u8>) -> Seq<u8> {
    digits + seq![32u8] + line_frame(message)
}

/// The frame that shows `hex` in hexadecimal, then `message`.
pub fn debug_hex(hex: u32, message: &[u8]) -> (frame: Vec<u8>)
    ensures
        frame@ == hex_prefix() + number_frame(rendered(hex as nat, 16), message@),
{
    proof {
        lemma_hex_fits(hex as u64);
    }
    let mut frame: Vec<u8> = Vec::new();
    frame.push(48u8);
    frame.push(120u8);
    let digits = to_base(hex as u64, 16);
    append_bytes(&mut frame, &digits);
    frame.push(32u8);
    let tail = debug_str(message);
    append_bytes(&mut frame, tail.as_slice());
    assert(frame@ =~= hex_prefix() + number_frame(rendered(hex as nat, 16), message@));
    frame
}

/// The frame that shows `val` in decimal, then `message`.
pub fn debug_u64(val: u64, message: &[u8]) -> (frame: Vec<u8>)
    ensures
        frame@ == number_frame(rendered(val as nat, 10), message@),
{
    let mut frame: Vec<u8> = Vec::new();
    let digits = itoa_u64(val);
    append_bytes(&mut frame, &digits);
    frame.push(32u8);
    let tail = debug_str(message);
    append_bytes(&mut frame, tail.as_slice());
    assert(frame@ =~= number_frame(rendered(val as nat, 10), message@));
    frame
}

/// The frame that shows `val` in decimal, then `message`.
pub fn debug_u32(val: u32, message: &[u8]) -> (frame: Vec<u8>)
    ensures
        frame@ == number_frame(rendered(val as nat, 10), message@),
{
    proof {
        lemma_decimal_fits(val as u64);
    }
    let mut frame: Vec<u8> = Vec::new();
    let digits = to_base(val as u64, 10);
    append_bytes(&mut frame, &digits);
    frame.push(32u8);
    let tail = debug_str(message);
    append_bytes(&mut frame, tail.as_slice());
    assert(frame@ =~= number_frame(rendered(val as nat, 10), message@));
    frame
}

/// The frame of `message` alone.
pub fn debug_str(message: &[u8]) -> (frame: Vec<u8>)
    ensures
        frame@ == line_frame(message@),
{
    let mut frame: Vec<u8> = Vec::new();
    append_bytes(&mut frame, message);
    frame.push(10u8);
    frame
}

} // verus!
