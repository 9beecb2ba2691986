//! The kernel's status LED requests and debug frames, which, unlike the
//! application's, put no space between a number and its message.
use vstd::prelude::*;
use crate::date_time::MS_TO_NANO;
use crate::math::{to_base, itoa_u64, rendered, lemma_hex_fits, lemma_decimal_fits};
use crate::phys::pins::{pin_out, GpioOutput, Power, PIN_BITS, PIN_TO_GPIO_PIN, bank_of};
use crate::debug::{append_bytes, hex_prefix, line_frame, LED_PIN};

verus! {

/// How fast the status LED blinks.
#[derive(Copy, Clone, PartialEq, Eq, Structural, Debug)]
pub enum Speed {
    Slow,
    Fast,
    Normal,
}

/// The length, in nanoseconds, of one blink at `speed`.
pub open spec fn speed_period(speed: Speed) -> u64 {
    match speed {
        Speed::Slow => (MS_TO_NANO * 1100) as u64,
        Speed::Fast => (MS_TO_NANO * 350) as u64,
        Speed::Normal => (MS_TO_NANO * 700) as u64,
    }
}

/// The length, in nanoseconds, of one blink at `speed`.
pub fn speed_nanos(speed: Speed) -> (r: u64)
    ensures
        r == speed_period(speed),
{
    match speed {
        Speed::Slow => MS_TO_NANO * 1100,
        Speed::Fast => MS_TO_NANO * 350,
        Speed::Normal => MS_TO_NANO * 700,
    }
}

/// Pending blinks of the status LED.
#[derive(Copy, Clone, PartialEq, Eq, Structural, Debug)]
pub struct BlinkConfig {
    pub speed: Speed,
    pub remaining_count: u8,
}

impl BlinkConfig {
    /// No pending blinks, at normal speed.
    pub fn new() -> (r: BlinkConfig)
        ensures
            r.speed == Speed::Normal,
            r.remaining_count == 0,
    {
        BlinkConfig { speed: Speed::Normal, remaining_count: 0 }
    }
}

/// Asks for `count` blinks at `speed`; dropped while blinks are pending.
pub fn blink(config: &mut BlinkConfig, count: u8, speed: Speed)
    ensures
        old(config).remaining_count == 0 ==> *final(config) == (BlinkConfig {
            speed: speed,
            remaining_count: count,
        }),
        old(config).remaining_count != 0 ==> *final(config) == *old(config),
{
    if config.remaining_count == 0 {
        config.speed = speed;
        config.remaining_count = count;
    }
}

/// The change that turns the status LED on.
pub fn blink_led_on() -> (r: GpioOutput)
    ensures
        r.bank == bank_of(PIN_TO_GPIO_PIN@[13]),
        r.mask == 1u32 << PIN_BITS@[13],
        r.high,
{
    pin_out(LED_PIN, Power::High)
}

/// The change that turns the status LED off.
pub fn blink_led_off() -> (r: GpioOutput)
    ensures
        r.bank == bank_of(PIN_TO_GPIO_PIN@[13]),
        r.mask == 1u32 << PIN_BITS@[13],
        !r.high,
{
    pin_out(LED_PIN, Power::Low)
}

/// The frame that shows `hex` in hexadecimal, then `message`.
pub fn debug_hex(hex: u32, message: &[u8]) -> (frame: Vec<u8>)
    ensures
        frame@ == hex_prefix() + rendered(hex as nat, 16) + line_frame(message@),
{
    proof {
        lemma_hex_fits(hex as u64);
    }
    let mut frame: Vec<u8> = Vec::new();
    frame.push(48u8);
    frame.push(120u8);
    let digits = to_base(hex as u64, 16);
    append_bytes(&mut frame, &digits);
    let tail = debug_str(message);
    append_bytes(&mut frame, tail.as_slice());
    assert(frame@ =~= hex_prefix() + rendered(hex as nat, 16) + line_frame(message@));
    frame
}

/// The frame that shows `val` in decimal, then `message`.
pub fn debug_u64(val: u64, message: &[u8]) -> (frame: Vec<u8>)
    ensures
        frame@ == rendered(val as nat, 10) + line_frame(message@),
{
    let mut frame: Vec<u8> = Vec::new();
    let digits = itoa_u64(val);
    append_bytes(&mut frame, &digits);
    let tail = debug_str(message);
    append_bytes(&mut frame, tail.as_slice());
    frame
}

/// The frame that shows `val` in decimal, then `message`.
pub fn debug_u32(val: u32, message: &[u8]) -> (frame: Vec<u8>)
    ensures
        frame@ == rendered(val as nat, 10) + line_frame(message@),
{
    proof {
        lemma_decimal_fits(val as u64);
    }
    let mut frame: Vec<u8> = Vec::new();
    let digits = to_base(val as u64, 10);
    append_bytes(&mut frame, &digits);
    let tail = debug_str(message);
    append_bytes(&mut frame, tail.as_slice());
    frame
}

/// The frame of `message` alone.
pub fn debug_str(message: &[u8]) -> (frame: Vec<u8>)
    ensures
        frame@ == line_frame(message@),
{
    let mut frame: Vec<u8> = Vec::new();
    append_bytes(&mut frame, message);
    frame.push(10u8);
    frame
}

} // verus!
