//! Register-level control of the microcontroller's peripherals. Every
//! function here computes what a register write is to be; performing it,
//! and reading a register's current value, is left to the caller.
use vstd::prelude::*;

pub mod addrs;
pub mod uart;
pub mod irq;
pub mod dma;
pub mod pins;





verus! {

/// Direction of a general purpose pin.
#[derive(Copy, Clone, PartialEq, Eq, Structural, Debug)]
pub enum Dir {
    Input,
    Output,
}

/// How a pad configuration value is combined with the register.
#[derive(Copy, Clone, PartialEq, Eq, Structural, Debug)]
pub enum Bitwise {
    /// Or with the existing value.
    Or,
    /// And with the existing value.
    And,
    /// Replace the existing value.
    Eq,
}

/// A word to be stored at a memory-mapped register.
#[derive(Copy, Clone, PartialEq, Eq, Structural, Debug)]
pub struct RegisterWrite {
    pub address: u32,
    pub value: u32,
}

/// `number` with bit `bit` cleared.
pub fn clear_bit(number: u32, bit: u8) -> (r: u32)
    requires
        bit < 32,
    ensures
        r == number & !(1u32 << bit),
{
    number & !(0x01u32 << bit)
}

/// `number` with bit `bit` set.
pub fn set_bit(number: u32, bit: u8) -> (r: u32)
    requires
        bit < 32,
    ensures
        r == number | (1u32 << bit),
{
    number | (0x01u32 << bit)
}

/// Whether bit `bit` of `number` is set.
pub open spec fn bit_is_set(number: u32, bit: u32) -> bool {
    (number >> bit) & 1 == 1
}

/// Setting a bit sets exactly that bit: it reads back as set, and every
/// other bit is as it was.
pub proof fn lemma_set_bit(number: u32, bit: u32, other: u32)
    requires
        bit < 32,
        other < 32,
    ensures
        bit_is_set(number | (1u32 << bit), bit),
        other != bit ==> bit_is_set(number | (1u32 << bit), other) == bit_is_set(number, other),
{
    assert(bit_is_set(number | (1u32 << bit), bit)) by (bit_vector)
        requires
            bit < 32,
    ;
    assert(other != bit ==> bit_is_set(number | (1u32 << bit), other) == bit_is_set(number, other))
        by (bit_vector)
        requires
            bit < 32,
            other < 32,
    ;
}

/// Clearing a bit clears exactly that bit: it reads back as clear, and
/// every other bit is as it was.
pub proof fn lemma_clear_bit(number: u32, bit: u32, other: u32)
    requires
        bit < 32,
        other < 32,
    ensures
        !bit_is_set(number & !(1u32 << bit), bit),
        other != bit ==> bit_is_set(number & !(1u32 << bit), other) == bit_is_set(number, other),
{
    assert(!bit_is_set(number & !(1u32 << bit), bit)) by (bit_vector)
        requires
            bit < 32,
    ;
    assert(other != bit ==> bit_is_set(number & !(1u32 << bit), other) == bit_is_set(number, other))
        by (bit_vector)
        requires
            bit < 32,
            other < 32,
    ;
}

/// Clearing a bit undoes setting it on a number where it was clear, and
/// setting a bit undoes clearing it on a number where it was set.
pub proof fn lemma_set_clear_inverse(number: u32, bit: u32)
    requires
        bit < 32,
    ensures
        !bit_is_set(number, bit) ==> (number | (1u32 << bit)) & !(1u32 << bit) == number,
        bit_is_set(number, bit) ==> (number & !(1u32 << bit)) | (1u32 << bit) == number,
{
    assert(!bit_is_set(number, bit) ==> (number | (1u32 << bit)) & !(1u32 << bit) == number)
        by (bit_vector)
        requires
            bit < 32,
    ;
    assert(bit_is_set(number, bit) ==> (number & !(1u32 << bit)) | (1u32 << bit) == number)
        by (bit_vector)
        requires
            bit < 32,
    ;
}

} // verus!
