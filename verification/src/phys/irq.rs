//! Interrupt lines of the nested vectored interrupt controller: which
//! register bank and bit each one sits at.
use vstd::prelude::*;
use crate::phys::addrs;
use crate::phys::{RegisterWrite, set_bit};

verus! {

/// The number of interrupt lines the vector table has room for.
pub const MAX_SUPPORTED_IRQ: usize = 1024;

/// The interrupt lines in use.
#[derive(Copy, Clone, PartialEq, Eq, Structural, Debug)]
pub enum Irq {
    Uart1,
    Uart2,
    Uart3,
    Uart4,
    Uart5,
    Uart6,
    Uart7,
    Uart8,
    Gpt1,
    Gpt2,
    PeriodicTimer,
}

/// The line number of an interrupt.
pub open spec fn irq_line(irq: Irq) -> u32 {
    match irq {
        Irq::Uart1 => 20,
        Irq::Uart2 => 21,
        Irq::Uart3 => 22,
        Irq::Uart4 => 23,
        Irq::Uart5 => 24,
        Irq::Uart6 => 25,
        Irq::Uart7 => 26,
        Irq::Uart8 => 29,
        Irq::Gpt1 => 100,
        Irq::Gpt2 => 101,
        Irq::PeriodicTimer => 122,
    }
}

/// The line number of an interrupt.
pub fn irq_number(irq: Irq) -> (r: u32)
    ensures
        r == irq_line(irq),
{
    match irq {
        Irq::Uart1 => 20,
        Irq::Uart2 => 21,
        Irq::Uart3 => 22,
        Irq::Uart4 => 23,
        Irq::Uart5 => 24,
        Irq::Uart6 => 25,
        Irq::Uart7 => 26,
        Irq::Uart8 => 29,
        Irq::Gpt1 => 100,
        Irq::Gpt2 => 101,
        Irq::PeriodicTimer => 122,
    }
}

/// The register of the bank that line `irq` sits in, counted from
/// `base`: one 32-bit word per 32 lines.
pub open spec fn bank_addr(base: u32, irq: Irq) -> u32 {
    (base + (irq_line(irq) / 32) * 4) as u32
}

/// The bit of line `irq` within its bank.
pub open spec fn bank_bit(irq: Irq) -> u32 {
    irq_line(irq) % 32
}

/// The write that sets the bit of `irq_number` in the enable bank whose
/// current value is `current_value`.
pub fn irq_enable(irq_number: Irq, current_value: u32) -> (w: RegisterWrite)
    ensures
        w.address == bank_addr(addrs::NVIC_IRQ_ENABLE_REG, irq_number),
        w.value == current_value | (1u32 << bank_bit(irq_number)),
{
    let num = self::irq_number(irq_number);
    let bank = num / 32;
    let bit = num - bank * 32;
    let addr = addrs::NVIC_IRQ_ENABLE_REG + (bank * 4);
    let next_value = set_bit(current_value, bit as u8);
    RegisterWrite { address: addr, value: next_value }
}

/// The write that sets the bit of `irq_number` in the clear-enable bank
/// whose current value is `current_value`.
pub fn irq_disable(irq_number: Irq, current_value: u32) -> (w: RegisterWrite)
    ensures
        w.address == bank_addr(addrs::NVIC_IRQ_CLEAR_REG, irq_number),
        w.value == current_value | (1u32 << bank_bit(irq_number)),
{
    let num = self::irq_number(irq_number);
    let bank = num / 32;
    let bit = num - bank * 32;
    let addr = addrs::NVIC_IRQ_CLEAR_REG + (bank * 4);
    let next_value = set_bit(current_value, bit as u8);
    RegisterWrite { address: addr, value: next_value }
}

/// The writes that zero the first four clear-pending registers, in order.
pub fn irq_clear_pending() -> (w: Vec<RegisterWrite>)
    ensures
        w@.len() == 4,
        forall|i: int|
            0 <= i < 4 ==> #[trigger] w@[i] == (RegisterWrite {
                address: (addrs::NVIC_IRQ_CLEAR_PENDING_REG + 4 * i) as u32,
                value: 0,
            }),
{
    let mut w: Vec<RegisterWrite> = Vec::new();
    w.push(RegisterWrite { address: addrs::NVIC_IRQ_CLEAR_PENDING_REG + 0x0, value: 0x0 });
    w.push(RegisterWrite { address: addrs::NVIC_IRQ_CLEAR_PENDING_REG + 0x4, value: 0x0 });
    w.push(RegisterWrite { address: addrs::NVIC_IRQ_CLEAR_PENDING_REG + 0x8, value: 0x0 });
    w.push(RegisterWrite { address: addrs::NVIC_IRQ_CLEAR_PENDING_REG + 0xC, value: 0x0 });
    w
}

} // verus!
