//! The direct memory access multiplexer: which request source feeds each
//! channel, and whether the channel is on.
use vstd::prelude::*;
use crate::phys::addrs;
use crate::phys::RegisterWrite;

verus! {

/// The request sources a channel can be fed from.
#[derive(Copy, Clone, PartialEq, Eq, Structural, Debug)]
pub enum DMASource {
    Uart1Tx,
    Uart1Rx,
    Uart3Tx,
    Uart3Rx,
    Uart5Tx,
    Uart5Rx,
    Uart7Tx,
    Uart7Rx,
    Uart2Tx,
    Uart2Rx,
    Uart4Tx,
    Uart4Rx,
    Uart6Tx,
    Uart6Rx,
    Uart8Tx,
    Uart8Rx,
}

/// A channel number.
pub type DMAChannel = u32;

/// The multiplexer's number for a request source.
pub open spec fn source_value(source: DMASource) -> u32 {
    match source {
        DMASource::Uart1Tx => 2,
        DMASource::Uart1Rx => 3,
        DMASource::Uart3Tx => 4,
        DMASource::Uart3Rx => 5,
        DMASource::Uart5Tx => 6,
        DMASource::Uart5Rx => 7,
        DMASource::Uart7Tx => 8,
        DMASource::Uart7Rx => 9,
        DMASource::Uart2Tx => 66,
        DMASource::Uart2Rx => 67,
        DMASource::Uart4Tx => 68,
        DMASource::Uart4Rx => 69,
        DMASource::Uart6Tx => 70,
        DMASource::Uart6Rx => 71,
        DMASource::Uart8Tx => 72,
        DMASource::Uart8Rx => 73,
    }
}

/// The multiplexer's number for a request source.
pub fn dma_source_number(source: DMASource) -> (r: u32)
    ensures
        r == source_value(source),
{
    match source {
        DMASource::Uart1Tx => 2,
        DMASource::Uart1Rx => 3,
        DMASource::Uart3Tx => 4,
        DMASource::Uart3Rx => 5,
        DMASource::Uart5Tx => 6,
        DMASource::Uart5Rx => 7,
        DMASource::Uart7Tx => 8,
        DMASource::Uart7Rx => 9,
        DMASource::Uart2Tx => 66,
        DMASource::Uart2Rx => 67,
        DMASource::Uart4Tx => 68,
        DMASource::Uart4Rx => 69,
        DMASource::Uart6Tx => 70,
        DMASource::Uart6Rx => 71,
        DMASource::Uart8Tx => 72,
        DMASource::Uart8Rx => 73,
    }
}

/// The multiplexer register of `channel`.
pub open spec fn mux_addr(channel: DMAChannel) -> int {
    addrs::DMAMUX + channel * 4
}

/// A channel whose multiplexer register has an address.
pub open spec fn valid_channel(channel: DMAChannel) -> bool {
    mux_addr(channel) <= u32::MAX
}

fn get_addr(channel: DMAChannel) -> (r: u32)
    requires
        valid_channel(channel),
    ensures
        r == mux_addr(channel),
{
    addrs::DMAMUX + (channel * 4)
}

/// The write that turns `channel` on, given its register's value.
pub fn dma_enable(channel: DMAChannel, current: u32) -> (w: RegisterWrite)
    requires
        valid_channel(channel),
    ensures
        w.address == mux_addr(channel),
        w.value == current | (1u32 << 31u32),
{
    let addr = get_addr(channel);
    RegisterWrite { address: addr, value: current | (0x1u32 << 31u32) }
}

/// The write that turns `channel` off, given its register's value.
pub fn dma_disable(channel: DMAChannel, current: u32) -> (w: RegisterWrite)
    requires
        valid_channel(channel),
    ensures
        w.address == mux_addr(channel),
        w.value == current & !(1u32 << 31u32),
{
    let addr = get_addr(channel);
    RegisterWrite { address: addr, value: current & !(0x1u32 << 31u32) }
}

/// The write that turns on `channel`'s periodic trigger, given its
/// register's value.
pub fn dma_trigger_enable(channel: DMAChannel, current: u32) -> (w: RegisterWrite)
    requires
        valid_channel(channel),
    ensures
        w.address == mux_addr(channel),
        w.value == current | (1u32 << 30u32),
{
    let addr = get_addr(channel);
    RegisterWrite { address: addr, value: current | (0x1u32 << 30u32) }
}

/// The write that turns off `channel`'s periodic trigger, given its
/// register's value.
pub fn dma_trigger_disable(channel: DMAChannel, current: u32) -> (w: RegisterWrite)
    requires
        valid_channel(channel),
    ensures
        w.address == mux_addr(channel),
        w.value == current & !(1u32 << 30u32),
{
    let addr = get_addr(channel);
    RegisterWrite { address: addr, value: current & !(0x1u32 << 30u32) }
}

/// The write that feeds `channel` from `source`, given its register's
/// value: the low six bits are replaced by the source's number.
pub fn dma_configure_source(channel: DMAChannel, source: DMASource, current: u32) -> (w:
    RegisterWrite)
    requires
        valid_channel(channel),
    ensures
        w.address == mux_addr(channel),
        w.value == (current & !0x3Fu32) | source_value(source),
{
    let addr = get_addr(channel);
    RegisterWrite { address: addr, value: current & !0x3Fu32 | dma_source_number(source) }
}

/// The destination address register of `channel`.
pub open spec fn destination_addr(channel: DMAChannel) -> int {
    addrs::DMA + 0x1010 + channel * 0x20
}

/// The write that points `channel` at `destination`.
pub fn dma_destination(channel: DMAChannel, destination: u32) -> (w: RegisterWrite)
    requires
        destination_addr(channel) <= u32::MAX,
    ensures
        w.address == destination_addr(channel),
        w.value == destination,
{
    let addr = addrs::DMA + 0x1010 + (channel * 0x20);
    RegisterWrite { address: addr, value: destination }
}

} // verus!
