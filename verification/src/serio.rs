//! Buffered serial ports. A port queues the bytes to send until the
//! transmitter asks for them, and queues received bytes until they are
//! read; the interrupt handling decides, from the port's status word, what
//! the hardware is to do next.
use vstd::prelude::*;
use crate::datastructures::{Buffer, Items, Queue};
use crate::phys::uart::{
    BitMode, Device, IdleConfiguration, ParityType, UartConfig, control_word, control_addr, uart_base,
    uart_configure, uart_disable, uart_sw_reset,
};
use crate::phys::irq::Irq;
use crate::phys::pins::{Alt, DriveStrength, Mode, PadConfig, PinSetup, PinSpeed, Power, PullKeep, PullUpDown};
use crate::phys::RegisterWrite;

verus! {

/// The capacity of each of a port's two queues, in bytes.
pub const UART_BUFFER_SIZE: usize = 256;

/// The serial ports, by the UART that backs them.
#[derive(Copy, Clone, PartialEq, Eq, Structural, Debug)]
pub enum SerioDevice {
    Uart1,
    Uart2,
    Uart3,
    Uart4,
    Uart5,
    Uart6,
    Uart7,
    Uart8,
}

/// The zero-based number of a serial port.
pub open spec fn serio_number(device: SerioDevice) -> usize {
    match device {
        SerioDevice::Uart1 => 0,
        SerioDevice::Uart2 => 1,
        SerioDevice::Uart3 => 2,
        SerioDevice::Uart4 => 3,
        SerioDevice::Uart5 => 4,
        SerioDevice::Uart6 => 5,
        SerioDevice::Uart7 => 6,
        SerioDevice::Uart8 => 7,
    }
}

/// What the transmitter is to do after an interrupt.
#[derive(Copy, Clone, PartialEq, Eq, Structural, Debug)]
pub enum SendAction {
    /// Nothing: the transmitter did not ask for data.
    Idle,
    /// Put this byte in the transmit FIFO.
    Write(u8),
    /// Nothing is queued: turn off the transmit-complete interrupt.
    StopTransmit,
}

/// A serial port: its device, pins and interrupt line, whether it has
/// been set up, and its two queues.
pub struct Uart {
    pub device: Device,
    pub tx_pin: usize,
    pub rx_pin: usize,
    pub initialized: bool,
    pub irq_processing: bool,
    pub irq: Irq,
    pub tx_buffer: Buffer<256, u8>,
    pub rx_buffer: Buffer<256, u8>,
    pub buffer_head: usize,
}

/// `s` cut to the capacity of a port's queue.
pub open spec fn capped(s: Seq<u8>) -> Seq<u8> {
    if s.len() <= UART_BUFFER_SIZE { s } else { s.take(UART_BUFFER_SIZE as int) }
}

/// Whether bit `bit` of the status word is set.
pub open spec fn status_bit(statuses: u32, bit: u32) -> bool {
    statuses & (1u32 << bit) > 0
}

/// The receive-data-full status bit.
pub const STATUS_RDRF: u32 = 21;
/// The idle-line status bit.
pub const STATUS_IDLE: u32 = 20;
/// The transmit-data-empty status bit.
pub const STATUS_TDRE: u32 = 23;

/// What one interrupt does to a port `before`, leaving it `after`, with
/// the status word `statuses` and the drained bytes `received`: a port
/// that is not set up or is already busy is left as it was and gives
/// `None`; otherwise the receive half queues the bytes when data arrived,
/// the send half feeds or stops the transmitter, and the pair of decisions
/// comes back.
pub open spec fn irq_handled(
    before: Uart,
    after: Uart,
    statuses: u32,
    received: Seq<u8>,
    r: Option<(bool, SendAction)>,
) -> bool {
    if !before.initialized || before.irq_processing {
        r is None && after == before
    } else {
        &&& r is Some
        &&& r.unwrap().0 == status_bit(statuses, STATUS_IDLE)
        &&& after.initialized == before.initialized
        &&& !after.irq_processing
        &&& after.device == before.device
        &&& after.tx_pin == before.tx_pin
        &&& after.rx_pin == before.rx_pin
        &&& after.irq == before.irq
        &&& after.buffer_head == before.buffer_head
        &&& status_bit(statuses, STATUS_RDRF) ==> after.rx_buffer.items() == capped(
            before.rx_buffer.items() + received,
        )
        &&& !status_bit(statuses, STATUS_RDRF) ==> after.rx_buffer == before.rx_buffer
        &&& !status_bit(statuses, STATUS_TDRE) ==> r.unwrap().1 == SendAction::Idle
            && after.tx_buffer == before.tx_buffer
        &&& status_bit(statuses, STATUS_TDRE) && before.tx_buffer.items().len() == 0
            ==> r.unwrap().1 == SendAction::StopTransmit && after.tx_buffer.items()
            == before.tx_buffer.items()
        &&& status_bit(statuses, STATUS_TDRE) && before.tx_buffer.items().len() > 0
            ==> r.unwrap().1 == SendAction::Write(before.tx_buffer.items()[0])
            && after.tx_buffer.items() == before.tx_buffer.items().drop_first()
    }
}

/// The pad settings of a port's transmit pin.
pub open spec fn tx_pad() -> PadConfig {
    PadConfig {
        hysterisis: true,
        resistance: PullUpDown::PullDown100k,
        pull_keep: PullKeep::Keeper,
        pull_keep_en: false,
        open_drain: false,
        speed: PinSpeed::Max200MHz,
        drive_strength: DriveStrength::MaxDiv3,
        fast_slew_rate: true,
    }
}

/// The pad settings of a port's receive pin.
pub open spec fn rx_pad() -> PadConfig {
    PadConfig {
        hysterisis: true,
        resistance: PullUpDown::PullUp22k,
        pull_keep: PullKeep::Pull,
        pull_keep_en: true,
        open_drain: false,
        speed: PinSpeed::Low50MHz,
        drive_strength: DriveStrength::Max,
        fast_slew_rate: false,
    }
}

/// The control settings a port starts with: eight bits, no parity, the
/// receive interrupt on, everything else off, idle after 16 characters.
pub open spec fn initial_config() -> UartConfig {
    UartConfig {
        invert_transmission_polarity: false,
        overrun_irq_en: false,
        noise_error_irq_en: false,
        framing_error_irq_en: false,
        parity_error_irq_en: false,
        tx_irq_en: false,
        tx_complete_irq_en: false,
        rx_irq_en: true,
        idle_line_irq_en: false,
        tx_en: false,
        rx_en: false,
        match1_irq_en: false,
        match2_irq_en: false,
        idle_config: IdleConfiguration::Idle16Char,
        doze_en: false,
        bit_mode: BitMode::EightBits,
        parity_en: false,
        parity_type: ParityType::Even,
    }
}

/// The register that routes the sixth port's receive pin.
pub const UART6_RX_SELECT: u32 = 0x401F_8550;

impl Uart {
    /// A port that has not been set up, with empty queues.
    pub fn new(device: Device, tx_pin: usize, rx_pin: usize, irq: Irq) -> (r: Uart)
        ensures
            r.device == device,
            r.tx_pin == tx_pin,
            r.rx_pin == rx_pin,
            r.irq == irq,
            !r.initialized,
            !r.irq_processing,
            r.tx_buffer.items() == Seq::<u8>::empty(),
            r.rx_buffer.items() == Seq::<u8>::empty(),
            r.tx_buffer.well_formed(),
            r.rx_buffer.well_formed(),
            r.buffer_head == 0,
    {
        let r = Uart {
            device: device,
            tx_buffer: Buffer::<256, u8>::new(0u8),
            rx_buffer: Buffer::<256, u8>::new(0u8),
            buffer_head: 0,
            initialized: false,
            irq_processing: false,
            tx_pin: tx_pin,
            rx_pin: rx_pin,
            irq: irq,
        };
        assert(r.tx_buffer.items() =~= Seq::<u8>::empty());
        assert(r.rx_buffer.items() =~= Seq::<u8>::empty());
        r
    }

    /// Preparing the port's pins: both pads muxed to their second
    /// function and set up, then the transmit pin an output and the
    /// receive pin an input, and the transmit pin driven low.
    pub fn setup(&self) -> (steps: Vec<PinSetup>)
        ensures
            steps@ == seq![
                PinSetup::Mux { pin: self.tx_pin, alt: Alt::Alt2 },
                PinSetup::Pad { pin: self.tx_pin, config: tx_pad() },
                PinSetup::Mux { pin: self.rx_pin, alt: Alt::Alt2 },
                PinSetup::Pad { pin: self.rx_pin, config: rx_pad() },
                PinSetup::Direction { pin: self.tx_pin, mode: Mode::Output },
                PinSetup::Direction { pin: self.rx_pin, mode: Mode::Input },
                PinSetup::Level { pin: self.tx_pin, power: Power::Low },
            ],
    {
        let mut steps: Vec<PinSetup> = Vec::new();
        steps.push(PinSetup::Mux { pin: self.tx_pin, alt: Alt::Alt2 });
        steps.push(
            PinSetup::Pad {
                pin: self.tx_pin,
                config: PadConfig {
                    hysterisis: true,
                    resistance: PullUpDown::PullDown100k,
                    pull_keep: PullKeep::Keeper,
                    pull_keep_en: false,
                    open_drain: false,
                    speed: PinSpeed::Max200MHz,
                    drive_strength: DriveStrength::MaxDiv3,
                    fast_slew_rate: true,
                },
            },
        );
        steps.push(PinSetup::Mux { pin: self.rx_pin, alt: Alt::Alt2 });
        steps.push(
            PinSetup::Pad {
                pin: self.rx_pin,
                config: PadConfig {
                    hysterisis: true,
                    resistance: PullUpDown::PullUp22k,
                    pull_keep: PullKeep::Pull,
                    pull_keep_en: true,
                    open_drain: false,
                    speed: PinSpeed::Low50MHz,
                    drive_strength: DriveStrength::Max,
                    fast_slew_rate: false,
                },
            },
        );
        steps.push(PinSetup::Direction { pin: self.tx_pin, mode: Mode::Output });
        steps.push(PinSetup::Direction { pin: self.rx_pin, mode: Mode::Input });
        steps.push(PinSetup::Level { pin: self.tx_pin, power: Power::Low });
        assert(steps@ =~= seq![
            PinSetup::Mux { pin: self.tx_pin, alt: Alt::Alt2 },
            PinSetup::Pad { pin: self.tx_pin, config: tx_pad() },
            PinSetup::Mux { pin: self.rx_pin, alt: Alt::Alt2 },
            PinSetup::Pad { pin: self.rx_pin, config: rx_pad() },
            PinSetup::Direction { pin: self.tx_pin, mode: Mode::Output },
            PinSetup::Direction { pin: self.rx_pin, mode: Mode::Input },
            PinSetup::Level { pin: self.tx_pin, power: Power::Low },
        ]);
        steps
    }

    /// The register writes that set the port up, given its control
    /// register's current value `control`: the receiver and transmitter
    /// turned off, a software reset on and off, the starting control
    /// settings, and the sixth port's receive routing selected.
    pub fn register_setup(&self, control: u32) -> (w: Vec<RegisterWrite>)
        ensures
            w@ == seq![
                RegisterWrite {
                    address: control_addr(self.device),
                    value: control & !(1u32 << 18u32) & !(1u32 << 19u32),
                },
                RegisterWrite { address: uart_base(self.device), value: 2u32 },
                RegisterWrite { address: uart_base(self.device), value: 0u32 },
                RegisterWrite { address: control_addr(self.device), value: control_word(initial_config()) },
                RegisterWrite { address: UART6_RX_SELECT, value: 1u32 },
            ],
    {
        let config = UartConfig {
            invert_transmission_polarity: false,
            overrun_irq_en: false,
            noise_error_irq_en: false,
            framing_error_irq_en: false,
            parity_error_irq_en: false,
            tx_irq_en: false,
            tx_complete_irq_en: false,
            rx_irq_en: true,
            idle_line_irq_en: false,
            tx_en: false,
            rx_en: false,
            match1_irq_en: false,
            match2_irq_en: false,
            idle_config: IdleConfiguration::Idle16Char,
            doze_en: false,
            bit_mode: BitMode::EightBits,
            parity_en: false,
            parity_type: ParityType::Even,
        };
        let mut w: Vec<RegisterWrite> = Vec::new();
        w.push(uart_disable(&self.device, control));
        w.push(uart_sw_reset(&self.device, true));
        w.push(uart_sw_reset(&self.device, false));
        w.push(uart_configure(&self.device, config));
        w.push(RegisterWrite { address: UART6_RX_SELECT, value: 1 });
        assert(w@ =~= seq![
            RegisterWrite {
                address: control_addr(self.device),
                value: control & !(1u32 << 18u32) & !(1u32 << 19u32),
            },
            RegisterWrite { address: uart_base(self.device), value: 2u32 },
            RegisterWrite { address: uart_base(self.device), value: 0u32 },
            RegisterWrite { address: control_addr(self.device), value: control_word(initial_config()) },
            RegisterWrite { address: UART6_RX_SELECT, value: 1u32 },
        ]);
        w
    }

    /// The queues' consistency condition.
    pub open spec fn well_formed(&self) -> bool {
        self.tx_buffer.well_formed() && self.rx_buffer.well_formed()
    }

    /// How many received bytes are waiting to be read.
    pub fn available(&self) -> (n: usize)
        ensures
            n == self.rx_buffer.tail,
    {
        self.rx_buffer.size()
    }

    /// Queues `bytes` for sending; what does not fit in the queue is lost.
    /// Returns whether the port has yet to be set up, which the caller
    /// does before starting the transmitter.
    pub fn write(&mut self, bytes: &[u8]) -> (needs_init: bool)
        requires
            old(self).well_formed(),
        ensures
            final(self).well_formed(),
            needs_init == !old(self).initialized,
            final(self).initialized,
            final(self).tx_buffer.items() == capped(old(self).tx_buffer.items() + bytes@),
            final(self).rx_buffer == old(self).rx_buffer,
            final(self).irq_processing == old(self).irq_processing,
            final(self).device == old(self).device,
    {
        let needs_init = !self.initialized;
        self.initialized = true;
        let mut idx: usize = 0;
        while idx < bytes.len()
            invariant
                self.well_formed(),
                idx <= bytes@.len(),
                self.initialized,
                self.tx_buffer.items() == capped(old(self).tx_buffer.items() + bytes@.take(
                    idx as int,
                )),
                self.rx_buffer == old(self).rx_buffer,
                self.irq_processing == old(self).irq_processing,
                self.device == old(self).device,
            decreases bytes@.len() - idx,
        {
            let ghost before = old(self).tx_buffer.items() + bytes@.take(idx as int);
            self.tx_buffer.enqueue(bytes[idx]);
            proof {
                let after = old(self).tx_buffer.items() + bytes@.take(idx + 1);
                assert(after =~= before.push(bytes@[idx as int]));
                if before.len() < UART_BUFFER_SIZE {
                    assert(capped(after) =~= capped(before).push(bytes@[idx as int]));
                } else {
                    assert(capped(after) =~= capped(before));
                }
            }
            idx = idx + 1;
        }
        assert(bytes@.take(bytes@.len() as int) =~= bytes@);
        needs_init
    }

    /// Takes the oldest received byte.
    pub fn read(&mut self) -> (r: Option<u8>)
        requires
            old(self).well_formed(),
        ensures
            final(self).well_formed(),
            old(self).rx_buffer.items().len() == 0 ==> r is None && *final(self) == *old(self),
            old(self).rx_buffer.items().len() > 0 ==> r == Some(old(self).rx_buffer.items()[0])
                && final(self).rx_buffer.items() == old(self).rx_buffer.items().drop_first(),
            final(self).tx_buffer == old(self).tx_buffer,
            final(self).initialized == old(self).initialized,
            final(self).irq_processing == old(self).irq_processing,
            final(self).device == old(self).device,
            final(self).tx_pin == old(self).tx_pin,
            final(self).rx_pin == old(self).rx_pin,
            final(self).irq == old(self).irq,
            final(self).buffer_head == old(self).buffer_head,
    {
        self.rx_buffer.dequeue()
    }

    /// Receive half of the interrupt: when the status word says data has
    /// arrived, queues `received`, the bytes drained from the receive
    /// FIFO. Returns whether the idle flag is to be cleared.
    pub fn handle_receive_irq(&mut self, statuses: u32, received: &[u8]) -> (clear_idle: bool)
        requires
            old(self).well_formed(),
        ensures
            final(self).well_formed(),
            clear_idle == status_bit(statuses, STATUS_IDLE),
            status_bit(statuses, STATUS_RDRF) ==> final(self).rx_buffer.items() == capped(
                old(self).rx_buffer.items() + received@,
            ),
            !status_bit(statuses, STATUS_RDRF) ==> final(self).rx_buffer == old(self).rx_buffer,
            final(self).tx_buffer == old(self).tx_buffer,
            final(self).initialized == old(self).initialized,
            final(self).irq_processing == old(self).irq_processing,
            final(self).device == old(self).device,
            final(self).tx_pin == old(self).tx_pin,
            final(self).rx_pin == old(self).rx_pin,
            final(self).irq == old(self).irq,
            final(self).buffer_head == old(self).buffer_head,
    {
        if statuses & (0x1u32 << 21u32) > 0 {
            let mut idx: usize = 0;
            while idx < received.len()
                invariant
                    self.well_formed(),
                    idx <= received@.len(),
                    self.rx_buffer.items() == capped(old(self).rx_buffer.items() + received@.take(
                        idx as int,
                    )),
                    self.tx_buffer == old(self).tx_buffer,
                    self.initialized == old(self).initialized,
                    self.irq_processing == old(self).irq_processing,
                    self.device == old(self).device,
                    self.tx_pin == old(self).tx_pin,
                    self.rx_pin == old(self).rx_pin,
                    self.irq == old(self).irq,
                    self.buffer_head == old(self).buffer_head,
                decreases received@.len() - idx,
            {
                let ghost before = old(self).rx_buffer.items() + received@.take(idx as int);
                self.rx_buffer.enqueue(received[idx]);
                proof {
                    let after = old(self).rx_buffer.items() + received@.take(idx + 1);
                    assert(after =~= before.push(received@[idx as int]));
                    if before.len() < UART_BUFFER_SIZE {
                        assert(capped(after) =~= capped(before).push(received@[idx as int]));
                    } else {
                        assert(capped(after) =~= capped(before));
                    }
                }
                idx = idx + 1;
            }
            assert(received@.take(received@.len() as int) =~= received@);
        }
        statuses & (0x1u32 << 20u32) > 0
    }

    /// Send half of the interrupt: when the status word says the
    /// transmitter is empty, hands it the oldest queued byte, or turns it
    /// off when nothing is queued.
    pub fn handle_send_irq(&mut self, statuses: u32) -> (action: SendAction)
        requires
            old(self).well_formed(),
        ensures
            final(self).well_formed(),
            !status_bit(statuses, STATUS_TDRE) ==> action == SendAction::Idle && final(self).tx_buffer == old(self).tx_buffer,
            status_bit(statuses, STATUS_TDRE) && old(self).tx_buffer.items().len() == 0 ==> action
                == SendAction::StopTransmit && final(self).tx_buffer.items() == old(self).tx_buffer.items(),
            status_bit(statuses, STATUS_TDRE) && old(self).tx_buffer.items().len() > 0 ==> action
                == SendAction::Write(old(self).tx_buffer.items()[0]) && final(self).tx_buffer.items() == old(self).tx_buffer.items().drop_first(),
            final(self).rx_buffer == old(self).rx_buffer,
            final(self).initialized == old(self).initialized,
            final(self).irq_processing == old(self).irq_processing,
            final(self).device == old(self).device,
            final(self).tx_pin == old(self).tx_pin,
            final(self).rx_pin == old(self).rx_pin,
            final(self).irq == old(self).irq,
            final(self).buffer_head == old(self).buffer_head,
    {
        if statuses & (0x1u32 << 23u32) > 0 {
            match self.tx_buffer.dequeue() {
                None => SendAction::StopTransmit,
                Some(byte) => SendAction::Write(byte),
            }
        } else {
            SendAction::Idle
        }
    }

    /// The whole interrupt. A port that has not been set up, or is already
    /// handling an interrupt, is left alone (`None`); otherwise the receive
    /// and the send halves run in turn, and their decisions are returned.
    pub fn handle_irq(&mut self, statuses: u32, received: &[u8]) -> (r: Option<(bool, SendAction)>)
        requires
            old(self).well_formed(),
        ensures
            final(self).well_formed(),
            irq_handled(*old(self), *final(self), statuses, received@, r),
    {
        if !self.initialized || self.irq_processing {
            return None;
        }
        self.irq_processing = true;
        let clear_idle = self.handle_receive_irq(statuses, received);
        let action = self.handle_send_irq(statuses);
        self.irq_processing = false;
        Some((clear_idle, action))
    }
}

/// A port's queue never holds more than its capacity, and bytes that fit
/// are all kept, in order, after the ones already queued.
pub proof fn lemma_queue_keeps_what_fits(items: Seq<u8>, bytes: Seq<u8>)
    ensures
        capped(items + bytes).len() <= UART_BUFFER_SIZE,
        items.len() + bytes.len() <= UART_BUFFER_SIZE ==> capped(items + bytes) == items + bytes,
        items.len() <= UART_BUFFER_SIZE ==> capped(items + bytes).take(items.len() as int) == items,
{
    if items.len() <= UART_BUFFER_SIZE && items.len() + bytes.len() > UART_BUFFER_SIZE {
        assert((items + bytes).take(UART_BUFFER_SIZE as int).take(items.len() as int) =~= items);
    }
    if items.len() + bytes.len() <= UART_BUFFER_SIZE {
        assert((items + bytes).take(items.len() as int) =~= items);
    }
}

/// The serial ports of the board, by number.
pub struct SerialPorts {
    pub uarts: Vec<Uart>,
}

/// The hardware a serial port runs on.
pub open spec fn port_device(n: int) -> Device {
    if n == 0 {
        Device::Uart1
    } else if n == 1 {
        Device::Uart2
    } else if n == 2 {
        Device::Uart3
    } else if n == 3 {
        Device::Uart4
    } else if n == 4 {
        Device::Uart5
    } else if n == 5 {
        Device::Uart6
    } else if n == 6 {
        Device::Uart7
    } else {
        Device::Uart8
    }
}

/// The number of a serial port.
pub fn serio_index(device: SerioDevice) -> (r: usize)
    ensures
        r == serio_number(device),
{
    match device {
        SerioDevice::Uart1 => 0,
        SerioDevice::Uart2 => 1,
        SerioDevice::Uart3 => 2,
        SerioDevice::Uart4 => 3,
        SerioDevice::Uart5 => 4,
        SerioDevice::Uart6 => 5,
        SerioDevice::Uart7 => 6,
        SerioDevice::Uart8 => 7,
    }
}

impl SerialPorts {
    /// Every port is there and consistent.
    pub open spec fn well_formed(&self) -> bool {
        &&& self.uarts@.len() == 8
        &&& forall|i: int| 0 <= i < 8 ==> (#[trigger] self.uarts@[i]).well_formed()
    }

    /// The board's eight ports, none set up, each with its pins and
    /// interrupt line (ports 5 and 6 have no valid pins).
    pub fn new() -> (r: Self)
        ensures
            r.well_formed(),
            forall|i: int| 0 <= i < 8 ==> !(#[trigger] r.uarts@[i]).initialized && r.uarts@[i].device
                == port_device(i) && r.uarts@[i].tx_buffer.items().len() == 0
                && r.uarts@[i].rx_buffer.items().len() == 0,
    {
        let mut uarts: Vec<Uart> = Vec::new();
        uarts.push(Uart::new(Device::Uart1, 24, 25, Irq::Uart1));
        uarts.push(Uart::new(Device::Uart2, 14, 15, Irq::Uart2));
        uarts.push(Uart::new(Device::Uart3, 17, 16, Irq::Uart3));
        uarts.push(Uart::new(Device::Uart4, 8, 7, Irq::Uart4));
        uarts.push(Uart::new(Device::Uart5, 1, 0, Irq::Uart5));
        uarts.push(Uart::new(Device::Uart6, 1, 0, Irq::Uart6));
        uarts.push(Uart::new(Device::Uart7, 29, 28, Irq::Uart7));
        uarts.push(Uart::new(Device::Uart8, 20, 21, Irq::Uart8));
        SerialPorts { uarts }
    }

    /// Every port but number `n` is as it was.
    pub open spec fn others_unchanged(&self, old_ports: &SerialPorts, n: int) -> bool {
        forall|i: int| 0 <= i < 8 && i != n ==> #[trigger] self.uarts@[i] == old_ports.uarts@[i]
    }
}

/// Queues `bytes` on port `device`; returns whether the port has yet to
/// be set up.
pub fn serial_write(ports: &mut SerialPorts, device: SerioDevice, bytes: &[u8]) -> (needs_init: bool)
    requires
        old(ports).well_formed(),
    ensures
        final(ports).well_formed(),
        final(ports).others_unchanged(old(ports), serio_number(device) as int),
        ({
            let n = serio_number(device) as int;
            &&& needs_init == !old(ports).uarts@[n].initialized
            &&& final(ports).uarts@[n].initialized
            &&& final(ports).uarts@[n].tx_buffer.items() == capped(old(ports).uarts@[n].tx_buffer.items() + bytes@)
            &&& final(ports).uarts@[n].rx_buffer == old(ports).uarts@[n].rx_buffer
        }),
{
    let n = serio_index(device);
    let mut uart = ports.uarts.remove(n);
    let needs_init = uart.write(bytes);
    ports.uarts.insert(n, uart);
    assert forall|i: int| 0 <= i < 8 && i != n implies #[trigger] ports.uarts@[i] == old(ports).uarts@[i] by {}
    needs_init
}

/// Takes the oldest received byte of port `device`.
pub fn serial_read(ports: &mut SerialPorts, device: SerioDevice) -> (r: Option<u8>)
    requires
        old(ports).well_formed(),
    ensures
        final(ports).well_formed(),
        final(ports).others_unchanged(old(ports), serio_number(device) as int),
        ({
            let n = serio_number(device) as int;
            let items = old(ports).uarts@[n].rx_buffer.items();
            &&& items.len() == 0 ==> r is None && final(ports).uarts@[n] == old(ports).uarts@[n]
            &&& items.len() > 0 ==> r == Some(items[0]) && final(ports).uarts@[n].rx_buffer.items()
                == items.drop_first()
            &&& final(ports).uarts@[n].tx_buffer == old(ports).uarts@[n].tx_buffer
            &&& final(ports).uarts@[n].initialized == old(ports).uarts@[n].initialized
            &&& final(ports).uarts@[n].irq_processing == old(ports).uarts@[n].irq_processing
            &&& final(ports).uarts@[n].device == old(ports).uarts@[n].device
            &&& final(ports).uarts@[n].tx_pin == old(ports).uarts@[n].tx_pin
            &&& final(ports).uarts@[n].rx_pin == old(ports).uarts@[n].rx_pin
            &&& final(ports).uarts@[n].irq == old(ports).uarts@[n].irq
            &&& final(ports).uarts@[n].buffer_head == old(ports).uarts@[n].buffer_head
        }),
{
    let n = serio_index(device);
    let mut uart = ports.uarts.remove(n);
    let r = uart.read();
    ports.uarts.insert(n, uart);
    assert forall|i: int| 0 <= i < 8 && i != n implies #[trigger] ports.uarts@[i] == old(ports).uarts@[i] by {}
    r
}

/// How many received bytes port `device` has waiting.
pub fn serial_available(ports: &SerialPorts, device: SerioDevice) -> (n: usize)
    requires
        ports.well_formed(),
    ensures
        n == ports.uarts@[serio_number(device) as int].rx_buffer.tail,
{
    let i = serio_index(device);
    ports.uarts[i].available()
}

/// Queues `bytes` on the default port.
pub fn serio_write(ports: &mut SerialPorts, bytes: &[u8]) -> (needs_init: bool)
    requires
        old(ports).well_formed(),
    ensures
        final(ports).well_formed(),
        final(ports).others_unchanged(old(ports), 5),
        needs_init == !old(ports).uarts@[5].initialized,
        final(ports).uarts@[5].tx_buffer.items() == capped(old(ports).uarts@[5].tx_buffer.items() + bytes@),
        final(ports).uarts@[5].rx_buffer == old(ports).uarts@[5].rx_buffer,
        final(ports).uarts@[5].initialized,
{
    serial_write(ports, SerioDevice::Uart6, bytes)
}

/// How many received bytes the default port has waiting.
pub fn serio_available(ports: &SerialPorts) -> (n: usize)
    requires
        ports.well_formed(),
    ensures
        n == ports.uarts@[5].rx_buffer.tail,
{
    serial_available(ports, SerioDevice::Uart6)
}

/// Takes the oldest received byte of the default port.
pub fn serio_read(ports: &mut SerialPorts) -> (r: Option<u8>)
    requires
        old(ports).well_formed(),
    ensures
        final(ports).well_formed(),
        final(ports).others_unchanged(old(ports), 5),
        old(ports).uarts@[5].rx_buffer.items().len() == 0 ==> r is None && final(ports).uarts@[5]
            == old(ports).uarts@[5],
        old(ports).uarts@[5].rx_buffer.items().len() > 0 ==> r == Some(old(ports).uarts@[5].rx_buffer.items()[0])
            && final(ports).uarts@[5].rx_buffer.items() == old(ports).uarts@[5].rx_buffer.items().drop_first(),
        final(ports).uarts@[5].tx_buffer == old(ports).uarts@[5].tx_buffer,
        final(ports).uarts@[5].initialized == old(ports).uarts@[5].initialized,
{
    serial_read(ports, SerioDevice::Uart6)
}

/// Marks the default port as set up, and names the hardware the caller
/// sets up for it.
pub fn serio_init(ports: &mut SerialPorts) -> (device: Device)
    requires
        old(ports).well_formed(),
    ensures
        final(ports).well_formed(),
        final(ports).others_unchanged(old(ports), 5),
        device == old(ports).uarts@[5].device,
        final(ports).uarts@[5].initialized,
        final(ports).uarts@[5].tx_buffer == old(ports).uarts@[5].tx_buffer,
        final(ports).uarts@[5].rx_buffer == old(ports).uarts@[5].rx_buffer,
{
    let mut uart = ports.uarts.remove(5);
    uart.initialized = true;
    let device = uart.device;
    ports.uarts.insert(5, uart);
    assert forall|i: int| 0 <= i < 8 && i != 5 implies #[trigger] ports.uarts@[i] == old(ports).uarts@[i] by {}
    device
}

/// The shared interrupt of the first six ports: each handles its own
/// status word and received bytes, in port order, and the decisions come
/// back in the same order.
pub fn serio_handle_irq(ports: &mut SerialPorts, statuses: &[u32], received: &Vec<Vec<u8>>) -> (r: Vec<Option<(bool, SendAction)>>)
    requires
        old(ports).well_formed(),
        statuses@.len() == 6,
        received@.len() == 6,
    ensures
        final(ports).well_formed(),
        r@.len() == 6,
        final(ports).uarts@[6] == old(ports).uarts@[6],
        final(ports).uarts@[7] == old(ports).uarts@[7],
        forall|i: int|
            0 <= i < 6 ==> irq_handled(
                #[trigger] old(ports).uarts@[i],
                final(ports).uarts@[i],
                statuses@[i],
                received@[i]@,
                r@[i],
            ),
{
    let mut results: Vec<Option<(bool, SendAction)>> = Vec::new();
    let mut n: usize = 0;
    while n < 6
        invariant
            old(ports).well_formed(),
            ports.well_formed(),
            statuses@.len() == 6,
            received@.len() == 6,
            n <= 6,
            results@.len() == n,
            forall|i: int| n <= i < 8 ==> #[trigger] ports.uarts@[i] == old(ports).uarts@[i],
                forall|i: int|
                0 <= i < n ==> irq_handled(
                    #[trigger] old(ports).uarts@[i],
                    ports.uarts@[i],
                    statuses@[i],
                    received@[i]@,
                    results@[i],
                ),
        decreases 6 - n,
    {
        let mut uart = ports.uarts.remove(n);
        assert(uart == old(ports).uarts@[n as int]);
        let r = uart.handle_irq(statuses[n], received[n].as_slice());
        ports.uarts.insert(n, uart);
        results.push(r);
        n = n + 1;
        assert forall|i: int| n <= i < 8 implies #[trigger] ports.uarts@[i] == old(ports).uarts@[i] by {}
    }
    results
}

} // verus!
