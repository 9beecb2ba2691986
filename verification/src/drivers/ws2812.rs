//! The first LED strip driver: it keeps a colour for each LED and, when
//! flushed, spells every colour out bit by bit, green then red then blue,
//! most significant bit first. Driving the data pin with the bit timings
//! below is the caller's.
use vstd::prelude::*;
use crate::phys::pins::{DriveStrength, Mode, PadConfig, PinSetup, PinSpeed, Power, PullKeep, PullUpDown};

verus! {

/// How long the line is high for a zero bit, in nanoseconds.
pub const T0_H: u64 = 110;
/// How long the line is low for a zero bit, in nanoseconds.
pub const T0_L: u64 = 600;
/// How long the line is high for a one bit, in nanoseconds.
pub const T1_H: u64 = 600;
/// How long the line is low for a one bit, in nanoseconds.
pub const T1_L: u64 = 600;

/// One LED's colour.
#[derive(Copy, Clone, PartialEq, Eq, Structural, Debug)]
pub struct Node {
    pub green: u8,
    pub red: u8,
    pub blue: u8,
}

impl Node {
    /// The LED colour with parts `red`, `green` and `blue`.
    pub fn new(red: u8, green: u8, blue: u8) -> (r: Node)
        ensures
            r == (Node { green: green, red: red, blue: blue }),
    {
        Node { red: red, green: green, blue: blue }
    }
}

/// The word sent for an LED: green, red and blue bytes, from the top.
pub open spec fn node_word(n: Node) -> u32 {
    ((n.green as u32) << 16u32) | ((n.red as u32) << 8u32) | (n.blue as u32)
}

/// Bit `k` of an LED's frame: bit `23 - k` of its word.
pub open spec fn node_bit(n: Node, k: int) -> bool {
    node_word(n) & (1u32 << ((23 - k) as u32)) > 0
}

/// The 24 bits sent for an LED.
pub open spec fn node_bits(n: Node) -> Seq<bool> {
    Seq::new(24, |k: int| node_bit(n, k))
}

/// The bits sent for all the LEDs, in order.
pub open spec fn frame_bits(nodes: Seq<Node>) -> Seq<bool>
    decreases nodes.len(),
{
    if nodes.len() == 0 {
        Seq::empty()
    } else {
        frame_bits(nodes.drop_last()) + node_bits(nodes.last())
    }
}

/// The colour an LED takes from the word `0xRRGGBB`.
pub open spec fn node_of_word(rgb: u32) -> Node {
    Node {
        red: ((rgb & 0xFF0000u32) >> 16u32) as u8,
        green: ((rgb & 0x00FF00u32) >> 8u32) as u8,
        blue: (rgb & 0x0000FFu32) as u8,
    }
}

/// The pad settings of the strip's data pin.
pub open spec fn strip_pad() -> PadConfig {
    PadConfig {
        hysterisis: false,
        resistance: PullUpDown::PullDown100k,
        pull_keep: PullKeep::Pull,
        pull_keep_en: false,
        open_drain: false,
        speed: PinSpeed::Max200MHz,
        drive_strength: DriveStrength::MaxDiv3,
        fast_slew_rate: true,
    }
}

/// A strip of `SIZE` LEDs on a data pin.
pub struct WS2812Driver<const SIZE: usize> {
    pub nodes: [Node; SIZE],
    pub pin: usize,
    pub iteration: usize,
}

impl<const SIZE: usize> WS2812Driver<SIZE> {
    /// A dark strip on `pin`.
    pub fn new(pin: usize) -> (r: Self)
        ensures
            r.pin == pin,
            r.iteration == 0,
            r.nodes@ == Seq::new(SIZE as nat, |i: int| Node { green: 0, red: 0, blue: 0 }),
    {
        let r = WS2812Driver { nodes: [Node::new(0, 0, 0); SIZE], pin: pin, iteration: 0 };
        assert(r.nodes@ =~= Seq::new(SIZE as nat, |i: int| Node { green: 0, red: 0, blue: 0 }));
        r
    }

    /// Preparing the data pin: an output, with the strip's pad settings,
    /// driven low.
    pub fn init(&self) -> (steps: Vec<PinSetup>)
        ensures
            steps@ == seq![
                PinSetup::Direction { pin: self.pin, mode: Mode::Output },
                PinSetup::Pad { pin: self.pin, config: strip_pad() },
                PinSetup::Level { pin: self.pin, power: Power::Low },
            ],
    {
        let mut steps: Vec<PinSetup> = Vec::new();
        steps.push(PinSetup::Direction { pin: self.pin, mode: Mode::Output });
        steps.push(
            PinSetup::Pad {
                pin: self.pin,
                config: PadConfig {
                    hysterisis: false,
                    resistance: PullUpDown::PullDown100k,
                    pull_keep: PullKeep::Pull,
                    pull_keep_en: false,
                    open_drain: false,
                    speed: PinSpeed::Max200MHz,
                    drive_strength: DriveStrength::MaxDiv3,
                    fast_slew_rate: true,
                },
            },
        );
        steps.push(PinSetup::Level { pin: self.pin, power: Power::Low });
        assert(steps@ =~= seq![
            PinSetup::Direction { pin: self.pin, mode: Mode::Output },
            PinSetup::Pad { pin: self.pin, config: strip_pad() },
            PinSetup::Level { pin: self.pin, power: Power::Low },
        ]);
        steps
    }

    /// Sets LED `index` to the colour `0xRRGGBB`; an index past the strip
    /// is ignored.
    pub fn set_color(&mut self, index: usize, rgb: u32)
        ensures
            index >= SIZE ==> final(self).nodes@ == old(self).nodes@,
            index < SIZE ==> final(self).nodes@ == old(self).nodes@.update(index as int, node_of_word(rgb)),
            final(self).pin == old(self).pin,
            final(self).iteration == old(self).iteration,
    {
        if index >= SIZE {
            return;
        }
        self.nodes[index] = Node {
            red: ((rgb & 0xFF0000u32) >> 16u32) as u8,
            green: ((rgb & 0x00FF00u32) >> 8u32) as u8,
            blue: (rgb & 0x0000FFu32) as u8,
        };
    }

    /// Counts one more frame.
    pub fn iterate(&mut self)
        requires
            old(self).iteration < usize::MAX,
        ensures
            final(self).iteration == old(self).iteration + 1,
            final(self).nodes@ == old(self).nodes@,
            final(self).pin == old(self).pin,
    {
        self.iteration = self.iteration + 1;
    }

    /// The bits to send for the whole strip, LED by LED; a rest follows
    /// them.
    pub fn flush(&self) -> (bits: Vec<bool>)
        ensures
            bits@ == frame_bits(self.nodes@),
    {
        let mut bits: Vec<bool> = Vec::new();
        let mut node_index: usize = 0;
        while node_index < SIZE
            invariant
                node_index <= SIZE,
                self.nodes@.len() == SIZE,
                bits@ == frame_bits(self.nodes@.take(node_index as int)),
            decreases SIZE - node_index,
        {
            let node = self.nodes[node_index];
            let color: u32 = ((node.green as u32) << 16u32) | ((node.red as u32) << 8u32) | (node.blue as u32);
            let ghost before = bits@;
            let mut k: usize = 0;
            while k < 24
                invariant
                    k <= 24,
                    color == node_word(node),
                    bits@ == before + node_bits(node).take(k as int),
                decreases 24 - k,
            {
                let shift: u32 = (23 - k) as u32;
                let bit = color & (1u32 << shift);
                bits.push(bit > 0);
                k = k + 1;
                assert(bits@ =~= before + node_bits(node).take(k as int));
            }
            assert(node_bits(node).take(24) =~= node_bits(node));
            assert(self.nodes@.take(node_index + 1).drop_last() =~= self.nodes@.take(node_index as int));
            node_index = node_index + 1;
        }
        assert(self.nodes@.take(SIZE as int) =~= self.nodes@);
        bits
    }
}

/// A frame has 24 bits for each LED, and the bits of LED `i` are its
/// word's, from the top, at positions `24 * i` on.
pub proof fn lemma_frame_layout(nodes: Seq<Node>, i: int, k: int)
    requires
        0 <= i < nodes.len(),
        0 <= k < 24,
    ensures
        frame_bits(nodes).len() == 24 * nodes.len(),
        frame_bits(nodes)[24 * i + k] == node_bit(nodes[i], k),
    decreases nodes.len(),
{
    lemma_frame_len(nodes);
    if i < nodes.len() - 1 {
        lemma_frame_layout(nodes.drop_last(), i, k);
        lemma_frame_len(nodes.drop_last());
    }
}

/// A frame has 24 bits for each LED.
proof fn lemma_frame_len(nodes: Seq<Node>)
    ensures
        frame_bits(nodes).len() == 24 * nodes.len(),
    decreases nodes.len(),
{
    if nodes.len() > 0 {
        lemma_frame_len(nodes.drop_last());
    }
}

} // verus!
