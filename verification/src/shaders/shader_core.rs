//! What every shader shares: the per-node context, the shader interface,
//! and colour packing.
use vstd::prelude::*;

verus! {

/// The state of one node as a shader sees it.
#[derive(Copy, Clone)]
pub struct ShaderContext {
    pub node_id: usize,
    pub total_nodes: usize,
    pub temperature: i32,
    /// Data from the band equalizer.
    pub audio_bands: [u32; 7],
    pub registers: [i32; 10],
    pub color: u32,
}

/// Three random draws, for the shader operations that randomize.
pub type Draws = (u64, u64, u64);

impl ShaderContext {
    /// A fresh context for node `id` of `total_nodes`: no temperature, no
    /// audio, cleared registers and red.
    pub fn new(id: usize, total_nodes: usize) -> (r: Self)
        ensures
            r.node_id == id,
            r.total_nodes == total_nodes,
            r.temperature == 0,
            r.audio_bands@ == Seq::new(7, |i: int| 0u32),
            r.registers@ == Seq::new(10, |i: int| 0i32),
            r.color == 0xFF0000,
    {
        let r = ShaderContext {
            node_id: id,
            total_nodes: total_nodes,
            temperature: 0,
            audio_bands: [0; 7],
            registers: [0; 10],
            color: 0xFF0000,
        };
        assert(r.audio_bands@ =~= Seq::new(7, |i: int| 0u32));
        assert(r.registers@ =~= Seq::new(10, |i: int| 0i32));
        r
    }

    /// `next` is this context with register 0 set to `reg0` and the colour
    /// set to `color`; everything else is kept.
    pub open spec fn stepped(self, next: ShaderContext, reg0: i32, color: int) -> bool {
        &&& next.registers@ == self.registers@.update(0, reg0)
        &&& next.color == color
        &&& next.node_id == self.node_id
        &&& next.total_nodes == self.total_nodes
        &&& next.temperature == self.temperature
        &&& next.audio_bands == self.audio_bands
    }

    /// `next` is this context with the given registers replaced.
    pub open spec fn with_registers(self, next: ShaderContext, regs: Seq<i32>) -> bool {
        &&& next.registers@ == regs
        &&& next.color == self.color
        &&& next.node_id == self.node_id
        &&& next.total_nodes == self.total_nodes
        &&& next.temperature == self.temperature
        &&& next.audio_bands == self.audio_bands
    }

    /// The register value that spreads node `node_id` over the colour
    /// wheel: `255 / total_nodes` steps per node.
    pub open spec fn spread(self) -> int {
        quotient_255(self.total_nodes as i32) * ((self.node_id as i32) as int)
    }

    /// Spreading can be computed: the node count, as an `i32`, is not zero
    /// and the product fits an `i32`.
    pub open spec fn can_spread(self) -> bool {
        &&& (self.total_nodes as i32) != 0
        &&& i32::MIN <= self.spread() <= i32::MAX
    }

    /// Sets register 0 to the node's spread position.
    pub fn spread_register(self) -> (r: ShaderContext)
        requires
            self.can_spread(),
        ensures
            self.with_registers(r, self.registers@.update(0, self.spread() as i32)),
    {
        let mut next = self;
        let d: i32 = self.total_nodes as i32;
        let n: i32 = self.node_id as i32;
        let q: i32 = trunc_div_255(d);
        next.registers[0] = q * n;
        next
    }
}

/// 255 divided by `d`, rounded toward zero.
pub open spec fn quotient_255(d: i32) -> int {
    if d > 0 {
        255int / (d as int)
    } else {
        -(255int / (-(d as int)))
    }
}

/// Divides 255 by a nonzero `d`, rounding toward zero.
pub fn trunc_div_255(d: i32) -> (q: i32)
    requires
        d != 0,
    ensures
        q == quotient_255(d),
{
    if d > 0 {
        255i32 / d
    } else if d == i32::MIN {
        0
    } else {
        -(255i32 / (-d))
    }
}

/// The operations of a shader: a name, and three ways of moving a node's
/// context on. Operations that randomize take their random draws as
/// arguments.
pub trait Shader {
    /// When `init` can run on `context`.
    spec fn init_ok(&self, context: ShaderContext) -> bool;

    /// When `update` can run on `context`.
    spec fn update_ok(&self, context: ShaderContext) -> bool;

    /// When `randomize` can run on `context` with `draws`.
    spec fn randomize_ok(&self, context: ShaderContext, draws: Draws) -> bool;

    /// The shader's name.
    fn name(&self) -> &'static str;

    /// A randomized variant of `context`.
    fn randomize(&self, context: ShaderContext, draws: Draws) -> ShaderContext
        requires
            self.randomize_ok(context, draws),
    ;

    /// The context a node starts from; `draw` is a random draw.
    fn init(&mut self, context: ShaderContext, draw: u64) -> ShaderContext
        requires
            old(self).init_ok(context),
    ;

    /// The context after one animation step.
    fn update(&mut self, context: ShaderContext) -> ShaderContext
        requires
            old(self).update_ok(context),
    ;
}

/// The colour word of red `r`, green `g`, blue `b` in the LED's
/// green-red-blue byte order.
pub open spec fn grb(r: u8, g: u8, b: u8) -> int {
    (g as u32) * 65536 + (r as u32) * 256 + (b as u32)
}

/// Packs a colour in green-red-blue byte order.
pub fn rgb_to_hex(r: u8, g: u8, b: u8) -> (hex: u32)
    ensures
        hex == grb(r, g, b),
{
    let hex = ((g as u32) << 16) | ((r as u32) << 8) | (b as u32);
    assert(((g as u32) << 16) | ((r as u32) << 8) | (b as u32) == (g as u32) * 65536 + (r as u32)
        * 256 + (b as u32)) by (bit_vector);
    hex
}

/// Splits a colour word into three parts. The red part is shifted out of
/// the word entirely and is always zero; the green part is the middle byte
/// moved up by one byte; the blue part is the low byte.
pub fn hex_to_rgb(rgb: u32) -> (parts: (u32, u32, u32))
    ensures
        parts.0 == 0,
        parts.1 == ((rgb / 256) % 256) * 65536,
        parts.2 == rgb % 256,
{
    let r = (rgb & 0xFF0000) << 16;
    let g = (rgb & 0x00FF00) << 8;
    let b = rgb & 0x0000FF;
    assert((rgb & 0xFF0000) << 16 == 0) by (bit_vector);
    assert((rgb & 0x00FF00) << 8 == ((rgb / 256) % 256) * 65536) by (bit_vector);
    assert(rgb & 0x0000FF == rgb % 256) by (bit_vector);
    (r, g, b)
}

/// The colour at position `pos` of a red → blue → green → red wheel.
pub open spec fn wheel_color(pos: u8) -> int {
    if pos < 85 {
        grb((255 - pos * 3) as u8, 0, (pos * 3) as u8)
    } else if pos < 170 {
        grb(0, ((pos - 85) * 3) as u8, (255 - (pos - 85) * 3) as u8)
    } else {
        grb(((pos - 170) * 3) as u8, (255 - (pos - 170) * 3) as u8, 0)
    }
}

/// The colour at position `wheel_pos` of the colour wheel.
pub fn wheel(wheel_pos: u8) -> (c: u32)
    ensures
        c == wheel_color(wheel_pos),
{
    let mut pos = wheel_pos;
    if pos < 85 {
        rgb_to_hex(255 - pos * 3, 0, pos * 3)
    } else if pos < 170 {
        pos = pos - 85;
        rgb_to_hex(0, pos * 3, 255 - pos * 3)
    } else {
        pos = pos - 170;
        rgb_to_hex(pos * 3, 255 - pos * 3, 0)
    }
}

/// The larger of two bytes, `right` on a tie.
pub fn max_u8(left: u8, right: u8) -> (r: u8)
    ensures
        r == if left > right { left } else { right },
{
    if left > right { left } else { right }
}

/// The smaller of two integers, `left` on a tie.
pub fn min_i32(left: i32, right: i32) -> (r: i32)
    ensures
        r == if left > right { right } else { left },
{
    if left > right { right } else { left }
}

/// The larger of two integers, `right` on a tie.
pub fn max_i32(left: i32, right: i32) -> (r: i32)
    ensures
        r == if left > right { left } else { right },
{
    if left > right { left } else { right }
}

/// Register 0 after a step of a shader that restarts its walk: one step on
/// while the walk is in range, else restarted at 0 and stepped to 1.
pub open spec fn walk_next(r0: i32, in_range: bool) -> i32 {
    if in_range { (r0 + 1) as i32 } else { 1 }
}

/// A random starting point on the first two thirds of the wheel.
pub open spec fn random_start(draw: u64) -> i32 {
    (draw % 170) as i32
}

/// Unpacking a packed colour does not give the parts back: the first part
/// is always zero, red comes out shifted into the middle of the second,
/// and blue comes out as the third.
pub proof fn lemma_unpack_packed(r: u8, g: u8, b: u8)
    ensures
        (grb(r, g, b) / 256) % 256 * 65536 == r * 65536,
        grb(r, g, b) % 256 == b,
        0 <= grb(r, g, b) < 0x100_0000,
{
}

/// Every wheel colour is a 24-bit word, and the wheel starts at red, is
/// blue a third of the way round and green two thirds of the way round.
pub proof fn lemma_wheel_colors(pos: u8)
    ensures
        0 <= wheel_color(pos) < 0x100_0000,
        wheel_color(0) == grb(255, 0, 0),
        wheel_color(85) == grb(0, 0, 255),
        wheel_color(170) == grb(0, 255, 0),
{
}

} // verus!
