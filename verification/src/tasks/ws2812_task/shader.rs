//! The strip task's own shaders, which keep a frame counter of their own
//! and see the time the context was made.
use vstd::prelude::*;
use crate::shaders::shader_core::{grb, rgb_to_hex, wheel, wheel_color};

verus! {

/// The state of one LED as the strip task's shaders see it.
#[derive(Copy, Clone)]
pub struct ShaderContext {
    pub node_id: usize,
    pub total_nodes: usize,
    /// The uptime, in nanoseconds, when the context was made.
    pub current_time: u64,
    pub temperature: i32,
    pub registers: [i32; 10],
    pub color: u32,
}

impl ShaderContext {
    /// A fresh context for LED `id` of `total_nodes`, made at uptime
    /// `current_time`: cleared registers and red.
    pub fn new(id: usize, total_nodes: usize, current_time: u64) -> (r: Self)
        ensures
            r.node_id == id,
            r.total_nodes == total_nodes,
            r.current_time == current_time,
            r.temperature == 0,
            r.registers@ == Seq::new(10, |i: int| 0i32),
            r.color == 0xFF0000,
    {
        let r = ShaderContext {
            node_id: id,
            total_nodes: total_nodes,
            current_time: current_time,
            temperature: 0,
            registers: [0; 10],
            color: 0xFF0000,
        };
        assert(r.registers@ =~= Seq::new(10, |i: int| 0i32));
        r
    }

    /// `next` is this context with the colour `color` and the registers
    /// `regs`; everything else is kept.
    pub open spec fn becomes(self, next: ShaderContext, regs: Seq<i32>, color: int) -> bool {
        &&& next.registers@ == regs
        &&& next.color == color
        &&& next.node_id == self.node_id
        &&& next.total_nodes == self.total_nodes
        &&& next.current_time == self.current_time
        &&& next.temperature == self.temperature
    }
}

/// The operations of the strip task's shaders.
pub trait Shader {
    /// When `update` can run on `context`.
    spec fn update_ok(&self, context: ShaderContext) -> bool;

    /// The context an LED starts from; `draw` is a random draw.
    fn init(&mut self, context: ShaderContext, draw: u64) -> ShaderContext;

    /// The context after one frame.
    fn update(&mut self, context: ShaderContext) -> ShaderContext
        requires
            old(self).update_ok(context),
    ;
}

/// Rainbow shader: every LED shows the wheel colour of the frame counter,
/// shifted by its share of the strip.
pub struct BasicShader {
    pub count: u8,
}

impl BasicShader {
    /// The rainbow shader at frame zero.
    pub fn new() -> (r: BasicShader)
        ensures
            r.count == 0,
    {
        BasicShader { count: 0 }
    }
}

/// The wheel position of LED `node_id` of `total` at frame `count`.
pub open spec fn basic_position(count: u8, node_id: usize, total: usize) -> int {
    count + ((node_id / total) as u8)
}

impl Shader for BasicShader {
    /// The strip has LEDs, and neither the position nor the frame counter
    /// runs past a byte.
    open spec fn update_ok(&self, context: ShaderContext) -> bool {
        &&& context.total_nodes > 0
        &&& basic_position(self.count, context.node_id, context.total_nodes) <= u8::MAX
        &&& self.count < u8::MAX
    }

    fn init(&mut self, context: ShaderContext, draw: u64) -> (r: ShaderContext)
        ensures
            r == context,
            final(self).count == old(self).count,
    {
        context
    }

    fn update(&mut self, context: ShaderContext) -> (r: ShaderContext)
        ensures
            context.becomes(
                r,
                context.registers@,
                wheel_color(
                    basic_position(old(self).count, context.node_id, context.total_nodes) as u8,
                ),
            ),
            final(self).count == old(self).count + 1,
    {
        let mut next = context;
        next.color = wheel(self.count + (context.node_id / context.total_nodes) as u8);
        self.count = self.count + 1;
        next
    }
}

/// Red and green shader: register 0 is the LED's position.
pub struct XmasShader {
    pub count: u8,
}

impl XmasShader {
    /// The red and green shader at frame zero.
    pub fn new() -> (r: XmasShader)
        ensures
            r.count == 0,
    {
        XmasShader { count: 0 }
    }
}

/// The colour at position `pos` of the red → green → red walk.
pub open spec fn xmas_color(pos: u8) -> int {
    if pos < 85 {
        grb((255 - pos * 3) as u8, (pos * 3) as u8, 0)
    } else if pos < 170 {
        grb(((pos - 85) * 3) as u8, (255 - (pos - 85) * 3) as u8, 0)
    } else {
        grb(252, 3, 0)
    }
}

impl Shader for XmasShader {
    open spec fn update_ok(&self, context: ShaderContext) -> bool {
        context.registers[0] < i32::MAX
    }

    /// Starts the LED at a random point, `draw` mod 170.
    fn init(&mut self, context: ShaderContext, draw: u64) -> (r: ShaderContext)
        ensures
            context.becomes(r, context.registers@.update(0, (draw % 170) as i32), context.color as int),
            final(self).count == old(self).count,
    {
        let mut next = context;
        next.registers[0] = (draw % 170) as i32;
        assert(next.registers@ =~= context.registers@.update(0, (draw % 170) as i32));
        next
    }

    /// Moves one step along the walk; past the walk the counter is reset
    /// and the register keeps counting.
    fn update(&mut self, context: ShaderContext) -> (r: ShaderContext)
        ensures
            context.becomes(
                r,
                context.registers@.update(0, (context.registers[0] + 1) as i32),
                xmas_color(context.registers[0] as u8),
            ),
            (context.registers[0] as u8) >= 170 ==> final(self).count == 0,
            (context.registers[0] as u8) < 170 ==> final(self).count == old(self).count,
    {
        let mut next = context;
        let pos = context.registers[0] as u8;
        if pos < 85 {
            next.color = rgb_to_hex(255 - pos * 3, pos * 3, 0);
        } else if pos < 170 {
            next.color = rgb_to_hex((pos - 85) * 3, 255 - (pos - 85) * 3, 0);
        } else {
            self.count = 0;
            next.color = rgb_to_hex(252, 3, 0);
        }
        next.registers[0] = next.registers[0] + 1;
        assert(next.registers@ =~= context.registers@.update(0, (context.registers[0] + 1) as i32));
        next
    }
}

} // verus!
