//! A rainbow that bounces back and forth inside a slice of the colour
//! wheel.
use vstd::prelude::*;
use crate::shaders::shader_core::{
    ShaderContext, Shader, Draws, wheel, wheel_color, min_i32, max_i32,
};

verus! {

/// Bouncing rainbow shader: register 0 is the position, registers 1 and 2
/// the lower and upper limits, register 3 the direction (positive for up).
pub struct ConstrainedRainbowShader {}

impl ConstrainedRainbowShader {
    /// The bouncing rainbow shader.
    pub fn new() -> (r: ConstrainedRainbowShader) {
        ConstrainedRainbowShader {}
    }
}

/// The position after `pos` (register 0 taken as a byte) in direction
/// `dir`.
pub open spec fn bounce_pos(r0: i32, dir: i32) -> i32 {
    if dir > 0 { ((r0 as u8) + 1) as i32 } else { ((r0 as u8) - 1) as i32 }
}

/// The direction after moving to `next_pos` between `low` and `high`.
pub open spec fn bounce_dir(next_pos: i32, low: i32, high: i32, dir: i32) -> i32 {
    if next_pos >= high { 0 } else if next_pos <= low { 1 } else { dir }
}

/// The registers of a randomized bounce: the limits from the first two
/// draws (each taken mod 254), the position from the third.
pub open spec fn bounce_limits(regs: Seq<i32>, draws: Draws) -> Seq<i32> {
    let a = (draws.0 % 254) as i32;
    let b = (draws.1 % 254) as i32;
    let low = if a > b { b } else { a };
    let high = if b > a { b } else { a };
    regs.update(1, low).update(2, high).update(3, 1).update(
        0,
        (low + draws.2 % ((high - low) as u64)) as i32,
    )
}

impl Shader for ConstrainedRainbowShader {
    open spec fn init_ok(&self, context: ShaderContext) -> bool {
        true
    }

    open spec fn update_ok(&self, context: ShaderContext) -> bool {
        true
    }

    /// The two limits must differ.
    open spec fn randomize_ok(&self, context: ShaderContext, draws: Draws) -> bool {
        draws.0 % 254 != draws.1 % 254
    }

    fn name(&self) -> (r: &'static str)
        ensures
            r@ == "Constrained Rainbow"@,
    {
        "Constrained Rainbow"
    }

    fn randomize(&self, context: ShaderContext, draws: Draws) -> (r: ShaderContext)
        ensures
            context.with_registers(r, bounce_limits(context.registers@, draws)),
    {
        let mut next = context;
        let start = (draws.0 % 254) as i32;
        let end = (draws.1 % 254) as i32;
        next.registers[1] = min_i32(start, end);
        next.registers[2] = max_i32(end, start);
        next.registers[3] = 1;
        let span = next.registers[2] as u64 - next.registers[1] as u64;
        next.registers[0] = next.registers[1] + (draws.2 % span) as i32;
        assert(next.registers@ =~= bounce_limits(context.registers@, draws));
        next
    }

    /// Bounces between 0 and 78, from a start that `draw` picks.
    fn init(&mut self, context: ShaderContext, draw: u64) -> (r: ShaderContext)
        ensures
            context.with_registers(
                r,
                context.registers@.update(1, 0).update(2, 78).update(3, 1).update(
                    0,
                    (draw % 78) as i32,
                ),
            ),
    {
        let mut next = context;
        let start = 0u64;
        let end = 78u64;
        next.registers[1] = start as i32;
        next.registers[2] = end as i32;
        next.registers[3] = 1;
        next.registers[0] = (start + draw % (end - start)) as i32;
        assert(next.registers@ =~= context.registers@.update(1, 0).update(2, 78).update(3, 1).update(
            0,
            (draw % 78) as i32,
        ));
        next
    }

    fn update(&mut self, context: ShaderContext) -> (r: ShaderContext)
        ensures
            ({
                let r0 = context.registers[0];
                let next_pos = bounce_pos(r0, context.registers[3]);
                &&& r.registers@ == context.registers@.update(
                    3,
                    bounce_dir(
                        next_pos,
                        context.registers[1],
                        context.registers[2],
                        context.registers[3],
                    ),
                ).update(0, next_pos)
                &&& r.color == wheel_color(r0 as u8)
                &&& r.node_id == context.node_id
                &&& r.total_nodes == context.total_nodes
                &&& r.temperature == context.temperature
                &&& r.audio_bands == context.audio_bands
            }),
    {
        let mut next = context;
        let pos = context.registers[0] as u8;
        let next_pos: i32;
        if context.registers[3] > 0 {
            next_pos = pos as i32 + 1;
        } else {
            next_pos = pos as i32 - 1;
        }
        if next_pos >= context.registers[2] {
            next.registers[3] = 0;
        } else if next_pos <= context.registers[1] {
            next.registers[3] = 1;
        }
        next.color = wheel(pos);
        next.registers[0] = next_pos;
        assert(next.registers@ =~= context.registers@.update(
            3,
            bounce_dir(next_pos, context.registers[1], context.registers[2], context.registers[3]),
        ).update(0, next_pos));
        next
    }
}

} // verus!
