//! An orange, red and black walk for Halloween.
use vstd::prelude::*;
use crate::shaders::shader_core::{ShaderContext, Shader, Draws, grb, rgb_to_hex, walk_next, random_start};

verus! {

/// Black → orange → red → black shader: register 0 is the node's position.
pub struct HalloweenShader {}

impl HalloweenShader {
    /// The Halloween shader.
    pub fn new() -> (r: HalloweenShader) {
        HalloweenShader {}
    }
}

/// The colour at position `pos` of the black → orange → red → black walk.
pub open spec fn halloween_color(pos: u32) -> int {
    if pos < 85 {
        grb((pos * 3) as u8, ((pos * 15) / 20) as u8, 0)
    } else if pos < 170 {
        grb(255, (64 - ((pos - 85) * 15) / 20) as u8, 0)
    } else if pos < 255 {
        grb((255 - (pos - 170) * 3) as u8, 1, 0)
    } else {
        grb(0, 0, 0)
    }
}

impl Shader for HalloweenShader {
    open spec fn init_ok(&self, context: ShaderContext) -> bool {
        context.can_spread()
    }

    open spec fn update_ok(&self, context: ShaderContext) -> bool {
        true
    }

    open spec fn randomize_ok(&self, context: ShaderContext, draws: Draws) -> bool {
        true
    }

    fn name(&self) -> (r: &'static str)
        ensures
            r@ == "Halloween"@,
    {
        "Halloween"
    }

    fn randomize(&self, context: ShaderContext, draws: Draws) -> (r: ShaderContext)
        ensures
            context.with_registers(r, context.registers@.update(0, random_start(draws.0))),
    {
        let mut next = context;
        next.registers[0] = (draws.0 % 170) as i32;
        assert(next.registers@ =~= context.registers@.update(0, random_start(draws.0)));
        next
    }

    fn init(&mut self, context: ShaderContext, draw: u64) -> (r: ShaderContext)
        ensures
            context.with_registers(r, context.registers@.update(0, context.spread() as i32)),
    {
        context.spread_register()
    }

    fn update(&mut self, context: ShaderContext) -> (r: ShaderContext)
        ensures
            context.stepped(
                r,
                walk_next(context.registers[0], (context.registers[0] as u32) < 255),
                halloween_color(context.registers[0] as u32),
            ),
    {
        let mut next = context;
        let r0 = context.registers[0];
        let pos = r0 as u32;
        if pos < 85 {
            next.color = rgb_to_hex((pos * 3) as u8, ((pos * 15) / 20) as u8, 0);
        } else if pos < 170 {
            next.color = rgb_to_hex(255, 64 - (((pos - 85) * 15) / 20) as u8, 0);
        } else if pos < 255 {
            next.color = rgb_to_hex(255 - ((pos - 170) * 3) as u8, 1, 0);
        } else {
            next.registers[0] = 0;
            next.color = rgb_to_hex(0, 0, 0);
        }
        assert((r0 as u32) < 255 ==> r0 < 0x7fff_ffff) by (bit_vector);
        next.registers[0] = next.registers[0] + 1;
        assert(next.registers@ =~= context.registers@.update(
            0,
            walk_next(context.registers[0], (context.registers[0] as u32) < 255),
        ));
        next
    }
}

} // verus!
