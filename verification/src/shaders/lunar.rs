//! A dark red, red and yellow walk for the Lunar New Year.
use vstd::prelude::*;
use crate::shaders::shader_core::{ShaderContext, Shader, Draws, grb, rgb_to_hex, walk_next, random_start, max_u8};

verus! {

/// Dark red → red → yellow → dark red shader: register 0 is the node's position.
pub struct LunarShader {}

impl LunarShader {
    /// The Lunar New Year shader.
    pub fn new() -> (r: LunarShader) {
        LunarShader {}
    }
}

/// The colour at position `pos` of the dark red → red → yellow → dark red walk.
pub open spec fn lunar_color(pos: u16) -> int {
    if pos < 56 {
        grb((199 + pos) as u8, 7, 2)
    } else if pos < 133 {
        grb(255, (7 + (pos - 56)) as u8, 2)
    } else if pos < 210 {
        let up = (255 - (pos - 133)) as u8;
        let green = (84 - (pos - 133)) as u8;
        grb(if up > 199 { up } else { 199 }, if green > 7 { green } else { 7 }, 2)
    } else {
        grb(199, 7, 2)
    }
}

impl Shader for LunarShader {
    open spec fn init_ok(&self, context: ShaderContext) -> bool {
        context.can_spread()
    }

    open spec fn update_ok(&self, context: ShaderContext) -> bool {
        true
    }

    open spec fn randomize_ok(&self, context: ShaderContext, draws: Draws) -> bool {
        true
    }

    fn name(&self) -> (r: &'static str)
        ensures
            r@ == "Lunar New Year"@,
    {
        "Lunar New Year"
    }

    fn randomize(&self, context: ShaderContext, draws: Draws) -> (r: ShaderContext)
        ensures
            context.with_registers(r, context.registers@.update(0, random_start(draws.0))),
    {
        let mut next = context;
        next.registers[0] = (draws.0 % 170) as i32;
        assert(next.registers@ =~= context.registers@.update(0, random_start(draws.0)));
        next
    }

    fn init(&mut self, context: ShaderContext, draw: u64) -> (r: ShaderContext)
        ensures
            context.with_registers(r, context.registers@.update(0, context.spread() as i32)),
    {
        context.spread_register()
    }

    fn update(&mut self, context: ShaderContext) -> (r: ShaderContext)
        ensures
            context.stepped(
                r,
                walk_next(context.registers[0], (context.registers[0] as u16) < 210),
                lunar_color(context.registers[0] as u16),
            ),
    {
        let mut next = context;
        let r0 = context.registers[0];
        let pos = r0 as u16;
        if pos < 56 {
            next.color = rgb_to_hex(199 + pos as u8, 7, 2);
        } else if pos < 133 {
            next.color = rgb_to_hex(255, 7 + (pos - 56) as u8, 2);
        } else if pos < 210 {
            next.color = rgb_to_hex(
                max_u8(255 - (pos - 133) as u8, 199),
                max_u8(84 - (pos - 133) as u8, 7),
                2,
            );
        } else {
            next.registers[0] = 0;
            next.color = rgb_to_hex(199, 7, 2);
        }
        assert((r0 as u16) < 210 ==> r0 < 0x7fff_ffff) by (bit_vector);
        next.registers[0] = next.registers[0] + 1;
        assert(next.registers@ =~= context.registers@.update(
            0,
            walk_next(context.registers[0], (context.registers[0] as u16) < 210),
        ));
        next
    }
}

} // verus!
