//! A rainbow that walks each node around the whole colour wheel.
use vstd::prelude::*;
use crate::shaders::shader_core::{ShaderContext, Shader, Draws, wheel, wheel_color};

verus! {

/// Rainbow shader: register 0 is the node's position on the colour wheel.
pub struct BasicShader {}

impl BasicShader {
    /// The rainbow shader.
    pub fn new() -> (r: BasicShader) {
        BasicShader {}
    }
}

/// Where the rainbow goes after position `pos`: one step on, back to 0
/// past 255.
pub open spec fn basic_next(pos: i32) -> i32 {
    if pos + 1 > 255 { 0 } else { (pos + 1) as i32 }
}

impl Shader for BasicShader {
    open spec fn init_ok(&self, context: ShaderContext) -> bool {
        context.can_spread()
    }

    open spec fn update_ok(&self, context: ShaderContext) -> bool {
        context.registers[0] < i32::MAX
    }

    open spec fn randomize_ok(&self, context: ShaderContext, draws: Draws) -> bool {
        true
    }

    fn name(&self) -> (r: &'static str)
        ensures
            r@ == "Basic"@,
    {
        "Basic"
    }

    fn randomize(&self, context: ShaderContext, draws: Draws) -> (r: ShaderContext)
        ensures
            r == context,
    {
        context
    }

    fn init(&mut self, context: ShaderContext, draw: u64) -> (r: ShaderContext)
        ensures
            context.with_registers(r, context.registers@.update(0, context.spread() as i32)),
    {
        context.spread_register()
    }

    fn update(&mut self, context: ShaderContext) -> (r: ShaderContext)
        ensures
            context.stepped(r, basic_next(context.registers[0]), wheel_color(context.registers[0] as u8)),
    {
        let mut next = context;
        let count = context.registers[0] as u8;
        next.color = wheel(count);
        next.registers[0] = next.registers[0] + 1;
        if next.registers[0] > 255 {
            next.registers[0] = 0;
        }
        assert(next.registers@ =~= context.registers@.update(0, basic_next(context.registers[0])));
        next
    }
}

} // verus!
