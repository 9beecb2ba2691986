//! A ripple from the middle of the strip outwards, either through the whole
//! rainbow or between green and red.
use vstd::prelude::*;
use crate::shaders::shader_core::{
    ShaderContext, Shader, Draws, grb, rgb_to_hex, wheel, wheel_color, walk_next, random_start,
    quotient_255, trunc_div_255,
};

verus! {

/// Ripple shader: register 0 is the node's position, register 1 the mode
/// (1 for green and red, anything else for the rainbow).
pub struct LoadingShader {}

impl LoadingShader {
    /// The ripple shader.
    pub fn new() -> (r: LoadingShader) {
        LoadingShader {}
    }
}

/// How far node `node_id` of `total` sits from the middle of the strip,
/// counting round the end: the pattern 0 1 2 3 4 5 6 7 8 9 becomes
/// 5 4 3 2 1 0 1 2 3 4.
pub open spec fn ripple_distance(node_id: usize, total: usize) -> int {
    let origin = total / 2;
    let adj = (node_id + origin) % (total as int);
    if adj > origin { total - adj } else { adj }
}

/// The starting register of a node: its distance from the middle times
/// `255 / (total / 2)`.
pub open spec fn ripple_start(context: ShaderContext) -> int {
    quotient_255((context.total_nodes / 2) as i32)
        * ((ripple_distance(context.node_id, context.total_nodes) as i32) as int)
}

/// Whether the walk of mode `mode` is still in range at position `pos`.
pub open spec fn loading_in_range(mode: i32, pos: u32) -> bool {
    if mode == 1 { pos < 170 } else { pos < 254 }
}

/// The colour at position `pos` in mode `mode`.
pub open spec fn loading_color(mode: i32, pos: u32) -> int {
    if mode == 1 {
        if pos < 85 {
            grb((pos * 3) as u8, (255 - ((pos * 3) as u8)) as u8, 0)
        } else if pos < 170 {
            grb((255 - ((pos * 3) as u8)) as u8, (pos * 3) as u8, 0)
        } else {
            grb(0, 255, 0)
        }
    } else {
        if pos >= 254 {
            wheel_color(0)
        } else {
            wheel_color((pos * 2) as u8)
        }
    }
}

impl Shader for LoadingShader {
    open spec fn init_ok(&self, context: ShaderContext) -> bool {
        &&& context.total_nodes > 0
        &&& context.node_id + context.total_nodes / 2 <= usize::MAX
        &&& ((context.total_nodes / 2) as i32) != 0
        &&& i32::MIN <= ripple_start(context) <= i32::MAX
    }

    open spec fn update_ok(&self, context: ShaderContext) -> bool {
        true
    }

    open spec fn randomize_ok(&self, context: ShaderContext, draws: Draws) -> bool {
        true
    }

    fn name(&self) -> (r: &'static str)
        ensures
            r@ == "Loading"@,
    {
        "Loading"
    }

    fn randomize(&self, context: ShaderContext, draws: Draws) -> (r: ShaderContext)
        ensures
            context.with_registers(r, context.registers@.update(0, random_start(draws.0))),
    {
        let mut next = context;
        next.registers[0] = (draws.0 % 170) as i32;
        assert(next.registers@ =~= context.registers@.update(0, random_start(draws.0)));
        next
    }

    /// Starts the node at its distance from the middle, in the mode that
    /// `draw` picks.
    fn init(&mut self, context: ShaderContext, draw: u64) -> (r: ShaderContext)
        ensures
            context.with_registers(
                r,
                context.registers@.update(0, ripple_start(context) as i32).update(
                    1,
                    (draw % 2) as i32,
                ),
            ),
    {
        let mut next = context;
        let total = context.total_nodes;
        let origin = total / 2;
        let adj_pos = (context.node_id + origin) % total;
        let pos: usize;
        if adj_pos > origin {
            pos = total - adj_pos;
        } else {
            pos = adj_pos;
        }
        let q = trunc_div_255(origin as i32);
        next.registers[0] = q * pos as i32;
        next.registers[1] = (draw % 2) as i32;
        assert(next.registers@ =~= context.registers@.update(0, ripple_start(context) as i32).update(
            1,
            (draw % 2) as i32,
        ));
        next
    }

    fn update(&mut self, context: ShaderContext) -> (r: ShaderContext)
        ensures
            context.stepped(
                r,
                walk_next(
                    context.registers[0],
                    loading_in_range(context.registers[1], context.registers[0] as u32),
                ),
                loading_color(context.registers[1], context.registers[0] as u32),
            ),
    {
        let mut next = context;
        let r0 = context.registers[0];
        let pos = r0 as u32;
        if context.registers[1] == 1 {
            if pos < 85 {
                next.color = rgb_to_hex((pos * 3) as u8, 255 - (pos * 3) as u8, 0);
            } else if pos < 170 {
                next.color = rgb_to_hex(255 - (pos * 3) as u8, (pos * 3) as u8, 0);
            } else {
                next.registers[0] = 0;
                next.color = rgb_to_hex(0, 255, 0);
            }
        } else {
            if pos >= 254 {
                next.registers[0] = 0;
                next.color = wheel(0);
            } else {
                next.color = wheel((pos * 2) as u8);
            }
        }
        assert((r0 as u32) < 254 ==> r0 < 0x7fff_ffff) by (bit_vector);
        next.registers[0] = next.registers[0] + 1;
        assert(next.registers@ =~= context.registers@.update(
            0,
            walk_next(
                context.registers[0],
                loading_in_range(context.registers[1], context.registers[0] as u32),
            ),
        ));
        next
    }
}

} // verus!
