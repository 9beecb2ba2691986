//! Colour shaders: each one moves a node's context along an animation;
//! and the catalogue of colour animations the pixel task picks from.
pub mod shader_core;
pub mod basic;
pub mod xmas;
pub mod halloween;
pub mod independence;
pub mod lunar;
pub mod loading;
pub mod constrained;

use vstd::prelude::*;
use crate::pixel_engine::color::{Color, rgb};
use crate::pixel_engine::shader::{Shader, ShaderStep, rgb_spec};

verus! {

/// How long each transition of a catalogue animation takes.
pub const SHADER_STEP_TIME: u64 = 1000;

/// The transitions to `targets`, in order, each taking the catalogue's
/// step time.
pub open spec fn catalogue_steps(targets: Seq<Color>) -> Seq<ShaderStep> {
    targets.map_values(|c: Color| ShaderStep { time: SHADER_STEP_TIME, color: c })
}

/// `s` is the sealed animation `name`, starting at `start` and moving
/// through `targets`, marked as `disabled` says, with `segment_count`.
pub open spec fn built_as(
    s: Shader,
    name: &'static str,
    start: Color,
    targets: Seq<Color>,
    disabled: bool,
    segment_count: Option<usize>,
) -> bool {
    &&& s.name == name
    &&& s.sealed
    &&& s.color == start
    &&& s.steps@ == catalogue_steps(targets)
    &&& s.total_time == SHADER_STEP_TIME * targets.len()
    &&& s.well_formed()
    &&& s.disabled == disabled
    &&& !s.wifi_only
    &&& s.segment_count == segment_count
}

/// Builds the sealed animation `name` from `start` through `targets`.
fn catalogue_shader(
    name: &'static str,
    start: Color,
    targets: &[Color],
    disabled: bool,
    segment_count: Option<usize>,
) -> (s: Shader)
    requires
        targets@.len() <= 16,
    ensures
        built_as(s, name, start, targets@, disabled, segment_count),
{
    let mut shader = Shader::new(name);
    if disabled {
        shader.as_disabled();
    }
    shader.with_color(start);
    let mut idx: usize = 0;
    while idx < targets.len()
        invariant
            idx <= targets@.len(),
            targets@.len() <= 16,
            shader.well_formed(),
            !shader.sealed,
            shader.name == name,
            shader.color == start,
            shader.disabled == disabled,
            !shader.wifi_only,
            shader.segment_count is None,
            shader.steps@ == catalogue_steps(targets@.take(idx as int)),
            shader.total_time == SHADER_STEP_TIME * idx,
        decreases targets@.len() - idx,
    {
        shader.transition_to(targets[idx], SHADER_STEP_TIME);
        idx = idx + 1;
        assert(catalogue_steps(targets@.take(idx as int)) =~= catalogue_steps(
            targets@.take(idx - 1),
        ).push(ShaderStep { time: SHADER_STEP_TIME, color: targets@[idx - 1] }));
    }
    assert(targets@.take(idx as int) =~= targets@);
    match segment_count {
        Some(count) => {
            shader.set_segment_count(count);
        },
        None => {},
    }
    shader.build()
}

/// `s` is the catalogue of colour animations: Medbay, Honeycomb,
/// 80SciFi (disabled), Valentines, Dinosaur (two colour segments),
/// Rainbow, Jupiter (disabled), Neptune, R2D2 and RetroFuturistic, each
/// moving through its colours a step time apart.
pub open spec fn shader_catalogue(s: Seq<Shader>) -> bool {
    &&& s.len() == 10
    &&& forall|i: int| 0 <= i < 10 ==> (#[trigger] s[i]).well_formed() && s[i].total_time > 0
    &&& built_as(s[0], "Medbay", rgb_spec(0, 255, 0), seq![rgb_spec(0, 0, 255), rgb_spec(0, 255, 0)], false, None)
    &&& built_as(s[1], "Honeycomb", rgb_spec(255, 180, 0), seq![rgb_spec(255, 0, 0), rgb_spec(255, 180, 0)], false, None)
    &&& built_as(
        s[2],
        "80SciFi",
        rgb_spec(0, 145, 255),
        seq![rgb_spec(106, 0, 255), rgb_spec(255, 0, 204), rgb_spec(255, 255, 0), rgb_spec(0, 145, 255)],
        true,
        None,
    )
    &&& built_as(s[3], "Valentines", rgb_spec(255, 0, 0), seq![rgb_spec(50, 0, 255), rgb_spec(255, 0, 0)], false, None)
    &&& built_as(
        s[4],
        "Dinosaur",
        rgb_spec(0, 0, 255),
        seq![rgb_spec(0, 255, 0), rgb_spec(64, 0, 148), rgb_spec(0, 0, 255)],
        false,
        Some(2),
    )
    &&& built_as(
        s[5],
        "Rainbow",
        rgb_spec(255, 0, 0),
        seq![rgb_spec(0, 0, 255), rgb_spec(0, 255, 0), rgb_spec(255, 0, 0)],
        false,
        None,
    )
    &&& built_as(
        s[6],
        "Jupiter",
        rgb_spec(49, 0, 51),
        seq![rgb_spec(225, 35, 0), rgb_spec(255, 0, 0), rgb_spec(49, 0, 51)],
        true,
        None,
    )
    &&& built_as(
        s[7],
        "Neptune",
        rgb_spec(0, 0, 188),
        seq![rgb_spec(0, 35, 194), rgb_spec(0, 255, 183), rgb_spec(60, 0, 255), rgb_spec(0, 0, 188)],
        false,
        None,
    )
    &&& built_as(s[8], "R2D2", rgb_spec(0, 0, 255), seq![rgb_spec(255, 0, 0), rgb_spec(0, 0, 255)], false, None)
    &&& built_as(
        s[9],
        "RetroFuturistic",
        rgb_spec(255, 0, 173),
        seq![
            rgb_spec(255, 0, 0),
            rgb_spec(115, 6, 121),
            rgb_spec(4, 110, 106),
            rgb_spec(255, 255, 0),
            rgb_spec(255, 0, 173),
        ],
        false,
        None,
    )
}

/// The colour animations the pixel task picks from.
pub fn initialize_shaders() -> (r: Vec<Shader>)
    ensures
        shader_catalogue(r@),
{
    let mut r: Vec<Shader> = Vec::new();
    let t: [Color; 2] = [rgb(0, 0, 255), rgb(0, 255, 0)];
    assert(t@ =~= seq![rgb_spec(0, 0, 255), rgb_spec(0, 255, 0)]);
    r.push(catalogue_shader("Medbay", rgb(0, 255, 0), &t, false, None));
    let t: [Color; 2] = [rgb(255, 0, 0), rgb(255, 180, 0)];
    assert(t@ =~= seq![rgb_spec(255, 0, 0), rgb_spec(255, 180, 0)]);
    r.push(catalogue_shader("Honeycomb", rgb(255, 180, 0), &t, false, None));
    let t: [Color; 4] = [rgb(106, 0, 255), rgb(255, 0, 204), rgb(255, 255, 0), rgb(0, 145, 255)];
    assert(t@ =~= seq![rgb_spec(106, 0, 255), rgb_spec(255, 0, 204), rgb_spec(255, 255, 0), rgb_spec(0, 145, 255)]);
    r.push(catalogue_shader("80SciFi", rgb(0, 145, 255), &t, true, None));
    let t: [Color; 2] = [rgb(50, 0, 255), rgb(255, 0, 0)];
    assert(t@ =~= seq![rgb_spec(50, 0, 255), rgb_spec(255, 0, 0)]);
    r.push(catalogue_shader("Valentines", rgb(255, 0, 0), &t, false, None));
    let t: [Color; 3] = [rgb(0, 255, 0), rgb(64, 0, 148), rgb(0, 0, 255)];
    assert(t@ =~= seq![rgb_spec(0, 255, 0), rgb_spec(64, 0, 148), rgb_spec(0, 0, 255)]);
    r.push(catalogue_shader("Dinosaur", rgb(0, 0, 255), &t, false, Some(2)));
    let t: [Color; 3] = [rgb(0, 0, 255), rgb(0, 255, 0), rgb(255, 0, 0)];
    assert(t@ =~= seq![rgb_spec(0, 0, 255), rgb_spec(0, 255, 0), rgb_spec(255, 0, 0)]);
    r.push(catalogue_shader("Rainbow", rgb(255, 0, 0), &t, false, None));
    let t: [Color; 3] = [rgb(225, 35, 0), rgb(255, 0, 0), rgb(49, 0, 51)];
    assert(t@ =~= seq![rgb_spec(225, 35, 0), rgb_spec(255, 0, 0), rgb_spec(49, 0, 51)]);
    r.push(catalogue_shader("Jupiter", rgb(49, 0, 51), &t, true, None));
    let t: [Color; 4] = [rgb(0, 35, 194), rgb(0, 255, 183), rgb(60, 0, 255), rgb(0, 0, 188)];
    assert(t@ =~= seq![rgb_spec(0, 35, 194), rgb_spec(0, 255, 183), rgb_spec(60, 0, 255), rgb_spec(0, 0, 188)]);
    r.push(catalogue_shader("Neptune", rgb(0, 0, 188), &t, false, None));
    let t: [Color; 2] = [rgb(255, 0, 0), rgb(0, 0, 255)];
    assert(t@ =~= seq![rgb_spec(255, 0, 0), rgb_spec(0, 0, 255)]);
    r.push(catalogue_shader("R2D2", rgb(0, 0, 255), &t, false, None));
    let t: [Color; 5] = [rgb(255, 0, 0), rgb(115, 6, 121), rgb(4, 110, 106), rgb(255, 255, 0), rgb(255, 0, 173)];
    assert(t@ =~= seq![
        rgb_spec(255, 0, 0),
        rgb_spec(115, 6, 121),
        rgb_spec(4, 110, 106),
        rgb_spec(255, 255, 0),
        rgb_spec(255, 0, 173),
    ]);
    r.push(catalogue_shader("RetroFuturistic", rgb(255, 0, 173), &t, false, None));
    assert forall|i: int| 0 <= i < 10 implies (#[trigger] r@[i]).well_formed() && r@[i].total_time > 0 by {
        assert(r@[i].total_time >= SHADER_STEP_TIME * 2);
    }
    r
}

} // verus!
