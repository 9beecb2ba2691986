//! The effects the pixel task picks from.
use vstd::prelude::*;
use crate::pixel_engine::effect::{Effect, EffectInitializer, EffectNode, EFFECT_TIME};

verus! {

/// A plain move to `target` over `duration`.
pub open spec fn step(target: u32, duration: u64) -> EffectNode {
    EffectNode { duration: duration, target: target, hold: false }
}

/// `s` is the catalogue of effects: evenly spread units, randomly placed
/// units, units in random groups moving up, down and up again, and a
/// three-stage surprise; all enabled, with no minimum number of units.
pub open spec fn effect_catalogue(s: Seq<Effect>) -> bool {
    &&& s.len() == 4
    &&& forall|i: int| 0 <= i < 4 ==> (#[trigger] s[i]).well_formed() && !s[i].disabled
        && s[i].min_hex_units is None
    &&& forall|i: int| 0 <= i < 4 ==> 0 < (#[trigger] s[i]).total_time <= 3 * EFFECT_TIME
    &&& s[0].name@ == "Distributed"@
    &&& s[0].initializer == Some(EffectInitializer::Distributed)
    &&& s[0].max_color_segments is None
    &&& s[0].nodes@ == seq![step(100, EFFECT_TIME)]
    &&& s[1].name@ == "Randomized"@
    &&& s[1].initializer == Some(EffectInitializer::Randomized)
    &&& s[1].max_color_segments == Some(3usize)
    &&& s[1].nodes@ == seq![step(100, EFFECT_TIME)]
    &&& s[2].name@ == "Grouped"@
    &&& s[2].initializer == Some(EffectInitializer::Grouped)
    &&& s[2].max_color_segments == Some(3usize)
    &&& s[2].nodes@ == seq![step(100, EFFECT_TIME), step(0, EFFECT_TIME), step(100, EFFECT_TIME)]
    &&& s[3].name@ == "Surprise"@
    &&& s[3].initializer == Some(EffectInitializer::Surprise)
    &&& s[3].max_color_segments == Some(3usize)
    &&& s[3].nodes@ == seq![step(50, EFFECT_TIME / 2), step(75, EFFECT_TIME / 3), step(100, EFFECT_TIME / 4)]
}

/// The effects the pixel task picks from.
pub fn initialize_effects() -> (r: Vec<Effect>)
    ensures
        effect_catalogue(r@),
{
    let mut effects: Vec<Effect> = Vec::new();

    let mut distributed = Effect::new("Distributed");
    distributed.with_initializer(EffectInitializer::Distributed);
    distributed.transition_to(100, EFFECT_TIME);
    effects.push(distributed.build());

    let mut randomized = Effect::new("Randomized");
    randomized.with_max_color_segments(3);
    randomized.with_initializer(EffectInitializer::Randomized);
    randomized.transition_to(100, EFFECT_TIME);
    effects.push(randomized.build());

    let mut grouped = Effect::new("Grouped");
    grouped.with_max_color_segments(3);
    grouped.with_initializer(EffectInitializer::Grouped);
    grouped.transition_to(100, EFFECT_TIME);
    grouped.transition_to(0, EFFECT_TIME);
    grouped.transition_to(100, EFFECT_TIME);
    effects.push(grouped.build());

    let mut surprise = Effect::new("Surprise");
    surprise.with_max_color_segments(3);
    surprise.with_initializer(EffectInitializer::Surprise);
    surprise.transition_to(50, EFFECT_TIME / 2);
    surprise.transition_to(75, EFFECT_TIME / 3);
    surprise.transition_to(100, EFFECT_TIME / 4);
    effects.push(surprise.build());

    assert(effects@[0].nodes@ =~= seq![step(100, EFFECT_TIME)]);
    assert(effects@[1].nodes@ =~= seq![step(100, EFFECT_TIME)]);
    assert(effects@[2].nodes@ =~= seq![step(100, EFFECT_TIME), step(0, EFFECT_TIME), step(100, EFFECT_TIME)]);
    assert(effects@[3].nodes@ =~= seq![
        step(50, EFFECT_TIME / 2),
        step(75, EFFECT_TIME / 3),
        step(100, EFFECT_TIME / 4),
    ]);
    effects
}

} // verus!
