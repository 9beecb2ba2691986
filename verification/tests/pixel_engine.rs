use hexagon::effects::initialize_effects;
use hexagon::pixel_engine::color::rgb;
use hexagon::pixel_engine::context::Context;
use hexagon::pixel_engine::effect::{Effect, EffectInitializer, EffectSegment};
use hexagon::pixel_engine::shader::{Segment, Shader};
use hexagon::pixel_engine::shader_config::{ShaderConfig, ShaderConfigList};

#[test]
fn shader_segments() {
    let shader = Shader::new("Sample")
        .with_color(rgb(255, 0, 0))
        .transition_to(rgb(0, 255, 0), 500)
        .transition_to(rgb(255, 0, 0), 500)
        .build();
    assert_eq!(shader.total_time, 1000);
    assert_eq!(
        shader.segment_at(250),
        Segment { from: rgb(255, 0, 0), to: rgb(0, 255, 0), elapsed: 250, duration: 500 }
    );
    assert_eq!(
        shader.segment_at(503),
        Segment { from: rgb(0, 255, 0), to: rgb(255, 0, 0), elapsed: 3, duration: 500 }
    );
    assert_eq!(shader.segment_at(1250).elapsed, 250);
}

#[test]
fn sealed_shaders_ignore_transitions() {
    let mut shader = Shader::new("Sealed");
    shader.transition_to(rgb(1, 2, 3), 10);
    let mut built = shader.build();
    built.transition_to(rgb(4, 5, 6), 10);
    assert_eq!(built.steps.len(), 1);
    let mut other = Shader::new("Other");
    other.merge(&built);
    other.merge(&built);
    assert_eq!(other.steps.len(), 2);
    assert_eq!(other.total_time, 20);
}

#[test]
fn effect_segments() {
    let mut effect = Effect::new("Randomized")
        .with_initializer(EffectInitializer::Randomized)
        .transition_to(100, 4200)
        .build();
    let mut ctx = Context::empty();
    ctx.node_id = 1;
    ctx.total_nodes = 4;
    let (segment, next) = effect.process(&ctx, 0, (5000, 0));
    assert!(next.initialized);
    assert_eq!(next.offset, 800);
    assert_eq!(segment, EffectSegment { from: 0, to: 100, elapsed: 800, duration: 4200 });
    let (again, _) = effect.process(&next, 100, (1, 1));
    assert_eq!(again.elapsed, 900);
}

#[test]
fn effect_initializers() {
    let mut effects = initialize_effects();
    assert_eq!(effects.len(), 4);
    assert_eq!(effects[2].name, "Grouped");
    assert_eq!(effects[3].total_time, 2100 + 1400 + 1050);
    let mut ctx = Context::empty();
    ctx.node_id = 2;
    ctx.total_nodes = 4;
    let spread = effects[0].initialize(&ctx, (0, 0));
    assert_eq!(spread.offset, 2 * 1050);
    let grouped = effects[2].initialize(&ctx, (77, 3));
    assert_eq!(grouped.offset, 0);
    let grouped2 = effects[2].initialize(&ctx, (77, 4));
    assert_eq!(grouped2.offset, 77);
    assert_eq!(effects[2].regs[1], 77);
    let surprise = effects[3].initialize(&ctx, (4199, 0));
    assert_eq!(surprise.offset, 2099);
}

#[test]
fn held_moves_last_longer() {
    let effect = Effect::new("Held").transition_to_and_hold(50, 100).transition_to(0, 100).build();
    assert_eq!(effect.segment_at(30, 0).duration, 130);
    assert_eq!(effect.segment_at(30, 0).elapsed, 30);
    assert_eq!(effect.segment_at(0, 150), EffectSegment { from: 50, to: 0, elapsed: 50, duration: 100 });
}

fn config(start: u64, end: u64, name: &[u8], probability: u64) -> ShaderConfig {
    ShaderConfig { time_range_start: start, time_range_end: end, shader: name.to_vec(), probability }
}

#[test]
fn shader_rules() {
    let mut list = ShaderConfigList::new();
    list.add_config(config(0, 100, b"A", 10));
    list.add_config(config(0, 100, b"B", 20));
    list.add_config(config(200, 300, b"C", 255));
    assert_eq!(list.size(), 3);
    assert_eq!(list.get_shader(50, &[1, 0], 25), b"A".to_vec());
    assert_eq!(list.get_shader(50, &[1, 0], 5), b"B".to_vec());
    assert_eq!(list.get_shader(250, &[], 0), b"C".to_vec());
    assert_eq!(list.candidates_at(50), Ok(vec![0, 1]));
    assert_eq!(list.candidates_at(250), Err(2));
}
