use hexagon::shaders::basic::BasicShader;
use hexagon::shaders::constrained::ConstrainedRainbowShader;
use hexagon::shaders::halloween::HalloweenShader;
use hexagon::shaders::independence::IndependenceShader;
use hexagon::shaders::loading::LoadingShader;
use hexagon::shaders::lunar::LunarShader;
use hexagon::shaders::shader_core::{hex_to_rgb, rgb_to_hex, wheel, Shader, ShaderContext};
use hexagon::shaders::xmas::XmasShader;

#[test]
fn colour_packing() {
    assert_eq!(rgb_to_hex(0x11, 0x22, 0x33), 0x221133);
    assert_eq!(hex_to_rgb(0x123456), (0, 0x340000, 0x56));
    assert_eq!(wheel(0), 0x00FF00);
    assert_eq!(wheel(85), 0x0000FF);
    assert_eq!(wheel(170), 0xFF0000);
    assert_eq!(wheel(50), 0x006996);
}

#[test]
fn basic_shader_walks_the_wheel() {
    let mut shader = BasicShader::new();
    assert_eq!(shader.name(), "Basic");
    let context = shader.init(ShaderContext::new(2, 10), 0);
    assert_eq!(context.registers[0], 50);
    let next = shader.update(context);
    assert_eq!(next.color, 0x006996);
    assert_eq!(next.registers[0], 51);
    let mut end = context;
    end.registers[0] = 255;
    let wrapped = shader.update(end);
    assert_eq!(wrapped.registers[0], 0);
    assert_eq!(shader.randomize(context, (1, 2, 3)).registers[0], 50);
}

#[test]
fn xmas_shader_restarts_after_its_walk() {
    let mut shader = XmasShader::new();
    assert_eq!(shader.name(), "Xmas");
    let mut context = ShaderContext::new(0, 1);
    context.registers[0] = 169;
    let next = shader.update(context);
    assert_eq!(next.color, 0x03FC00);
    assert_eq!(next.registers[0], 170);
    let after = shader.update(next);
    assert_eq!(after.color, 0x03FC00);
    assert_eq!(after.registers[0], 1);
    assert_eq!(shader.randomize(context, (171, 0, 0)).registers[0], 1);
}

#[test]
fn themed_shaders() {
    let mut lunar = LunarShader::new();
    assert_eq!(lunar.name(), "Lunar New Year");
    let context = ShaderContext::new(0, 4);
    let next = lunar.update(context);
    assert_eq!(next.color, 0x07C702);
    assert_eq!(next.registers[0], 1);

    let mut halloween = HalloweenShader::new();
    let mut late = context;
    late.registers[0] = 300;
    let reset = halloween.update(late);
    assert_eq!(reset.color, 0);
    assert_eq!(reset.registers[0], 1);

    let mut independence = IndependenceShader::new();
    let mut mid = context;
    mid.registers[0] = 100;
    assert_eq!(independence.update(mid).color, 0x2D2DFF);
}

#[test]
fn loading_shader_ripples_from_the_middle() {
    let mut shader = LoadingShader::new();
    let start = shader.init(ShaderContext::new(0, 10), 3);
    assert_eq!(start.registers[0], 255);
    assert_eq!(start.registers[1], 1);
    let middle = shader.init(ShaderContext::new(5, 10), 4);
    assert_eq!(middle.registers[0], 0);
    assert_eq!(middle.registers[1], 0);
}

#[test]
fn constrained_shader_bounces() {
    let shader_draws = (10u64, 5u64, 7u64);
    let shader = ConstrainedRainbowShader::new();
    let context = shader.randomize(ShaderContext::new(0, 1), shader_draws);
    assert_eq!(context.registers[1], 5);
    assert_eq!(context.registers[2], 10);
    assert_eq!(context.registers[3], 1);
    assert_eq!(context.registers[0], 7);

    let mut shader = ConstrainedRainbowShader::new();
    let mut top = context;
    top.registers[0] = 9;
    let next = shader.update(top);
    assert_eq!(next.registers[0], 10);
    assert_eq!(next.registers[3], 0);
    let back = shader.update(next);
    assert_eq!(back.registers[0], 9);
}
