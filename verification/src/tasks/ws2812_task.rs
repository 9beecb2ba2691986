//! The LED strip task's choice of shader.
use vstd::prelude::*;

pub mod shader;

verus! {

/// The number of LEDs the strip task drives.
pub const LEDS: usize = 100;

/// The shaders the strip task can run.
#[derive(Copy, Clone, PartialEq, Eq, Structural, Debug)]
pub enum ActiveShader {
    Basic,
    Xmas,
    Constrained,
    AudioEqualizer,
}

impl ActiveShader {
    /// Every shader, in order.
    pub fn list() -> (r: [ActiveShader; 4])
        ensures
            r@ == seq![
                ActiveShader::Basic,
                ActiveShader::Xmas,
                ActiveShader::Constrained,
                ActiveShader::AudioEqualizer,
            ],
    {
        let r = [
            ActiveShader::Basic,
            ActiveShader::Xmas,
            ActiveShader::Constrained,
            ActiveShader::AudioEqualizer,
        ];
        assert(r@ =~= seq![
            ActiveShader::Basic,
            ActiveShader::Xmas,
            ActiveShader::Constrained,
            ActiveShader::AudioEqualizer,
        ]);
        r
    }
}

} // verus!
