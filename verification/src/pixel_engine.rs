//! Colours for the pixel engine.
pub mod color;
pub mod shader;
pub mod context;
pub mod effect;
pub mod shader_config;
