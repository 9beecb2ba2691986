//! Verified core of a hexagon LED controller: number rendering, stack and
//! queue containers, byte-string search, an ordered map, cooperative task
//! gates, register-level peripheral control, colour shaders and effects,
//! device drivers (LED strips, Wi-Fi module, thermometer, equalizer), and
//! the tasks that decide what the hardware does next.
pub mod math;
pub mod datastructures;
pub mod strings;
pub mod system;
pub mod gate;
pub mod shaders;
pub mod phys;
pub mod pixel_engine;
pub mod date_time;
pub mod models;
pub mod debug;
pub mod kernel;
pub mod drivers;
pub mod serio;
pub mod tasks;
pub mod http;
pub mod http_models;
pub mod effects;
pub mod mem;
pub mod pixel_task;
pub mod thermal_task;
pub mod audio_task;
