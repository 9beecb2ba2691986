//! The byte protocols spoken with the Wi-Fi module: its framed payloads,
//! the HTTP responses inside them and the device's own commands.
pub mod parser;
pub mod models;
