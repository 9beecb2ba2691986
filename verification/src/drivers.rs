//! Drivers for the devices on the board.
pub mod esp8266;
pub mod max31820;
pub mod msgeq7;
pub mod ws2812;
pub mod ws2812v2;
pub mod wifi;
