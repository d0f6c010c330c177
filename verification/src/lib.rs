//! Driver logic for addressable single-wire RGB LEDs of the WS2812 family:
//! a 24-bit color value, a channel-order policy that turns a color into the
//! 24 wire bits, and a protocol engine that turns each bit into a pair of
//! calibrated high/low pulse durations on one exclusively owned output line.

pub mod color;
pub mod neopixel;
pub mod pin;
