//! Input handling: keys, lock LEDs, the pointer and its grabs.
pub mod grab;
pub mod keyboard;
pub mod leds;
pub mod pointer;
