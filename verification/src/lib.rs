//! A verified CHIP-8 virtual machine: fetch, decode, execute, stack,
//! framebuffer compositing, keypad halt state, and wall-clock pacing.
pub mod exec;
pub mod input;
pub mod laws;
pub mod rom;
pub mod state;
pub mod utils;
