//! A verified CHIP-8 virtual machine core.
//!
//! The interpreter state, the instruction semantics, and the display-buffer
//! mutation algorithm live in [`cpu`]; the mathematical model that the
//! contracts speak of lives in [`model`]; machine-wide laws are proved in
//! [`laws`]. Rendering, audio and keyboard polling are left to the driver
//! that owns the machine and calls [`cpu::Cpu::tick`] once per frame.
#![allow(non_snake_case)]

pub mod cpu;
pub mod font;
pub mod laws;
pub mod model;
