//! A verified virtual machine for the classic CHIP-8 instruction set.
//!
//! The crate models the complete machine: a 4096-byte memory with a font
//! table in its reserved low region, sixteen 8-bit registers, a call stack,
//! two 60 Hz-scaled timers, a 64x32 monochrome framebuffer, a 16-key pad,
//! an instruction decoder and execution engine, a fixed-timestep tick
//! scheduler, and a time-travel debugger that records one machine frame per
//! executed cycle.

pub mod audio;
pub mod constants;
pub mod debugger;
pub mod display;
pub mod errors;
pub mod input;
pub mod opcodes;
pub mod timer;
pub mod vm;
