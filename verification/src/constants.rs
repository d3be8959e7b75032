//! Fixed sizes and rates of the machine: memory layout, screen geometry,
//! register file size, and the 60 Hz timer scale.

use vstd::prelude::*;

verus! {

/// Total bytes of machine memory.
pub const MEMORY_SIZE: usize = 4096;

/// First address past the interpreter-reserved low region; programs load here.
pub const VM_RESERVED_BEGIN: usize = 512;

/// Bytes of the reserved high region that the loader never writes.
pub const VM_RESERVED_HIGH: usize = 96;

/// Largest program image that fits between the two reserved regions.
pub const ROM_SIZE: usize = MEMORY_SIZE - VM_RESERVED_BEGIN - VM_RESERVED_HIGH;

/// Number of general-purpose 8-bit registers.
pub const REGISTER_COUNT: usize = 16;

/// Index of the flags register, overloaded as carry, borrow, shift-out and
/// sprite-collision output.
pub const FLAG_REGISTER: usize = 15;

/// Program counter value at machine start.
pub const PC_START: u16 = 512;

/// Instructions are two bytes; the counter advances by this much per step.
pub const PC_INCREMENT: u16 = 2;

/// Framebuffer width in pixels.
pub const SCREEN_SIZE_X: usize = 64;

/// Framebuffer height in pixels.
pub const SCREEN_SIZE_Y: usize = 32;

/// Framebuffer size in bytes, one byte per pixel.
pub const SCREEN_SIZE: usize = SCREEN_SIZE_X * SCREEN_SIZE_Y;

/// The console design runs its timers at 60 ticks per canonical second.
pub const VM_ORIGINAL_HZ: u128 = 60;

/// Nanoseconds in one second.
pub const NANOS_PER_SECOND: u128 = 1000000000;

/// Nanoseconds in one 60 Hz timer tick; timers store nanoseconds internally
/// and expose their value in units of this constant.
pub const TIMER_DURATION_NANO: u128 = NANOS_PER_SECOND / VM_ORIGINAL_HZ;

/// Bytes per font glyph in the built-in font table.
pub const FONT_SYMBOL_SIZE: usize = 5;

/// Number of glyphs in the built-in font table, one per hexadecimal digit.
pub const FONT_SYMBOL_COUNT: usize = 16;

/// Total bytes of the built-in font table.
pub const FONT_TABLE_SIZE: usize = FONT_SYMBOL_COUNT * FONT_SYMBOL_SIZE;

} // verus!
