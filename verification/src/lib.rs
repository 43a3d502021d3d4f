//! A CHIP-8 virtual machine core: machine state, the fetch/decode/execute
//! cycle for the full 35-opcode instruction set, sprite drawing with
//! collision detection, and the two countdown timers.
//!
//! Every opcode's effect on the machine is stated by the specification
//! function [`semantics::step`], and the executable interpreter is proved
//! to follow it. Host concerns (window, rendering, physical keyboard, ROM
//! files, audio) live outside this crate; the host reads the framebuffer
//! and writes the keyboard latch between cycles.

pub mod font;
pub mod graphics;
pub mod laws;
pub mod memory;
pub mod processor;
pub mod semantics;

pub use memory::Chip8;
pub use memory::Chip8Error;
