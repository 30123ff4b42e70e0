//! A verified core for an 8-bit fantasy CPU: a 4096-byte memory, sixteen
//! 8-bit registers, a sixteen-entry call stack, a 64x32 monochrome
//! framebuffer, a sixteen-key pad and two countdown timers.
//!
//! The crate decodes 16-bit instruction words into a closed instruction set
//! and applies each instruction's exact bit-level effect on the machine
//! state. Every operation carries a contract that pins its result down
//! against a mathematical model of the machine (`machine::Machine`).

pub mod constants;
pub mod emulator;
pub mod error;
pub mod laws;
pub mod machine;
pub mod opcode;

pub use emulator::Emulator;

pub use constants::{SCREEN_HEIGHT, SCREEN_WIDTH};
pub use error::EmulatorError;
pub use opcode::Opcode;
