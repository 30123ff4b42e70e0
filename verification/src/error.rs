//! The failure kinds a machine operation can report.
//!
//! Every failure is recoverable and is reported to the caller from the
//! operation that detected it; the engine performs no local recovery.

use vstd::prelude::*;

verus! {

/// The closed set of failures that decoding, stepping and loading can
/// report.
#[derive(Debug, Clone, Copy, PartialEq, Eq, Structural)]
pub enum EmulatorError {
    /// Decoding met a bit pattern that is not one of the instruction
    /// shapes; carries the raw 16-bit word.
    UnknownOpcode(u16),
    /// A call was attempted while the call stack already held sixteen
    /// return addresses.
    StackOverflow,
    /// A return was attempted while the call stack was empty.
    StackUnderflow,
    /// A fetch or an index-relative read or write touched an address
    /// outside the 4096-byte memory; carries the base address of the
    /// attempted access.
    MemoryFault(u16),
    /// A program image longer than the memory past the load address was
    /// handed to the load operation.
    OversizeImage,
}

impl EmulatorError {
    /// A short human-readable description of the failure.
    pub fn describe(&self) -> String {
        match self {
            EmulatorError::UnknownOpcode(_) => "unknown opcode".to_string(),
            EmulatorError::StackOverflow => "stack overflow".to_string(),
            EmulatorError::StackUnderflow => "stack underflow".to_string(),
            EmulatorError::MemoryFault(_) => "memory fault".to_string(),
            EmulatorError::OversizeImage => "oversize program image".to_string(),
        }
    }
}

} // verus!
