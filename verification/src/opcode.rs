//! Decoding of 16-bit instruction words.
//!
//! Decoding is a pure function of the word: `spec_decode` is the
//! mathematical decoder, total over all 65536 words, and `Opcode::try_from`
//! is proved to return exactly its result, so decoding the same word twice
//! always yields the same instruction, and every word maps either to one
//! instruction or to `UnknownOpcode`.

use vstd::prelude::*;

use crate::error::EmulatorError;

verus! {

/// The closed set of instructions, one variant per instruction shape.
///
/// `x` and `y` name general registers, `n` is a sprite height, `byte` an
/// immediate operand and the `u16` payloads are 12-bit addresses.
#[derive(Debug, Clone, Copy, PartialEq, Eq, Structural)]
pub enum Opcode {
    ClearScreen,
    ReturnSubroutine,
    Jump(u16),
    Call(u16),
    SkipIfEqByte { x: usize, byte: u8 },
    SkipIfNeqByte { x: usize, byte: u8 },
    SkipIfEqReg { x: usize, y: usize },
    SetReg { x: usize, byte: u8 },
    AddByteToReg { x: usize, byte: u8 },
    SetRegToReg { x: usize, y: usize },
    OrReg { x: usize, y: usize },
    AndReg { x: usize, y: usize },
    XorReg { x: usize, y: usize },
    AddRegToReg { x: usize, y: usize },
    SubRegFromReg { x: usize, y: usize },
    ShrReg { x: usize },
    SubnRegFromReg { x: usize, y: usize },
    ShlReg { x: usize },
    SkipIfNeqReg { x: usize, y: usize },
    SetI(u16),
    JumpV0(u16),
    RndAndByte { x: usize, byte: u8 },
    DrawSprite { x: usize, y: usize, n: usize },
    SkipIfKeyPressed { x: usize },
    SkipIfKeyNotPressed { x: usize },
    SetRegToDelayTimer { x: usize },
    WaitKeyPress { x: usize },
    SetDelayTimer { x: usize },
    SetSoundTimer { x: usize },
    AddRegToI { x: usize },
    SetIToSpriteAddr { x: usize },
    StoreBCD { x: usize },
    StoreRegs { x: usize },
    LoadRegs { x: usize },
}

impl Opcode {
    /// Every operand is in range: register names below 16, sprite heights
    /// below 16, addresses below 4096.
    pub open spec fn wf(self) -> bool {
        match self {
            Opcode::ClearScreen => true,
            Opcode::ReturnSubroutine => true,
            Opcode::Jump(addr) => addr < 4096,
            Opcode::Call(addr) => addr < 4096,
            Opcode::SkipIfEqByte { x, byte } => x < 16,
            Opcode::SkipIfNeqByte { x, byte } => x < 16,
            Opcode::SkipIfEqReg { x, y } => x < 16 && y < 16,
            Opcode::SetReg { x, byte } => x < 16,
            Opcode::AddByteToReg { x, byte } => x < 16,
            Opcode::SetRegToReg { x, y } => x < 16 && y < 16,
            Opcode::OrReg { x, y } => x < 16 && y < 16,
            Opcode::AndReg { x, y } => x < 16 && y < 16,
            Opcode::XorReg { x, y } => x < 16 && y < 16,
            Opcode::AddRegToReg { x, y } => x < 16 && y < 16,
            Opcode::SubRegFromReg { x, y } => x < 16 && y < 16,
            Opcode::ShrReg { x } => x < 16,
            Opcode::SubnRegFromReg { x, y } => x < 16 && y < 16,
            Opcode::ShlReg { x } => x < 16,
            Opcode::SkipIfNeqReg { x, y } => x < 16 && y < 16,
            Opcode::SetI(addr) => addr < 4096,
            Opcode::JumpV0(addr) => addr < 4096,
            Opcode::RndAndByte { x, byte } => x < 16,
            Opcode::DrawSprite { x, y, n } => x < 16 && y < 16 && n < 16,
            Opcode::SkipIfKeyPressed { x } => x < 16,
            Opcode::SkipIfKeyNotPressed { x } => x < 16,
            Opcode::SetRegToDelayTimer { x } => x < 16,
            Opcode::WaitKeyPress { x } => x < 16,
            Opcode::SetDelayTimer { x } => x < 16,
            Opcode::SetSoundTimer { x } => x < 16,
            Opcode::AddRegToI { x } => x < 16,
            Opcode::SetIToSpriteAddr { x } => x < 16,
            Opcode::StoreBCD { x } => x < 16,
            Opcode::StoreRegs { x } => x < 16,
            Opcode::LoadRegs { x } => x < 16,
        }
    }
}

/// The mathematical decoder: which instruction, if any, a word denotes.
pub open spec fn spec_decode(w: u16) -> Option<Opcode> {
    let hi: u16 = w >> 12;
    let lo: u16 = w & 0xF;
    let x: usize = ((w >> 8) & 0xF) as usize;
    let y: usize = ((w >> 4) & 0xF) as usize;
    let n: usize = (w & 0xF) as usize;
    let byte: u8 = (w & 0xFF) as u8;
    let addr: u16 = w & 0xFFF;
    if w == 0x00E0 {
        Some(Opcode::ClearScreen)
    } else if w == 0x00EE {
        Some(Opcode::ReturnSubroutine)
    } else if hi == 0x1 {
        Some(Opcode::Jump(addr))
    } else if hi == 0x2 {
        Some(Opcode::Call(addr))
    } else if hi == 0x3 {
        Some(Opcode::SkipIfEqByte { x, byte })
    } else if hi == 0x4 {
        Some(Opcode::SkipIfNeqByte { x, byte })
    } else if hi == 0x5 && lo == 0x0 {
        Some(Opcode::SkipIfEqReg { x, y })
    } else if hi == 0x6 {
        Some(Opcode::SetReg { x, byte })
    } else if hi == 0x7 {
        Some(Opcode::AddByteToReg { x, byte })
    } else if hi == 0x8 && lo == 0x0 {
        Some(Opcode::SetRegToReg { x, y })
    } else if hi == 0x8 && lo == 0x1 {
        Some(Opcode::OrReg { x, y })
    } else if hi == 0x8 && lo == 0x2 {
        Some(Opcode::AndReg { x, y })
    } else if hi == 0x8 && lo == 0x3 {
        Some(Opcode::XorReg { x, y })
    } else if hi == 0x8 && lo == 0x4 {
        Some(Opcode::AddRegToReg { x, y })
    } else if hi == 0x8 && lo == 0x5 {
        Some(Opcode::SubRegFromReg { x, y })
    } else if hi == 0x8 && lo == 0x6 {
        Some(Opcode::ShrReg { x })
    } else if hi == 0x8 && lo == 0x7 {
        Some(Opcode::SubnRegFromReg { x, y })
    } else if hi == 0x8 && lo == 0xE {
        Some(Opcode::ShlReg { x })
    } else if hi == 0x9 && lo == 0x0 {
        Some(Opcode::SkipIfNeqReg { x, y })
    } else if hi == 0xA {
        Some(Opcode::SetI(addr))
    } else if hi == 0xB {
        Some(Opcode::JumpV0(addr))
    } else if hi == 0xC {
        Some(Opcode::RndAndByte { x, byte })
    } else if hi == 0xD {
        Some(Opcode::DrawSprite { x, y, n })
    } else if hi == 0xE && byte == 0x9E {
        Some(Opcode::SkipIfKeyPressed { x })
    } else if hi == 0xE && byte == 0xA1 {
        Some(Opcode::SkipIfKeyNotPressed { x })
    } else if hi == 0xF && byte == 0x07 {
        Some(Opcode::SetRegToDelayTimer { x })
    } else if hi == 0xF && byte == 0x0A {
        Some(Opcode::WaitKeyPress { x })
    } else if hi == 0xF && byte == 0x15 {
        Some(Opcode::SetDelayTimer { x })
    } else if hi == 0xF && byte == 0x18 {
        Some(Opcode::SetSoundTimer { x })
    } else if hi == 0xF && byte == 0x1E {
        Some(Opcode::AddRegToI { x })
    } else if hi == 0xF && byte == 0x29 {
        Some(Opcode::SetIToSpriteAddr { x })
    } else if hi == 0xF && byte == 0x33 {
        Some(Opcode::StoreBCD { x })
    } else if hi == 0xF && byte == 0x55 {
        Some(Opcode::StoreRegs { x })
    } else if hi == 0xF && byte == 0x65 {
        Some(Opcode::LoadRegs { x })
    } else {
        None
    }
}

/// The operand fields cut out of a word stay in range.
proof fn lemma_operand_bounds(w: u16)
    by (bit_vector)
    ensures
        (w >> 12) < 16,
        ((w >> 8) & 0xF) < 16,
        ((w >> 4) & 0xF) < 16,
        (w & 0xF) < 16,
        (w & 0xFF) < 256,
        (w & 0xFFF) < 4096,
{
}

/// Whatever `spec_decode` produces has every operand in range.
pub proof fn lemma_decode_wf(w: u16)
    ensures
        spec_decode(w) matches Some(op) ==> op.wf(),
{
    lemma_operand_bounds(w);
}

impl Opcode {
    /// Decode one instruction word. Returns the instruction the word
    /// denotes, or `UnknownOpcode` with the raw word for the patterns
    /// outside the instruction table. Total and deterministic: the result
    /// is exactly `spec_decode(w)`.
    pub fn try_from(w: u16) -> (r: Result<Opcode, EmulatorError>)
        ensures
            (match spec_decode(w) {
                Some(op) => r == Ok::<Opcode, EmulatorError>(op),
                None => r == Err::<Opcode, EmulatorError>(EmulatorError::UnknownOpcode(w)),
            }),
            (r matches Ok(op) ==> op.wf()),
    {
        proof {
            lemma_operand_bounds(w);
        }
        let hi: u16 = w >> 12;
        let lo: u16 = w & 0xF;
        let x: usize = ((w >> 8) & 0xF) as usize;
        let y: usize = ((w >> 4) & 0xF) as usize;
        let n: usize = (w & 0xF) as usize;
        let byte: u8 = (w & 0xFF) as u8;
        let addr: u16 = w & 0xFFF;
        if w == 0x00E0 {
            Ok(Opcode::ClearScreen)
        } else if w == 0x00EE {
            Ok(Opcode::ReturnSubroutine)
        } else if hi == 0x1 {
            Ok(Opcode::Jump(addr))
        } else if hi == 0x2 {
            Ok(Opcode::Call(addr))
        } else if hi == 0x3 {
            Ok(Opcode::SkipIfEqByte { x, byte })
        } else if hi == 0x4 {
            Ok(Opcode::SkipIfNeqByte { x, byte })
        } else if hi == 0x5 && lo == 0x0 {
            Ok(Opcode::SkipIfEqReg { x, y })
        } else if hi == 0x6 {
            Ok(Opcode::SetReg { x, byte })
        } else if hi == 0x7 {
            Ok(Opcode::AddByteToReg { x, byte })
        } else if hi == 0x8 && lo == 0x0 {
            Ok(Opcode::SetRegToReg { x, y })
        } else if hi == 0x8 && lo == 0x1 {
            Ok(Opcode::OrReg { x, y })
        } else if hi == 0x8 && lo == 0x2 {
            Ok(Opcode::AndReg { x, y })
        } else if hi == 0x8 && lo == 0x3 {
            Ok(Opcode::XorReg { x, y })
        } else if hi == 0x8 && lo == 0x4 {
            Ok(Opcode::AddRegToReg { x, y })
        } else if hi == 0x8 && lo == 0x5 {
            Ok(Opcode::SubRegFromReg { x, y })
        } else if hi == 0x8 && lo == 0x6 {
            Ok(Opcode::ShrReg { x })
        } else if hi == 0x8 && lo == 0x7 {
            Ok(Opcode::SubnRegFromReg { x, y })
        } else if hi == 0x8 && lo == 0xE {
            Ok(Opcode::ShlReg { x })
        } else if hi == 0x9 && lo == 0x0 {
            Ok(Opcode::SkipIfNeqReg { x, y })
        } else if hi == 0xA {
            Ok(Opcode::SetI(addr))
        } else if hi == 0xB {
            Ok(Opcode::JumpV0(addr))
        } else if hi == 0xC {
            Ok(Opcode::RndAndByte { x, byte })
        } else if hi == 0xD {
            Ok(Opcode::DrawSprite { x, y, n })
        } else if hi == 0xE && byte == 0x9E {
            Ok(Opcode::SkipIfKeyPressed { x })
        } else if hi == 0xE && byte == 0xA1 {
            Ok(Opcode::SkipIfKeyNotPressed { x })
        } else if hi == 0xF && byte == 0x07 {
            Ok(Opcode::SetRegToDelayTimer { x })
        } else if hi == 0xF && byte == 0x0A {
            Ok(Opcode::WaitKeyPress { x })
        } else if hi == 0xF && byte == 0x15 {
            Ok(Opcode::SetDelayTimer { x })
        } else if hi == 0xF && byte == 0x18 {
            Ok(Opcode::SetSoundTimer { x })
        } else if hi == 0xF && byte == 0x1E {
            Ok(Opcode::AddRegToI { x })
        } else if hi == 0xF && byte == 0x29 {
            Ok(Opcode::SetIToSpriteAddr { x })
        } else if hi == 0xF && byte == 0x33 {
            Ok(Opcode::StoreBCD { x })
        } else if hi == 0xF && byte == 0x55 {
            Ok(Opcode::StoreRegs { x })
        } else if hi == 0xF && byte == 0x65 {
            Ok(Opcode::LoadRegs { x })
        } else {
            Err(EmulatorError::UnknownOpcode(w))
        }
    }
}

} // verus!
