use crust8_core::error::EmulatorError;
use crust8_core::opcode::Opcode;

#[test]
fn test_decode_all_shapes() {
    assert_eq!(Opcode::try_from(0x00E0), Ok(Opcode::ClearScreen));
    assert_eq!(Opcode::try_from(0x00EE), Ok(Opcode::ReturnSubroutine));
    assert_eq!(Opcode::try_from(0x1ABC), Ok(Opcode::Jump(0xABC)));
    assert_eq!(Opcode::try_from(0x2345), Ok(Opcode::Call(0x345)));
    assert_eq!(Opcode::try_from(0x3A7F), Ok(Opcode::SkipIfEqByte { x: 0xA, byte: 0x7F }));
    assert_eq!(Opcode::try_from(0x4B01), Ok(Opcode::SkipIfNeqByte { x: 0xB, byte: 0x01 }));
    assert_eq!(Opcode::try_from(0x5120), Ok(Opcode::SkipIfEqReg { x: 1, y: 2 }));
    assert_eq!(Opcode::try_from(0x6105), Ok(Opcode::SetReg { x: 1, byte: 5 }));
    assert_eq!(Opcode::try_from(0x77FF), Ok(Opcode::AddByteToReg { x: 7, byte: 0xFF }));
    assert_eq!(Opcode::try_from(0x8120), Ok(Opcode::SetRegToReg { x: 1, y: 2 }));
    assert_eq!(Opcode::try_from(0x8341), Ok(Opcode::OrReg { x: 3, y: 4 }));
    assert_eq!(Opcode::try_from(0x8562), Ok(Opcode::AndReg { x: 5, y: 6 }));
    assert_eq!(Opcode::try_from(0x8783), Ok(Opcode::XorReg { x: 7, y: 8 }));
    assert_eq!(Opcode::try_from(0x89A4), Ok(Opcode::AddRegToReg { x: 9, y: 0xA }));
    assert_eq!(Opcode::try_from(0x8BC5), Ok(Opcode::SubRegFromReg { x: 0xB, y: 0xC }));
    assert_eq!(Opcode::try_from(0x8D06), Ok(Opcode::ShrReg { x: 0xD }));
    assert_eq!(Opcode::try_from(0x8EF7), Ok(Opcode::SubnRegFromReg { x: 0xE, y: 0xF }));
    assert_eq!(Opcode::try_from(0x801E), Ok(Opcode::ShlReg { x: 0 }));
    assert_eq!(Opcode::try_from(0x9340), Ok(Opcode::SkipIfNeqReg { x: 3, y: 4 }));
    assert_eq!(Opcode::try_from(0xA123), Ok(Opcode::SetI(0x123)));
    assert_eq!(Opcode::try_from(0xB456), Ok(Opcode::JumpV0(0x456)));
    assert_eq!(Opcode::try_from(0xC07B), Ok(Opcode::RndAndByte { x: 0, byte: 0x7B }));
    assert_eq!(Opcode::try_from(0xD123), Ok(Opcode::DrawSprite { x: 1, y: 2, n: 3 }));
    assert_eq!(Opcode::try_from(0xE29E), Ok(Opcode::SkipIfKeyPressed { x: 2 }));
    assert_eq!(Opcode::try_from(0xE3A1), Ok(Opcode::SkipIfKeyNotPressed { x: 3 }));
    assert_eq!(Opcode::try_from(0xF407), Ok(Opcode::SetRegToDelayTimer { x: 4 }));
    assert_eq!(Opcode::try_from(0xF50A), Ok(Opcode::WaitKeyPress { x: 5 }));
    assert_eq!(Opcode::try_from(0xF615), Ok(Opcode::SetDelayTimer { x: 6 }));
    assert_eq!(Opcode::try_from(0xF718), Ok(Opcode::SetSoundTimer { x: 7 }));
    assert_eq!(Opcode::try_from(0xF81E), Ok(Opcode::AddRegToI { x: 8 }));
    assert_eq!(Opcode::try_from(0xF929), Ok(Opcode::SetIToSpriteAddr { x: 9 }));
    assert_eq!(Opcode::try_from(0xFA33), Ok(Opcode::StoreBCD { x: 0xA }));
    assert_eq!(Opcode::try_from(0xFB55), Ok(Opcode::StoreRegs { x: 0xB }));
    assert_eq!(Opcode::try_from(0xFC65), Ok(Opcode::LoadRegs { x: 0xC }));
}

#[test]
fn test_decode_unknown_patterns() {
    for w in [
        0x0000u16, 0x00E1, 0x0123, 0x5121, 0x8008, 0x800F, 0x9001, 0xE09D, 0xE0A2, 0xE000,
        0xF001, 0xF034, 0xF066, 0xF0FF, 0xFFFF,
    ] {
        assert_eq!(Opcode::try_from(w), Err(EmulatorError::UnknownOpcode(w)));
    }
}

#[test]
fn test_decode_deterministic() {
    for w in [0x00E0u16, 0x1ABC, 0x8124, 0xD01F, 0xF00A, 0x0BAD, 0xFFFF] {
        let first = Opcode::try_from(w);
        let second = Opcode::try_from(w);
        assert_eq!(first, second);
    }
}

#[test]
fn test_error_descriptions() {
    assert_eq!(EmulatorError::UnknownOpcode(0xBAD).describe(), "unknown opcode");
    assert_eq!(EmulatorError::StackOverflow.describe(), "stack overflow");
    assert_eq!(EmulatorError::StackUnderflow.describe(), "stack underflow");
    assert_eq!(EmulatorError::MemoryFault(4096).describe(), "memory fault");
    assert_eq!(EmulatorError::OversizeImage.describe(), "oversize program image");
}

#[test]
fn test_decode_total() {
    let mut known: u32 = 0;
    let mut unknown: u32 = 0;
    for w in 0..=0xFFFFu16 {
        match Opcode::try_from(w) {
            Ok(_) => known += 1,
            Err(EmulatorError::UnknownOpcode(raw)) => {
                assert_eq!(raw, w);
                unknown += 1;
            }
            Err(e) => panic!("decode may only fail with UnknownOpcode, got {:?}", e),
        }
    }
    assert_eq!(known + unknown, 0x10000);
}
