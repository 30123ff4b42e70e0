use crust8_core::constants::FONTSET;
use crust8_core::error::EmulatorError;
use crust8_core::Emulator;

/// Assemble big-endian instruction words into a program image.
fn image_of(words: &[u16]) -> Vec<u8> {
    let mut image = Vec::new();
    for w in words {
        image.push((w >> 8) as u8);
        image.push((w & 0xFF) as u8);
    }
    image
}

#[test]
fn test_power_on_state() {
    let emu = Emulator::new();
    assert_eq!(emu.pc(), 0x200);
    assert_eq!(emu.stack_depth(), 0);
    assert_eq!(emu.index_reg(), 0);
    assert_eq!(emu.delay_timer(), 0);
    assert_eq!(emu.sound_timer(), 0);
    for x in 0..16 {
        assert_eq!(emu.reg(x), 0);
    }
    assert!(emu.get_display().iter().all(|&px| !px));
    for a in 0..80u16 {
        assert_eq!(emu.read_ram(a), Ok(FONTSET[a as usize]));
    }
    assert_eq!(emu.read_ram(80), Ok(0));
    assert_eq!(emu.read_ram(0x200), Ok(0));
}

#[test]
fn test_load_then_one_step_sets_register() {
    // the two-word program 6005 0005: one step loads 5 into v0
    let mut emu = Emulator::new();
    emu.load(&[0x60, 0x05, 0x00, 0x05]).unwrap();
    emu.tick().unwrap();
    assert_eq!(emu.reg(0), 0x05);
    assert_eq!(emu.pc(), 0x202);
    // the second word is no instruction: the next step reports it
    assert_eq!(emu.tick(), Err(EmulatorError::UnknownOpcode(0x0005)));
    assert_eq!(emu.pc(), 0x204);
}

#[test]
fn test_load_oversize_image_rejected() {
    let mut emu = Emulator::new();
    let too_big = vec![0u8; 4096 - 0x200 + 1];
    assert_eq!(emu.load(&too_big), Err(EmulatorError::OversizeImage));
    // the largest image that fits is accepted whole
    let max = vec![0xABu8; 4096 - 0x200];
    assert_eq!(emu.load(&max), Ok(()));
    assert_eq!(emu.read_ram(0xFFF), Ok(0xAB));
    // a failed load leaves memory untouched
    let mut emu2 = Emulator::new();
    emu2.load(&[0x11, 0x22]).unwrap();
    assert_eq!(emu2.load(&too_big), Err(EmulatorError::OversizeImage));
    assert_eq!(emu2.read_ram(0x200), Ok(0x11));
}

#[test]
fn test_call_and_return_round_trip() {
    let mut emu = Emulator::new();
    let mut words = vec![0x2300u16]; // call 0x300
    words.resize(0x81, 0x0000);
    words[0x80] = 0x00EE; // the return instruction sits at 0x300
    emu.load(&image_of(&words)).unwrap();
    emu.tick_with(0).unwrap();
    assert_eq!(emu.pc(), 0x300);
    assert_eq!(emu.stack_depth(), 1);
    emu.tick_with(0).unwrap();
    assert_eq!(emu.pc(), 0x202); // back just past the call
    assert_eq!(emu.stack_depth(), 0);
}

#[test]
fn test_stack_overflow_on_seventeenth_call() {
    let mut emu = Emulator::new();
    emu.load(&[0x22, 0x00]).unwrap(); // call 0x200, forever
    for _ in 0..16 {
        emu.tick_with(0).unwrap();
    }
    assert_eq!(emu.stack_depth(), 16);
    assert_eq!(emu.tick_with(0), Err(EmulatorError::StackOverflow));
    assert_eq!(emu.stack_depth(), 16);
    assert_eq!(emu.pc(), 0x202); // the failed call moved nothing but the fetch
}

#[test]
fn test_stack_underflow_on_stray_return() {
    let mut emu = Emulator::new();
    emu.load(&[0x00, 0xEE]).unwrap();
    assert_eq!(emu.tick_with(0), Err(EmulatorError::StackUnderflow));
}

#[test]
fn test_memory_fault_on_fetch_past_end() {
    let mut emu = Emulator::new();
    emu.load(&[0x1F, 0xFF]).unwrap(); // jump to 0xFFF
    emu.tick_with(0).unwrap();
    assert_eq!(emu.pc(), 0xFFF);
    assert_eq!(emu.tick_with(0), Err(EmulatorError::MemoryFault(0xFFF)));
    assert_eq!(emu.pc(), 0xFFF); // a failed fetch moves nothing
}

#[test]
fn test_draw_wraps_and_double_draw_restores() {
    let mut emu = Emulator::new();
    // i = 0x20A; v3 = 63, v4 = 31; draw two rows of sprite data C0 80
    let mut image = image_of(&[0xA20A, 0x633F, 0x641F, 0xD342, 0xD342]);
    image.push(0xC0);
    image.push(0x80);
    emu.load(&image).unwrap();
    for _ in 0..4 {
        emu.tick_with(0).unwrap();
    }
    // row 31: columns 63 and 0 (wrapped); row 0 (wrapped): column 63
    let display = emu.get_display();
    assert!(display[31 * 64 + 63]);
    assert!(display[31 * 64]);
    assert!(display[63]);
    assert_eq!(display.iter().filter(|&&px| px).count(), 3);
    assert_eq!(emu.reg(0xF), 0);
    // drawing the same sprite again turns every pixel back off and
    // reports the collision
    emu.tick_with(0).unwrap();
    assert!(emu.get_display().iter().all(|&px| !px));
    assert_eq!(emu.reg(0xF), 1);
}

#[test]
fn test_clear_screen() {
    let mut emu = Emulator::new();
    let mut image = image_of(&[0xA208, 0x6000, 0xD001, 0x00E0]);
    image.push(0xFF);
    emu.load(&image).unwrap();
    for _ in 0..3 {
        emu.tick_with(0).unwrap();
    }
    assert_eq!(emu.get_display().iter().filter(|&&px| px).count(), 8);
    emu.tick_with(0).unwrap();
    assert!(emu.get_display().iter().all(|&px| !px));
}

#[test]
fn test_wait_key_blocks_until_press() {
    let mut emu = Emulator::new();
    emu.load(&[0xF3, 0x0A]).unwrap();
    for _ in 0..5 {
        emu.tick_with(0).unwrap();
        assert_eq!(emu.pc(), 0x200); // net zero advance on every step
    }
    emu.keypress(9, true);
    emu.keypress(7, true);
    emu.tick_with(0).unwrap();
    assert_eq!(emu.pc(), 0x202);
    assert_eq!(emu.reg(3), 7); // the lowest pressed key
}

#[test]
fn test_key_skip_instructions() {
    let mut emu = Emulator::new();
    emu.load(&image_of(&[0x6004, 0xE09E])).unwrap();
    emu.keypress(4, true);
    emu.tick_with(0).unwrap();
    emu.tick_with(0).unwrap();
    assert_eq!(emu.pc(), 0x206); // key 4 down: skip
    let mut emu = Emulator::new();
    emu.load(&image_of(&[0x6004, 0xE0A1])).unwrap();
    emu.keypress(4, true);
    emu.tick_with(0).unwrap();
    emu.tick_with(0).unwrap();
    assert_eq!(emu.pc(), 0x204); // key 4 down: no skip on key-up test
}

#[test]
fn test_keypress_out_of_range_ignored() {
    let mut emu = Emulator::new();
    emu.load(&[0xF0, 0x0A]).unwrap();
    emu.keypress(16, true);
    emu.keypress(1000, true);
    emu.tick_with(0).unwrap();
    assert_eq!(emu.pc(), 0x200); // still waiting: nothing was pressed
}

#[test]
fn test_timers_decrement_and_floor() {
    let mut emu = Emulator::new();
    emu.load(&image_of(&[0x6002, 0xF015, 0x6103, 0xF118])).unwrap();
    for _ in 0..4 {
        emu.tick_with(0).unwrap();
    }
    assert_eq!(emu.delay_timer(), 2);
    assert_eq!(emu.sound_timer(), 3);
    emu.tick_timers();
    assert_eq!(emu.delay_timer(), 1);
    assert_eq!(emu.sound_timer(), 2);
    emu.tick_timers();
    emu.tick_timers();
    assert_eq!(emu.delay_timer(), 0);
    assert_eq!(emu.sound_timer(), 0);
    emu.tick_timers();
    assert_eq!(emu.delay_timer(), 0); // floored, no wrap
    assert_eq!(emu.sound_timer(), 0);
}

#[test]
fn test_random_masked_and_injectable() {
    let mut emu = Emulator::new();
    emu.load(&[0xC0, 0x7B]).unwrap();
    emu.tick_with(0xA5).unwrap();
    assert_eq!(emu.reg(0), 0xA5 & 0x7B); // the injected byte, masked
    // the same injected byte always gives the same result
    let mut emu2 = Emulator::new();
    emu2.load(&[0xC0, 0x7B]).unwrap();
    emu2.tick_with(0xA5).unwrap();
    assert_eq!(emu2.reg(0), emu.reg(0));
    // whatever the generator returns, bits outside the mask stay clear
    let mut emu3 = Emulator::new();
    emu3.load(&[0xC0, 0x0F]).unwrap();
    emu3.tick().unwrap();
    assert_eq!(emu3.reg(0) & 0xF0, 0);
}

#[test]
fn test_ram_accessors_bounds_checked() {
    let mut emu = Emulator::new();
    assert_eq!(emu.read_ram(4096), Err(EmulatorError::MemoryFault(4096)));
    assert_eq!(emu.read_ram(0xFFFF), Err(EmulatorError::MemoryFault(0xFFFF)));
    assert_eq!(emu.write_ram(4096, 1), Err(EmulatorError::MemoryFault(4096)));
    assert_eq!(emu.write_ram(0x300, 0x5A), Ok(()));
    assert_eq!(emu.read_ram(0x300), Ok(0x5A));
}

#[test]
fn test_draw_zero_rows_changes_nothing() {
    let mut emu = Emulator::new();
    emu.load(&image_of(&[0xA20A, 0xD340])).unwrap();
    emu.tick_with(0).unwrap();
    emu.tick_with(0).unwrap();
    assert!(emu.get_display().iter().all(|&px| !px));
    assert_eq!(emu.reg(0xF), 0);
    assert_eq!(emu.pc(), 0x204);
}

#[test]
fn test_memory_fault_on_block_ops_past_end() {
    // a BCD write of three bytes starting at 0xFFE runs past memory
    let mut emu = Emulator::new();
    emu.load(&image_of(&[0xAFFE, 0xF033])).unwrap();
    emu.tick_with(0).unwrap();
    assert_eq!(emu.tick_with(0), Err(EmulatorError::MemoryFault(0xFFE)));
    // a two-row sprite read starting at 0xFFF runs past memory
    let mut emu = Emulator::new();
    emu.load(&image_of(&[0xAFFF, 0xD012])).unwrap();
    emu.tick_with(0).unwrap();
    assert_eq!(emu.tick_with(0), Err(EmulatorError::MemoryFault(0xFFF)));
    assert!(emu.get_display().iter().all(|&px| !px)); // nothing half drawn
    // a register store of v0..v2 starting at 0xFFE runs past memory
    let mut emu = Emulator::new();
    emu.load(&image_of(&[0xAFFE, 0xF255])).unwrap();
    emu.tick_with(0).unwrap();
    assert_eq!(emu.tick_with(0), Err(EmulatorError::MemoryFault(0xFFE)));
    assert_eq!(emu.read_ram(0xFFE), Ok(0)); // nothing half written
}

#[test]
fn test_reset_restores_power_on_state() {
    let mut emu = Emulator::new();
    let mut image = image_of(&[0xA20A, 0x6311, 0x2400, 0x0000, 0x0000]);
    image.push(0xFF);
    emu.load(&image).unwrap();
    emu.keypress(2, true);
    for _ in 0..3 {
        let _ = emu.tick_with(0);
    }
    emu.reset();
    assert_eq!(emu.pc(), 0x200);
    assert_eq!(emu.stack_depth(), 0);
    assert_eq!(emu.index_reg(), 0);
    for x in 0..16 {
        assert_eq!(emu.reg(x), 0);
    }
    assert!(emu.get_display().iter().all(|&px| !px));
    for a in 0..80u16 {
        assert_eq!(emu.read_ram(a), Ok(FONTSET[a as usize]));
    }
    assert_eq!(emu.read_ram(0x200), Ok(0)); // the loaded image is gone
    // the cleared keypad no longer satisfies a wait
    emu.load(&[0xF0, 0x0A]).unwrap();
    emu.tick_with(0).unwrap();
    assert_eq!(emu.pc(), 0x200);
}
