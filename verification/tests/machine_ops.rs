use crust8_core::Emulator;

/// Assemble big-endian instruction words into a program image.
fn prog(words: &[u16]) -> Vec<u8> {
    let mut image = Vec::new();
    for w in words {
        image.push((w >> 8) as u8);
        image.push((w & 0xFF) as u8);
    }
    image
}

/// Load a program and run `n` deterministic steps.
fn run_n(words: &[u16], n: usize) -> Emulator {
    let mut emu = Emulator::new();
    emu.load(&prog(words)).unwrap();
    for _ in 0..n {
        emu.tick_with(0).unwrap();
    }
    emu
}

#[test]
fn test_load_imm_and_add_imm() {
    let emu = run_n(&[0x60FE, 0x7003], 2);
    assert_eq!(emu.reg(0), 0x01); // 0xFE + 3 wraps to 1
    let emu = run_n(&[0x6410, 0x7420], 2);
    assert_eq!(emu.reg(4), 0x30);
}

#[test]
fn test_move_or_and_xor() {
    let emu = run_n(&[0x600C, 0x610A, 0x8011], 3);
    assert_eq!(emu.reg(0), 0x0E);
    let emu = run_n(&[0x600C, 0x610A, 0x8012], 3);
    assert_eq!(emu.reg(0), 0x08);
    let emu = run_n(&[0x600C, 0x610A, 0x8013], 3);
    assert_eq!(emu.reg(0), 0x06);
    let emu = run_n(&[0x610A, 0x8010], 2);
    assert_eq!(emu.reg(0), 0x0A);
}

#[test]
fn test_add_reg_no_carry() {
    let emu = run_n(&[0x6014, 0x611E, 0x8014], 3);
    assert_eq!(emu.reg(0), 50);
    assert_eq!(emu.reg(0xF), 0);
}

#[test]
fn test_add_reg_with_carry() {
    let emu = run_n(&[0x60C8, 0x6164, 0x8014], 3);
    assert_eq!(emu.reg(0), 44); // (200 + 100) mod 256
    assert_eq!(emu.reg(0xF), 1);
}

#[test]
fn test_sub_reg_no_borrow() {
    let emu = run_n(&[0x6032, 0x6114, 0x8015], 3);
    assert_eq!(emu.reg(0), 30);
    assert_eq!(emu.reg(0xF), 1);
}

#[test]
fn test_sub_reg_equal_values() {
    // no borrow when the operands are equal: the flag is still 1
    let emu = run_n(&[0x6032, 0x6132, 0x8015], 3);
    assert_eq!(emu.reg(0), 0);
    assert_eq!(emu.reg(0xF), 1);
}

#[test]
fn test_sub_reg_with_borrow() {
    let emu = run_n(&[0x6014, 0x6132, 0x8015], 3);
    assert_eq!(emu.reg(0), 226); // (20 - 50) mod 256
    assert_eq!(emu.reg(0xF), 0);
}

#[test]
fn test_subn_reg() {
    let emu = run_n(&[0x6014, 0x6132, 0x8017], 3);
    assert_eq!(emu.reg(0), 30); // 50 - 20
    assert_eq!(emu.reg(0xF), 1);
    let emu = run_n(&[0x6032, 0x6114, 0x8017], 3);
    assert_eq!(emu.reg(0), 226); // (20 - 50) mod 256
    assert_eq!(emu.reg(0xF), 0);
}

#[test]
fn test_shr_keeps_low_bit() {
    let emu = run_n(&[0x6005, 0x8006], 2);
    assert_eq!(emu.reg(0), 2);
    assert_eq!(emu.reg(0xF), 1);
    let emu = run_n(&[0x6004, 0x8006], 2);
    assert_eq!(emu.reg(0), 2);
    assert_eq!(emu.reg(0xF), 0);
}

#[test]
fn test_shl_keeps_high_bit() {
    let emu = run_n(&[0x6081, 0x800E], 2);
    assert_eq!(emu.reg(0), 0x02);
    assert_eq!(emu.reg(0xF), 1);
    let emu = run_n(&[0x6041, 0x800E], 2);
    assert_eq!(emu.reg(0), 0x82);
    assert_eq!(emu.reg(0xF), 0);
}

#[test]
fn test_skip_if_eq_byte() {
    let emu = run_n(&[0x6005, 0x3005], 2);
    assert_eq!(emu.pc(), 0x206); // condition holds: the next word is skipped
    let emu = run_n(&[0x6005, 0x3006], 2);
    assert_eq!(emu.pc(), 0x204);
}

#[test]
fn test_skip_if_neq_byte() {
    let emu = run_n(&[0x6005, 0x4005], 2);
    assert_eq!(emu.pc(), 0x204);
    let emu = run_n(&[0x6005, 0x4006], 2);
    assert_eq!(emu.pc(), 0x206);
}

#[test]
fn test_skip_if_reg_compare() {
    let emu = run_n(&[0x6007, 0x6107, 0x5010], 3);
    assert_eq!(emu.pc(), 0x208);
    let emu = run_n(&[0x6007, 0x6108, 0x5010], 3);
    assert_eq!(emu.pc(), 0x206);
    let emu = run_n(&[0x6007, 0x6108, 0x9010], 3);
    assert_eq!(emu.pc(), 0x208);
    let emu = run_n(&[0x6007, 0x6107, 0x9010], 3);
    assert_eq!(emu.pc(), 0x206);
}

#[test]
fn test_jump() {
    let emu = run_n(&[0x1ABC], 1);
    assert_eq!(emu.pc(), 0xABC);
}

#[test]
fn test_jump_plus_v0() {
    let emu = run_n(&[0x600A, 0xB300], 2);
    assert_eq!(emu.pc(), 0x30A);
}

#[test]
fn test_index_register_ops() {
    let emu = run_n(&[0xA123], 1);
    assert_eq!(emu.index_reg(), 0x123);
    let emu = run_n(&[0x6005, 0xA100, 0xF01E], 3);
    assert_eq!(emu.index_reg(), 0x105);
}

#[test]
fn test_glyph_address() {
    let emu = run_n(&[0x600A, 0xF029], 2);
    assert_eq!(emu.index_reg(), 50); // glyph for digit 10 sits at 10 * 5
    assert_eq!(emu.read_ram(50), Ok(0xF0));
}

#[test]
fn test_store_bcd() {
    let emu = run_n(&[0x60EA, 0xA300, 0xF033], 3);
    assert_eq!(emu.read_ram(0x300), Ok(2));
    assert_eq!(emu.read_ram(0x301), Ok(3));
    assert_eq!(emu.read_ram(0x302), Ok(4));
}

#[test]
fn test_store_and_load_regs() {
    let emu = run_n(
        &[0x600A, 0x6114, 0x621E, 0xA350, 0xF255, 0x6000, 0x6100, 0x6200, 0xF265],
        9,
    );
    assert_eq!(emu.read_ram(0x350), Ok(10));
    assert_eq!(emu.read_ram(0x351), Ok(20));
    assert_eq!(emu.read_ram(0x352), Ok(30));
    assert_eq!(emu.reg(0), 10);
    assert_eq!(emu.reg(1), 20);
    assert_eq!(emu.reg(2), 30);
}

#[test]
fn test_read_delay_into_reg() {
    let emu = run_n(&[0x603C, 0xF015, 0xF107], 3);
    assert_eq!(emu.reg(1), 60);
}
