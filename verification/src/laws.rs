//! The machine's stated laws, each proved over the model for every input
//! it speaks of.
//!
//! Decoding itself carries its law in its own contract: `Opcode::try_from`
//! returns exactly `spec_decode` of the word, so decoding is total and two
//! decodings of one word cannot differ.

use vstd::prelude::*;

use crate::constants::{
    FONTSET, FONTSET_SIZE, NUM_KEYS, NUM_REGS, RAM_SIZE, SCREEN_SIZE, STACK_SIZE, START_ADDR,
};
use crate::error::EmulatorError;
use crate::machine::{byte_bit, first_pressed_from, wrap8, Machine};
use crate::opcode::{spec_decode, Opcode};

verus! {

broadcast use vstd::arithmetic::div_mod::lemma_mod_division_less_than_divisor;

/// The wrapped byte value is the mathematical remainder, for every sum
/// or difference of two bytes.
pub proof fn lemma_wrap8_is_mod(s: int)
    requires
        -256 <= s < 512,
    ensures
        wrap8(s) == s % 256,
{
    if s > 255 {
        vstd::arithmetic::div_mod::lemma_fundamental_div_mod_converse_mod(s, 256, 1, s - 256);
    } else if s < 0 {
        vstd::arithmetic::div_mod::lemma_fundamental_div_mod_converse_mod(s, 256, -1, s + 256);
    } else {
        vstd::arithmetic::div_mod::lemma_fundamental_div_mod_converse_mod(s, 256, 0, s);
    }
}

/// Register addition: for all register values, the result register holds
/// the sum modulo 256 and the flag register is 1 exactly when the true
/// sum exceeds 255. (With `x` equal to 15 the wrapped sum overwrites the
/// flag, so the flag claim speaks of the other registers.)
pub proof fn lemma_add_reg_flags(m: Machine, x: usize, y: usize)
    requires
        m.wf(),
        x < NUM_REGS,
        y < NUM_REGS,
        x != 15,
    ensures
        ({
            let a = m.v_reg[x as int];
            let b = m.v_reg[y as int];
            let m2 = m.add_reg_spec(x, y);
            &&& m2.v_reg[x as int] == (a + b) % 256
            &&& (m2.v_reg[15] == 1 <==> a + b > 255)
            &&& (m2.v_reg[15] == 0 <==> a + b <= 255)
        }),
{
    lemma_wrap8_is_mod(m.v_reg[x as int] + m.v_reg[y as int]);
}

/// Register subtraction: for all register values, the flag register is 1
/// exactly when no borrow occurs (`v[x] >= v[y]`), and the result
/// register holds the difference modulo 256.
pub proof fn lemma_sub_reg_flags(m: Machine, x: usize, y: usize)
    requires
        m.wf(),
        x < NUM_REGS,
        y < NUM_REGS,
        x != 15,
    ensures
        ({
            let a = m.v_reg[x as int];
            let b = m.v_reg[y as int];
            let m2 = m.sub_reg_spec(x, y);
            &&& m2.v_reg[x as int] == (a - b) % 256
            &&& (m2.v_reg[15] == 1 <==> a >= b)
            &&& (m2.v_reg[15] == 0 <==> a < b)
        }),
{
    lemma_wrap8_is_mod(m.v_reg[x as int] - m.v_reg[y as int]);
}

/// Reversed subtraction: the same not-borrow convention relative to
/// `v[y] >= v[x]`, with the difference `v[y] - v[x]` modulo 256 in the
/// result register.
pub proof fn lemma_subn_reg_flags(m: Machine, x: usize, y: usize)
    requires
        m.wf(),
        x < NUM_REGS,
        y < NUM_REGS,
        x != 15,
    ensures
        ({
            let a = m.v_reg[x as int];
            let b = m.v_reg[y as int];
            let m2 = m.subn_reg_spec(x, y);
            &&& m2.v_reg[x as int] == (b - a) % 256
            &&& (m2.v_reg[15] == 1 <==> b >= a)
            &&& (m2.v_reg[15] == 0 <==> b < a)
        }),
{
    lemma_wrap8_is_mod(m.v_reg[y as int] - m.v_reg[x as int]);
}

/// Right shift: the flag register keeps the pre-shift bit 0 and the
/// register becomes the logical right shift of its old value.
pub proof fn lemma_shr_flag(m: Machine, x: usize)
    requires
        m.wf(),
        x < NUM_REGS,
        x != 15,
    ensures
        ({
            let v = m.v_reg[x as int];
            let m2 = m.shr_reg_spec(x);
            &&& (m2.v_reg[15] == 1 <==> byte_bit(v, 0))
            &&& (m2.v_reg[15] == 0 <==> !byte_bit(v, 0))
            &&& m2.v_reg[x as int] == v / 2
            &&& m2.v_reg[x as int] == v >> 1u8
        }),
{
    let v = m.v_reg[x as int];
    assert(((v >> 0u8) & 1 == 1) <==> (v % 2 == 1)) by (bit_vector);
    assert(v >> 1u8 == v / 2) by (bit_vector);
}

/// Left shift: the flag register keeps the pre-shift bit 7 and the
/// register becomes the logical left shift (double modulo 256) of its
/// old value.
pub proof fn lemma_shl_flag(m: Machine, x: usize)
    requires
        m.wf(),
        x < NUM_REGS,
        x != 15,
    ensures
        ({
            let v = m.v_reg[x as int];
            let m2 = m.shl_reg_spec(x);
            &&& (m2.v_reg[15] == 1 <==> byte_bit(v, 7))
            &&& (m2.v_reg[15] == 0 <==> !byte_bit(v, 7))
            &&& m2.v_reg[x as int] == (2 * v) % 256
            &&& m2.v_reg[x as int] == v << 1u8
        }),
{
    let v = m.v_reg[x as int];
    assert(((v >> 7u8) & 1 == 1) <==> (v / 128 == 1)) by (bit_vector);
    assert(v << 1u8 == ((v % 128) * 2) as u8) by (bit_vector);
    vstd::arithmetic::div_mod::lemma_fundamental_div_mod(v as int, 128);
    vstd::arithmetic::div_mod::lemma_fundamental_div_mod_converse_mod(
        2 * v,
        256,
        v as int / 128,
        2 * (v as int % 128),
    );
}

/// Drawing the same sprite at the same place twice restores the prior
/// framebuffer exactly, and the second draw reports a collision exactly
/// when the first draw turned some pixel on.
pub proof fn lemma_draw_twice(m: Machine, x: usize, y: usize, n: usize)
    requires
        m.wf(),
        x < NUM_REGS,
        y < NUM_REGS,
        n <= 15,
        x != 15,
        y != 15,
        n > 0 ==> m.i_reg + n <= RAM_SIZE,
    ensures
        ({
            let (m1, r1) = m.draw_spec(x, y, n);
            let (m2, r2) = m1.draw_spec(x, y, n);
            &&& r1 == Ok::<(), EmulatorError>(())
            &&& r2 == Ok::<(), EmulatorError>(())
            &&& m2.screen == m.screen
            &&& (m2.v_reg[15] == 1 <==> exists|p: int|
                0 <= p < SCREEN_SIZE && #[trigger] m.sprite_covers_idx(x, y, n, p)
                    && !m.screen[p])
        }),
{
    let (m1, r1) = m.draw_spec(x, y, n);
    let (m2, r2) = m1.draw_spec(x, y, n);
    // The second draw reads the same sprite: memory, index register and
    // the two coordinate registers are untouched by the first.
    assert forall|p: int|
        0 <= p < SCREEN_SIZE implies (#[trigger] m1.sprite_covers_idx(x, y, n, p))
        == m.sprite_covers_idx(x, y, n, p) by {}
    assert(m2.screen =~= m.screen);
    if m1.sprite_collides(x, y, n) {
        let p = choose|p: int|
            0 <= p < SCREEN_SIZE && #[trigger] m1.sprite_covers_idx(x, y, n, p) && m1.screen[p];
        assert(m.sprite_covers_idx(x, y, n, p) && !m.screen[p]);
    }
    if exists|p: int|
        0 <= p < SCREEN_SIZE && #[trigger] m.sprite_covers_idx(x, y, n, p) && !m.screen[p] {
        let p = choose|p: int|
            0 <= p < SCREEN_SIZE && #[trigger] m.sprite_covers_idx(x, y, n, p) && !m.screen[p];
        assert(m1.sprite_covers_idx(x, y, n, p) && m1.screen[p]);
        assert(m1.sprite_collides(x, y, n));
    }
}

/// A call followed by a return brings the program counter back to its
/// value just after the call instruction and leaves the stack depth
/// unchanged net, whatever the program counter did in between.
pub proof fn lemma_call_return_round_trip(m: Machine, addr: u16, pc2: u16)
    requires
        m.wf(),
        m.sp < STACK_SIZE,
    ensures
        ({
            let (m1, r1) = m.call_spec(addr);
            let (m2, r2) = (Machine { pc: pc2, ..m1 }).return_spec();
            &&& r1 == Ok::<(), EmulatorError>(())
            &&& r2 == Ok::<(), EmulatorError>(())
            &&& m2.pc == m.pc
            &&& m2.sp == m.sp
        }),
{
}

/// Below position `k` every key is up, so scanning from `k` finds
/// nothing.
proof fn lemma_first_pressed_none(keys: Seq<bool>, k: int)
    requires
        keys.len() == NUM_KEYS,
        forall|j: int| k <= j < NUM_KEYS ==> !keys[j],
    ensures
        first_pressed_from(keys, k) == None::<u8>,
    decreases NUM_KEYS - k,
{
    if 0 <= k < NUM_KEYS {
        lemma_first_pressed_none(keys, k + 1);
    }
}

/// Scanning from `k` finds the pressed key `k0` when nothing between is
/// pressed.
proof fn lemma_first_pressed_some(keys: Seq<bool>, k: int, k0: int)
    requires
        keys.len() == NUM_KEYS,
        0 <= k <= k0 < NUM_KEYS,
        keys[k0],
        forall|j: int| k <= j < k0 ==> !keys[j],
    ensures
        first_pressed_from(keys, k) == Some(k0 as u8),
    decreases k0 - k,
{
    if k < k0 {
        lemma_first_pressed_some(keys, k + 1, k0);
    }
}

/// With no key pressed, a step on a wait-key instruction leaves the
/// machine exactly as it was: any number of further steps leaves the
/// program counter at the same address.
pub proof fn lemma_wait_key_blocks(m: Machine, x: usize, rnd: u8)
    requires
        m.wf(),
        m.pc + 1 < RAM_SIZE,
        spec_decode(m.fetch_word()) == Some(Opcode::WaitKeyPress { x }),
        forall|k: int| 0 <= k < NUM_KEYS ==> !m.keys[k],
    ensures
        m.step_spec(rnd) == (m, Ok::<(), EmulatorError>(())),
{
    lemma_first_pressed_none(m.keys, 0);
    assert(m.step_spec(rnd).0 =~= m);
}

/// With a key pressed, a step on a wait-key instruction advances the
/// program counter normally and latches the lowest pressed key into the
/// target register.
pub proof fn lemma_wait_key_latches(m: Machine, x: usize, rnd: u8, k0: int)
    requires
        m.wf(),
        x < NUM_REGS,
        m.pc + 1 < RAM_SIZE,
        spec_decode(m.fetch_word()) == Some(Opcode::WaitKeyPress { x }),
        0 <= k0 < NUM_KEYS,
        m.keys[k0],
        forall|j: int| 0 <= j < k0 ==> !m.keys[j],
    ensures
        m.step_spec(rnd) == (
            Machine { pc: (m.pc + 2) as u16, v_reg: m.v_reg.update(x as int, k0 as u8), ..m },
            Ok::<(), EmulatorError>(()),
        ),
{
    lemma_first_pressed_some(m.keys, 0, k0);
    assert(m.step_spec(rnd).0 =~= (Machine {
        pc: (m.pc + 2) as u16,
        v_reg: m.v_reg.update(x as int, k0 as u8),
        ..m
    }));
}

/// The power-on state, which `new` establishes and `reset` restores
/// exactly: program counter at the start address, dark framebuffer,
/// empty stack, the font table in the first eighty bytes of memory and
/// zeroes everywhere else.
pub proof fn lemma_power_on_state()
    ensures
        Machine::power_on().wf(),
        Machine::power_on().pc == START_ADDR,
        Machine::power_on().sp == 0,
        Machine::power_on().i_reg == 0,
        Machine::power_on().delay_timer == 0,
        Machine::power_on().sound_timer == 0,
        forall|p: int| 0 <= p < SCREEN_SIZE ==> !Machine::power_on().screen[p],
        forall|a: int| 0 <= a < FONTSET_SIZE ==> Machine::power_on().ram[a] == FONTSET@[a],
        forall|a: int| FONTSET_SIZE <= a < RAM_SIZE ==> Machine::power_on().ram[a] == 0u8,
        forall|r: int| 0 <= r < NUM_REGS ==> Machine::power_on().v_reg[r] == 0u8,
        forall|k: int| 0 <= k < NUM_KEYS ==> !Machine::power_on().keys[k],
{
}

} // verus!
