//! The mathematical model of the machine and of every instruction's effect.
//!
//! `Machine` mirrors the executable state with sequences in place of
//! arrays. Each instruction has a spec function giving its exact effect;
//! `step_spec` composes fetch, decode and execution into the effect of one
//! whole step. The executable engine in `emulator` is proved to follow
//! these functions step for step.

use vstd::prelude::*;

use crate::constants::{
    FONTSET, FONTSET_SIZE, NUM_KEYS, NUM_REGS, RAM_SIZE, SCREEN_HEIGHT, SCREEN_SIZE, SCREEN_WIDTH,
    STACK_SIZE, START_ADDR,
};
use crate::error::EmulatorError;
use crate::opcode::{spec_decode, Opcode};

verus! {

broadcast use vstd::arithmetic::div_mod::lemma_mod_division_less_than_divisor;

/// An 8-bit value reduced modulo 256, defined for sums and differences of
/// two bytes.
pub open spec fn wrap8(n: int) -> u8 {
    if n > 255 {
        (n - 256) as u8
    } else if n < 0 {
        (n + 256) as u8
    } else {
        n as u8
    }
}

/// A 16-bit value reduced modulo 65536, defined for sums and differences
/// that stay within one wrap of the range.
pub open spec fn wrap16(n: int) -> u16 {
    if n > 0xFFFF {
        (n - 0x10000) as u16
    } else if n < 0 {
        (n + 0x10000) as u16
    } else {
        n as u16
    }
}

/// Whether bit `k` (0 = least significant) of `b` is set.
pub open spec fn byte_bit(b: u8, k: u8) -> bool {
    (b >> k) & 1 == 1
}

/// The lowest pressed key at or above position `k`, if any.
pub open spec fn first_pressed_from(keys: Seq<bool>, k: int) -> Option<u8>
    decreases NUM_KEYS - k,
{
    if k < 0 || k >= NUM_KEYS {
        None
    } else if keys[k] {
        Some(k as u8)
    } else {
        first_pressed_from(keys, k + 1)
    }
}

/// The machine state: program counter, memory, framebuffer, registers,
/// call stack, keypad and timers.
#[verifier::ext_equal]
pub struct Machine {
    pub pc: u16,
    pub ram: Seq<u8>,
    pub screen: Seq<bool>,
    pub v_reg: Seq<u8>,
    pub i_reg: u16,
    pub sp: u16,
    pub stack: Seq<u16>,
    pub keys: Seq<bool>,
    pub delay_timer: u8,
    pub sound_timer: u8,
}

impl Machine {
    /// Well-formed machine state: every store has its fixed size and the
    /// stack depth stays within the stack.
    pub open spec fn wf(self) -> bool {
        &&& self.ram.len() == RAM_SIZE
        &&& self.screen.len() == SCREEN_SIZE
        &&& self.v_reg.len() == NUM_REGS
        &&& self.stack.len() == STACK_SIZE
        &&& self.keys.len() == NUM_KEYS
        &&& self.sp <= STACK_SIZE
    }

    /// The power-on state: font table in low memory, program counter at
    /// the program start address, everything else zeroed.
    pub open spec fn power_on() -> Machine {
        Machine {
            pc: START_ADDR,
            ram: Seq::new(
                RAM_SIZE as nat,
                |a: int| if a < FONTSET_SIZE { FONTSET@[a] } else { 0u8 },
            ),
            screen: Seq::new(SCREEN_SIZE as nat, |p: int| false),
            v_reg: Seq::new(NUM_REGS as nat, |r: int| 0u8),
            i_reg: 0u16,
            sp: 0u16,
            stack: Seq::new(STACK_SIZE as nat, |s: int| 0u16),
            keys: Seq::new(NUM_KEYS as nat, |k: int| false),
            delay_timer: 0u8,
            sound_timer: 0u8,
        }
    }

    /// Whether key number `k` (an arbitrary register value) counts as
    /// pressed: key numbers outside the pad never do.
    pub open spec fn key_down(self, k: u8) -> bool {
        k < NUM_KEYS && self.keys[k as int]
    }

    /// The program counter moved past the following instruction when
    /// `cond` holds, untouched otherwise.
    pub open spec fn skip_if(self, cond: bool) -> Machine {
        if cond {
            Machine { pc: wrap16(self.pc + 2), ..self }
        } else {
            self
        }
    }

    // Effects of the single instructions. Each takes the state with the
    // program counter already moved past the instruction word.

    pub open spec fn clear_screen_spec(self) -> Machine {
        Machine { screen: Seq::new(SCREEN_SIZE as nat, |p: int| false), ..self }
    }

    pub open spec fn return_spec(self) -> (Machine, Result<(), EmulatorError>) {
        if self.sp == 0 {
            (self, Err(EmulatorError::StackUnderflow))
        } else {
            (
                Machine {
                    pc: self.stack[self.sp - 1],
                    sp: (self.sp - 1) as u16,
                    ..self
                },
                Ok(()),
            )
        }
    }

    pub open spec fn jump_spec(self, addr: u16) -> Machine {
        Machine { pc: addr, ..self }
    }

    pub open spec fn call_spec(self, addr: u16) -> (Machine, Result<(), EmulatorError>) {
        if self.sp >= STACK_SIZE {
            (self, Err(EmulatorError::StackOverflow))
        } else {
            (
                Machine {
                    stack: self.stack.update(self.sp as int, self.pc),
                    sp: (self.sp + 1) as u16,
                    pc: addr,
                    ..self
                },
                Ok(()),
            )
        }
    }

    pub open spec fn skip_if_eq_byte_spec(self, x: usize, byte: u8) -> Machine {
        self.skip_if(self.v_reg[x as int] == byte)
    }

    pub open spec fn skip_if_neq_byte_spec(self, x: usize, byte: u8) -> Machine {
        self.skip_if(self.v_reg[x as int] != byte)
    }

    pub open spec fn skip_if_eq_reg_spec(self, x: usize, y: usize) -> Machine {
        self.skip_if(self.v_reg[x as int] == self.v_reg[y as int])
    }

    pub open spec fn skip_if_neq_reg_spec(self, x: usize, y: usize) -> Machine {
        self.skip_if(self.v_reg[x as int] != self.v_reg[y as int])
    }

    pub open spec fn set_reg_spec(self, x: usize, byte: u8) -> Machine {
        Machine { v_reg: self.v_reg.update(x as int, byte), ..self }
    }

    pub open spec fn add_byte_spec(self, x: usize, byte: u8) -> Machine {
        Machine {
            v_reg: self.v_reg.update(x as int, wrap8(self.v_reg[x as int] + byte)),
            ..self
        }
    }

    pub open spec fn set_reg_to_reg_spec(self, x: usize, y: usize) -> Machine {
        Machine { v_reg: self.v_reg.update(x as int, self.v_reg[y as int]), ..self }
    }

    pub open spec fn or_reg_spec(self, x: usize, y: usize) -> Machine {
        Machine {
            v_reg: self.v_reg.update(x as int, self.v_reg[x as int] | self.v_reg[y as int]),
            ..self
        }
    }

    pub open spec fn and_reg_spec(self, x: usize, y: usize) -> Machine {
        Machine {
            v_reg: self.v_reg.update(x as int, self.v_reg[x as int] & self.v_reg[y as int]),
            ..self
        }
    }

    pub open spec fn xor_reg_spec(self, x: usize, y: usize) -> Machine {
        Machine {
            v_reg: self.v_reg.update(x as int, self.v_reg[x as int] ^ self.v_reg[y as int]),
            ..self
        }
    }

    /// Sum with carry: the flag register reports 8-bit overflow, then the
    /// wrapped sum lands in `v[x]` (overwriting the flag when `x` is 15).
    pub open spec fn add_reg_spec(self, x: usize, y: usize) -> Machine {
        let sum: int = self.v_reg[x as int] + self.v_reg[y as int];
        let flag: u8 = if sum > 255 { 1u8 } else { 0u8 };
        Machine {
            v_reg: self.v_reg.update(15, flag).update(x as int, wrap8(sum)),
            ..self
        }
    }

    /// Difference `v[x] - v[y]` with a not-borrow flag: 1 exactly when
    /// `v[x] >= v[y]`.
    pub open spec fn sub_reg_spec(self, x: usize, y: usize) -> Machine {
        let diff: int = self.v_reg[x as int] - self.v_reg[y as int];
        let flag: u8 = if self.v_reg[x as int] >= self.v_reg[y as int] { 1u8 } else { 0u8 };
        Machine {
            v_reg: self.v_reg.update(15, flag).update(x as int, wrap8(diff)),
            ..self
        }
    }

    /// Difference `v[y] - v[x]` with the same not-borrow convention
    /// relative to `v[y] >= v[x]`.
    pub open spec fn subn_reg_spec(self, x: usize, y: usize) -> Machine {
        let diff: int = self.v_reg[y as int] - self.v_reg[x as int];
        let flag: u8 = if self.v_reg[y as int] >= self.v_reg[x as int] { 1u8 } else { 0u8 };
        Machine {
            v_reg: self.v_reg.update(15, flag).update(x as int, wrap8(diff)),
            ..self
        }
    }

    /// Right shift by one: the flag keeps the bit shifted out (the old
    /// least significant bit), `v[x]` becomes its old value halved.
    pub open spec fn shr_reg_spec(self, x: usize) -> Machine {
        let flag: u8 = (self.v_reg[x as int] % 2) as u8;
        Machine {
            v_reg: self.v_reg.update(15, flag).update(x as int, (self.v_reg[x as int] / 2) as u8),
            ..self
        }
    }

    /// Left shift by one: the flag keeps the bit shifted out (the old most
    /// significant bit), `v[x]` becomes its old value doubled modulo 256.
    pub open spec fn shl_reg_spec(self, x: usize) -> Machine {
        let flag: u8 = (self.v_reg[x as int] / 128) as u8;
        Machine {
            v_reg: self.v_reg.update(15, flag).update(
                x as int,
                ((self.v_reg[x as int] % 128) * 2) as u8,
            ),
            ..self
        }
    }

    pub open spec fn set_i_spec(self, addr: u16) -> Machine {
        Machine { i_reg: addr, ..self }
    }

    pub open spec fn jump_v0_spec(self, addr: u16) -> Machine {
        Machine { pc: wrap16(addr + self.v_reg[0]), ..self }
    }

    pub open spec fn rnd_spec(self, x: usize, byte: u8, rnd: u8) -> Machine {
        Machine { v_reg: self.v_reg.update(x as int, rnd & byte), ..self }
    }

    pub open spec fn skip_if_key_spec(self, x: usize) -> Machine {
        self.skip_if(self.key_down(self.v_reg[x as int]))
    }

    pub open spec fn skip_if_no_key_spec(self, x: usize) -> Machine {
        self.skip_if(!self.key_down(self.v_reg[x as int]))
    }

    pub open spec fn read_delay_spec(self, x: usize) -> Machine {
        Machine { v_reg: self.v_reg.update(x as int, self.delay_timer), ..self }
    }

    /// Wait for a key: with no key pressed the program counter rewinds
    /// onto the instruction itself so the next step re-decodes it; with a
    /// key pressed the lowest pressed key number lands in `v[x]`.
    pub open spec fn wait_key_spec(self, x: usize) -> Machine {
        match first_pressed_from(self.keys, 0) {
            Some(k) => Machine { v_reg: self.v_reg.update(x as int, k), ..self },
            None => Machine { pc: wrap16(self.pc - 2), ..self },
        }
    }

    pub open spec fn write_delay_spec(self, x: usize) -> Machine {
        Machine { delay_timer: self.v_reg[x as int], ..self }
    }

    pub open spec fn write_sound_spec(self, x: usize) -> Machine {
        Machine { sound_timer: self.v_reg[x as int], ..self }
    }

    pub open spec fn add_i_spec(self, x: usize) -> Machine {
        Machine { i_reg: wrap16(self.i_reg + self.v_reg[x as int]), ..self }
    }

    pub open spec fn glyph_addr_spec(self, x: usize) -> Machine {
        Machine { i_reg: (self.v_reg[x as int] * 5) as u16, ..self }
    }

    /// Three decimal digits of `v[x]` written to memory at the index
    /// register: hundreds, tens, ones.
    pub open spec fn store_bcd_spec(self, x: usize) -> (Machine, Result<(), EmulatorError>) {
        if self.i_reg + 2 >= RAM_SIZE {
            (self, Err(EmulatorError::MemoryFault(self.i_reg)))
        } else {
            let val: u8 = self.v_reg[x as int];
            (
                Machine {
                    ram: self.ram
                        .update(self.i_reg as int, (val / 100) as u8)
                        .update(self.i_reg + 1, ((val / 10) % 10) as u8)
                        .update(self.i_reg + 2, (val % 10) as u8),
                    ..self
                },
                Ok(()),
            )
        }
    }

    /// Registers `v[0]` through `v[x]` copied into memory at the index
    /// register.
    pub open spec fn store_regs_spec(self, x: usize) -> (Machine, Result<(), EmulatorError>) {
        if self.i_reg + x >= RAM_SIZE {
            (self, Err(EmulatorError::MemoryFault(self.i_reg)))
        } else {
            (
                Machine {
                    ram: Seq::new(
                        RAM_SIZE as nat,
                        |a: int| if self.i_reg <= a <= self.i_reg + x {
                            self.v_reg[a - self.i_reg]
                        } else {
                            self.ram[a]
                        },
                    ),
                    ..self
                },
                Ok(()),
            )
        }
    }

    /// Memory at the index register copied into registers `v[0]` through
    /// `v[x]`.
    pub open spec fn load_regs_spec(self, x: usize) -> (Machine, Result<(), EmulatorError>) {
        if self.i_reg + x >= RAM_SIZE {
            (self, Err(EmulatorError::MemoryFault(self.i_reg)))
        } else {
            (
                Machine {
                    v_reg: Seq::new(
                        NUM_REGS as nat,
                        |r: int| if r <= x {
                            self.ram[self.i_reg + r]
                        } else {
                            self.v_reg[r]
                        },
                    ),
                    ..self
                },
                Ok(()),
            )
        }
    }

    /// Whether the sprite of height `n` drawn from registers `x`, `y`
    /// covers the pixel at column `px`, row `py` with a set sprite bit.
    /// Both axes wrap, so the sprite row and column that could reach the
    /// pixel are uniquely determined by the pixel's coordinates.
    pub open spec fn sprite_covers(self, x: usize, y: usize, n: usize, px: int, py: int) -> bool {
        let vx: int = self.v_reg[x as int] as int;
        let vy: int = self.v_reg[y as int] as int;
        let col: int = (px - vx) % (SCREEN_WIDTH as int);
        let row: int = (py - vy) % (SCREEN_HEIGHT as int);
        &&& col < 8
        &&& row < n
        &&& byte_bit(self.ram[self.i_reg + row], (7 - col) as u8)
    }

    /// `sprite_covers` read through a row-major framebuffer index.
    pub open spec fn sprite_covers_idx(self, x: usize, y: usize, n: usize, p: int) -> bool {
        self.sprite_covers(x, y, n, p % (SCREEN_WIDTH as int), p / (SCREEN_WIDTH as int))
    }

    /// Whether drawing the sprite turns some lit pixel off.
    pub open spec fn sprite_collides(self, x: usize, y: usize, n: usize) -> bool {
        exists|p: int|
            0 <= p < SCREEN_SIZE && #[trigger] self.sprite_covers_idx(x, y, n, p) && self.screen[p]
    }

    /// Draw: every covered pixel is toggled, and the flag register
    /// reports whether any toggle turned a lit pixel off. The sprite's
    /// `n` bytes are read from memory at the index register; a read past
    /// memory is a fault that leaves the state untouched.
    pub open spec fn draw_spec(self, x: usize, y: usize, n: usize) -> (
        Machine,
        Result<(), EmulatorError>,
    ) {
        if n > 0 && self.i_reg + n > RAM_SIZE {
            (self, Err(EmulatorError::MemoryFault(self.i_reg)))
        } else {
            (
                Machine {
                    screen: Seq::new(
                        SCREEN_SIZE as nat,
                        |p: int| self.screen[p] != self.sprite_covers_idx(x, y, n, p),
                    ),
                    v_reg: self.v_reg.update(
                        15,
                        if self.sprite_collides(x, y, n) { 1u8 } else { 0u8 },
                    ),
                    ..self
                },
                Ok(()),
            )
        }
    }

    /// The effect of one decoded instruction on the state whose program
    /// counter already points past the instruction word.
    pub open spec fn exec_op(self, op: Opcode, rnd: u8) -> (Machine, Result<(), EmulatorError>) {
        match op {
            Opcode::ClearScreen => (self.clear_screen_spec(), Ok(())),
            Opcode::ReturnSubroutine => self.return_spec(),
            Opcode::Jump(addr) => (self.jump_spec(addr), Ok(())),
            Opcode::Call(addr) => self.call_spec(addr),
            Opcode::SkipIfEqByte { x, byte } => (self.skip_if_eq_byte_spec(x, byte), Ok(())),
            Opcode::SkipIfNeqByte { x, byte } => (self.skip_if_neq_byte_spec(x, byte), Ok(())),
            Opcode::SkipIfEqReg { x, y } => (self.skip_if_eq_reg_spec(x, y), Ok(())),
            Opcode::SetReg { x, byte } => (self.set_reg_spec(x, byte), Ok(())),
            Opcode::AddByteToReg { x, byte } => (self.add_byte_spec(x, byte), Ok(())),
            Opcode::SetRegToReg { x, y } => (self.set_reg_to_reg_spec(x, y), Ok(())),
            Opcode::OrReg { x, y } => (self.or_reg_spec(x, y), Ok(())),
            Opcode::AndReg { x, y } => (self.and_reg_spec(x, y), Ok(())),
            Opcode::XorReg { x, y } => (self.xor_reg_spec(x, y), Ok(())),
            Opcode::AddRegToReg { x, y } => (self.add_reg_spec(x, y), Ok(())),
            Opcode::SubRegFromReg { x, y } => (self.sub_reg_spec(x, y), Ok(())),
            Opcode::ShrReg { x } => (self.shr_reg_spec(x), Ok(())),
            Opcode::SubnRegFromReg { x, y } => (self.subn_reg_spec(x, y), Ok(())),
            Opcode::ShlReg { x } => (self.shl_reg_spec(x), Ok(())),
            Opcode::SkipIfNeqReg { x, y } => (self.skip_if_neq_reg_spec(x, y), Ok(())),
            Opcode::SetI(addr) => (self.set_i_spec(addr), Ok(())),
            Opcode::JumpV0(addr) => (self.jump_v0_spec(addr), Ok(())),
            Opcode::RndAndByte { x, byte } => (self.rnd_spec(x, byte, rnd), Ok(())),
            Opcode::DrawSprite { x, y, n } => self.draw_spec(x, y, n),
            Opcode::SkipIfKeyPressed { x } => (self.skip_if_key_spec(x), Ok(())),
            Opcode::SkipIfKeyNotPressed { x } => (self.skip_if_no_key_spec(x), Ok(())),
            Opcode::SetRegToDelayTimer { x } => (self.read_delay_spec(x), Ok(())),
            Opcode::WaitKeyPress { x } => (self.wait_key_spec(x), Ok(())),
            Opcode::SetDelayTimer { x } => (self.write_delay_spec(x), Ok(())),
            Opcode::SetSoundTimer { x } => (self.write_sound_spec(x), Ok(())),
            Opcode::AddRegToI { x } => (self.add_i_spec(x), Ok(())),
            Opcode::SetIToSpriteAddr { x } => (self.glyph_addr_spec(x), Ok(())),
            Opcode::StoreBCD { x } => self.store_bcd_spec(x),
            Opcode::StoreRegs { x } => self.store_regs_spec(x),
            Opcode::LoadRegs { x } => self.load_regs_spec(x),
        }
    }

    /// The big-endian word under the program counter.
    pub open spec fn fetch_word(self) -> u16 {
        (self.ram[self.pc as int] * 256 + self.ram[self.pc + 1]) as u16
    }

    /// Fetch: the big-endian word at the program counter, which then
    /// moves past it. A fetch outside memory is a fault that leaves the
    /// state untouched.
    pub open spec fn fetch_spec(self) -> (Machine, Result<u16, EmulatorError>) {
        if self.pc + 1 >= RAM_SIZE {
            (self, Err(EmulatorError::MemoryFault(self.pc)))
        } else {
            (Machine { pc: (self.pc + 2) as u16, ..self }, Ok(self.fetch_word()))
        }
    }

    /// The effect of decoding and executing an already fetched word.
    pub open spec fn exec_word(self, w: u16, rnd: u8) -> (Machine, Result<(), EmulatorError>) {
        match spec_decode(w) {
            Some(op) => self.exec_op(op, rnd),
            None => (self, Err(EmulatorError::UnknownOpcode(w))),
        }
    }

    /// One whole step: fetch, decode, execute, with `rnd` as the byte a
    /// `RndAndByte` instruction would consume. A fetch fault leaves the
    /// state untouched; later failures leave it as the fetch left it.
    pub open spec fn step_spec(self, rnd: u8) -> (Machine, Result<(), EmulatorError>) {
        let fetched = self.fetch_spec();
        match fetched.1 {
            Err(e) => (self, Err(e)),
            Ok(w) => fetched.0.exec_word(w, rnd),
        }
    }

    /// The part of the sprite already applied when the draw loop stands
    /// at sprite row `row`, column `col`: the pixel's unique sprite
    /// coordinates come lexicographically earlier.
    pub open spec fn sprite_covers_before(
        self,
        x: usize,
        y: usize,
        n: usize,
        row: int,
        col: int,
        p: int,
    ) -> bool {
        let px: int = p % (SCREEN_WIDTH as int);
        let py: int = p / (SCREEN_WIDTH as int);
        let vx: int = self.v_reg[x as int] as int;
        let vy: int = self.v_reg[y as int] as int;
        let c0: int = (px - vx) % (SCREEN_WIDTH as int);
        let r0: int = (py - vy) % (SCREEN_HEIGHT as int);
        &&& c0 < 8
        &&& r0 < n
        &&& (r0 < row || (r0 == row && c0 < col))
        &&& byte_bit(self.ram[self.i_reg + r0], (7 - c0) as u8)
    }

    /// The draw loop's invariant: `cur` is `pre` with the sprite part
    /// before (`row`, `col`) applied to the framebuffer and the flag
    /// register reporting the collisions seen so far.
    pub open spec fn draw_partial(
        pre: Machine,
        cur: Machine,
        x: usize,
        y: usize,
        n: usize,
        row: int,
        col: int,
    ) -> bool {
        &&& cur.screen.len() == SCREEN_SIZE
        &&& forall|p: int|
            0 <= p < SCREEN_SIZE ==> cur.screen[p] == (pre.screen[p]
                != #[trigger] pre.sprite_covers_before(x, y, n, row, col, p))
        &&& cur.v_reg == pre.v_reg.update(
            15,
            if exists|p: int|
                0 <= p < SCREEN_SIZE && #[trigger] pre.sprite_covers_before(x, y, n, row, col, p)
                    && pre.screen[p] {
                1u8
            } else {
                0u8
            },
        )
        &&& cur == (Machine { screen: cur.screen, v_reg: cur.v_reg, ..pre })
    }
}

/// On a toroidal axis of width `w`, the cell reached from `v` after `c`
/// steps is the unique cell whose backward distance to `v` is `c`.
pub proof fn lemma_coord_roundtrip(v: int, c: int, w: int)
    requires
        0 < w,
        0 <= v,
        0 <= c < w,
    ensures
        0 <= (v + c) % w < w,
        ((v + c) % w - v) % w == c,
{
    vstd::arithmetic::div_mod::lemma_fundamental_div_mod(v + c, w);
    let q: int = (v + c) / w;
    let t: int = (v + c) % w;
    assert(t - v == (-q) * w + c) by {
        vstd::arithmetic::mul::lemma_mul_unary_negation(q, w);
        vstd::arithmetic::mul::lemma_mul_is_commutative(w, q);
    }
    vstd::arithmetic::div_mod::lemma_fundamental_div_mod_converse_mod(t - v, w, -q, c);
}

/// The converse: a cell whose backward distance to `v` is `c` is the
/// cell reached from `v` after `c` steps.
pub proof fn lemma_coord_unique(v: int, c: int, w: int, px: int)
    requires
        0 < w,
        0 <= v,
        0 <= c < w,
        0 <= px < w,
        (px - v) % w == c,
    ensures
        px == (v + c) % w,
{
    vstd::arithmetic::div_mod::lemma_fundamental_div_mod(px - v, w);
    let q: int = (px - v) / w;
    assert(v + c == (-q) * w + px) by {
        vstd::arithmetic::mul::lemma_mul_unary_negation(q, w);
        vstd::arithmetic::mul::lemma_mul_is_commutative(w, q);
    }
    vstd::arithmetic::div_mod::lemma_fundamental_div_mod_converse_mod(v + c, w, -q, px);
}

/// A row-major index splits back into exactly its row and column.
pub proof fn lemma_rowmajor(px: int, py: int)
    requires
        0 <= px < SCREEN_WIDTH,
        0 <= py < SCREEN_HEIGHT,
    ensures
        0 <= py * (SCREEN_WIDTH as int) + px < SCREEN_SIZE,
        (py * (SCREEN_WIDTH as int) + px) % (SCREEN_WIDTH as int) == px,
        (py * (SCREEN_WIDTH as int) + px) / (SCREEN_WIDTH as int) == py,
{
    let w: int = SCREEN_WIDTH as int;
    vstd::arithmetic::div_mod::lemma_fundamental_div_mod_converse_mod(py * w + px, w, py, px);
    vstd::arithmetic::div_mod::lemma_fundamental_div_mod_converse_div(py * w + px, w, py, px);
}

/// A framebuffer index splits into a column below the width and a row
/// below the height.
pub proof fn lemma_rowmajor_bounds(p: int)
    requires
        0 <= p < SCREEN_SIZE,
    ensures
        0 <= p % (SCREEN_WIDTH as int) < SCREEN_WIDTH,
        0 <= p / (SCREEN_WIDTH as int) < SCREEN_HEIGHT,
        p == p / (SCREEN_WIDTH as int) * (SCREEN_WIDTH as int) + p % (SCREEN_WIDTH as int),
{
    vstd::arithmetic::div_mod::lemma_fundamental_div_mod(p, SCREEN_WIDTH as int);
}

/// Advancing the draw loop past a clear sprite bit changes no pixel's
/// coverage.
pub proof fn lemma_covers_step_nohit(
    pre: Machine,
    x: usize,
    y: usize,
    n: usize,
    row: int,
    col: int,
)
    requires
        pre.wf(),
        x < NUM_REGS,
        y < NUM_REGS,
        0 <= row < n,
        0 <= col < 8,
        !byte_bit(pre.ram[pre.i_reg + row], (7 - col) as u8),
    ensures
        forall|p: int|
            0 <= p < SCREEN_SIZE ==> (#[trigger] pre.sprite_covers_before(x, y, n, row, col + 1, p))
                == pre.sprite_covers_before(x, y, n, row, col, p),
        (exists|p: int|
            0 <= p < SCREEN_SIZE && #[trigger] pre.sprite_covers_before(x, y, n, row, col + 1, p)
                && pre.screen[p]) == (exists|p: int|
            0 <= p < SCREEN_SIZE && #[trigger] pre.sprite_covers_before(x, y, n, row, col, p)
                && pre.screen[p]),
{
    assert forall|p: int|
        0 <= p < SCREEN_SIZE implies (#[trigger] pre.sprite_covers_before(x, y, n, row, col + 1, p))
        == pre.sprite_covers_before(x, y, n, row, col, p) by {
        lemma_rowmajor_bounds(p);
    }
    let ex_new = exists|p: int|
        0 <= p < SCREEN_SIZE && #[trigger] pre.sprite_covers_before(x, y, n, row, col + 1, p)
            && pre.screen[p];
    let ex_old = exists|p: int|
        0 <= p < SCREEN_SIZE && #[trigger] pre.sprite_covers_before(x, y, n, row, col, p)
            && pre.screen[p];
    if ex_new {
        let p = choose|p: int|
            0 <= p < SCREEN_SIZE && #[trigger] pre.sprite_covers_before(x, y, n, row, col + 1, p)
                && pre.screen[p];
        assert(pre.sprite_covers_before(x, y, n, row, col, p));
    }
    if ex_old {
        let p = choose|p: int|
            0 <= p < SCREEN_SIZE && #[trigger] pre.sprite_covers_before(x, y, n, row, col, p)
                && pre.screen[p];
        assert(pre.sprite_covers_before(x, y, n, row, col + 1, p));
    }
    assert(ex_new == ex_old);
}

/// Advancing the draw loop past a set sprite bit covers exactly one new
/// pixel: the one at the wrapped coordinates, which nothing earlier in
/// the sprite covers.
pub proof fn lemma_covers_step_hit(
    pre: Machine,
    x: usize,
    y: usize,
    n: usize,
    row: int,
    col: int,
    idx: int,
)
    requires
        pre.wf(),
        x < NUM_REGS,
        y < NUM_REGS,
        n <= 15,
        0 <= row < n,
        0 <= col < 8,
        byte_bit(pre.ram[pre.i_reg + row], (7 - col) as u8),
        idx == ((pre.v_reg[y as int] + row) % (SCREEN_HEIGHT as int)) * (SCREEN_WIDTH as int) + (
        (pre.v_reg[x as int] + col) % (SCREEN_WIDTH as int)),
    ensures
        0 <= idx < SCREEN_SIZE,
        pre.sprite_covers_before(x, y, n, row, col + 1, idx),
        !pre.sprite_covers_before(x, y, n, row, col, idx),
        forall|p: int|
            0 <= p < SCREEN_SIZE && p != idx ==> (#[trigger] pre.sprite_covers_before(
                x,
                y,
                n,
                row,
                col + 1,
                p,
            )) == pre.sprite_covers_before(x, y, n, row, col, p),
        (exists|p: int|
            0 <= p < SCREEN_SIZE && #[trigger] pre.sprite_covers_before(x, y, n, row, col + 1, p)
                && pre.screen[p]) == ((exists|p: int|
            0 <= p < SCREEN_SIZE && #[trigger] pre.sprite_covers_before(x, y, n, row, col, p)
                && pre.screen[p]) || pre.screen[idx]),
{
    let w: int = SCREEN_WIDTH as int;
    let h: int = SCREEN_HEIGHT as int;
    let vx: int = pre.v_reg[x as int] as int;
    let vy: int = pre.v_reg[y as int] as int;
    let px: int = (vx + col) % w;
    let py: int = (vy + row) % h;
    lemma_coord_roundtrip(vx, col, w);
    lemma_coord_roundtrip(vy, row, h);
    lemma_rowmajor(px, py);
    assert(pre.sprite_covers_before(x, y, n, row, col + 1, idx));
    assert(!pre.sprite_covers_before(x, y, n, row, col, idx));
    assert forall|p: int|
        0 <= p < SCREEN_SIZE && p != idx implies (#[trigger] pre.sprite_covers_before(
        x,
        y,
        n,
        row,
        col + 1,
        p,
    )) == pre.sprite_covers_before(x, y, n, row, col, p) by {
        lemma_rowmajor_bounds(p);
        if pre.sprite_covers_before(x, y, n, row, col + 1, p) && !pre.sprite_covers_before(
            x,
            y,
            n,
            row,
            col,
            p,
        ) {
            lemma_coord_unique(vx, col, w, p % w);
            lemma_coord_unique(vy, row, h, p / w);
            assert(p == idx);
        }
    }
    let ex_new = exists|p: int|
        0 <= p < SCREEN_SIZE && #[trigger] pre.sprite_covers_before(x, y, n, row, col + 1, p)
            && pre.screen[p];
    let ex_old = exists|p: int|
        0 <= p < SCREEN_SIZE && #[trigger] pre.sprite_covers_before(x, y, n, row, col, p)
            && pre.screen[p];
    if ex_new {
        let p = choose|p: int|
            0 <= p < SCREEN_SIZE && #[trigger] pre.sprite_covers_before(x, y, n, row, col + 1, p)
                && pre.screen[p];
        if p != idx {
            assert(pre.sprite_covers_before(x, y, n, row, col, p));
        }
        assert(ex_old || pre.screen[idx]);
    }
    if ex_old {
        let p = choose|p: int|
            0 <= p < SCREEN_SIZE && #[trigger] pre.sprite_covers_before(x, y, n, row, col, p)
                && pre.screen[p];
        assert(p != idx);
        assert(pre.sprite_covers_before(x, y, n, row, col + 1, p));
        assert(ex_new);
    }
    if pre.screen[idx] {
        assert(ex_new);
    }
    assert(ex_new == (ex_old || pre.screen[idx]));
}

/// A fully drawn row's prefix covers the same pixels as the next row's
/// empty prefix.
pub proof fn lemma_covers_row_advance(pre: Machine, x: usize, y: usize, n: usize, row: int)
    requires
        pre.wf(),
        x < NUM_REGS,
        y < NUM_REGS,
        0 <= row,
    ensures
        forall|p: int|
            0 <= p < SCREEN_SIZE ==> (#[trigger] pre.sprite_covers_before(x, y, n, row + 1, 0, p))
                == pre.sprite_covers_before(x, y, n, row, 8, p),
        (exists|p: int|
            0 <= p < SCREEN_SIZE && #[trigger] pre.sprite_covers_before(x, y, n, row + 1, 0, p)
                && pre.screen[p]) == (exists|p: int|
            0 <= p < SCREEN_SIZE && #[trigger] pre.sprite_covers_before(x, y, n, row, 8, p)
                && pre.screen[p]),
{
    assert forall|p: int|
        0 <= p < SCREEN_SIZE implies (#[trigger] pre.sprite_covers_before(x, y, n, row + 1, 0, p))
        == pre.sprite_covers_before(x, y, n, row, 8, p) by {
        lemma_rowmajor_bounds(p);
    }
    let ex_new = exists|p: int|
        0 <= p < SCREEN_SIZE && #[trigger] pre.sprite_covers_before(x, y, n, row + 1, 0, p)
            && pre.screen[p];
    let ex_old = exists|p: int|
        0 <= p < SCREEN_SIZE && #[trigger] pre.sprite_covers_before(x, y, n, row, 8, p)
            && pre.screen[p];
    if ex_new {
        let p = choose|p: int|
            0 <= p < SCREEN_SIZE && #[trigger] pre.sprite_covers_before(x, y, n, row + 1, 0, p)
                && pre.screen[p];
        assert(pre.sprite_covers_before(x, y, n, row, 8, p));
    }
    if ex_old {
        let p = choose|p: int|
            0 <= p < SCREEN_SIZE && #[trigger] pre.sprite_covers_before(x, y, n, row, 8, p)
                && pre.screen[p];
        assert(pre.sprite_covers_before(x, y, n, row + 1, 0, p));
    }
    assert(ex_new == ex_old);
}

/// The prefix of a completed draw is exactly the sprite's coverage, and
/// the collisions it saw are exactly the sprite's collisions.
pub proof fn lemma_covers_complete(pre: Machine, x: usize, y: usize, n: usize)
    requires
        pre.wf(),
        x < NUM_REGS,
        y < NUM_REGS,
    ensures
        forall|p: int|
            0 <= p < SCREEN_SIZE ==> (#[trigger] pre.sprite_covers_idx(x, y, n, p))
                == pre.sprite_covers_before(x, y, n, n as int, 0, p),
        (exists|p: int|
            0 <= p < SCREEN_SIZE && #[trigger] pre.sprite_covers_before(x, y, n, n as int, 0, p)
                && pre.screen[p]) == pre.sprite_collides(x, y, n),
{
    assert forall|p: int|
        0 <= p < SCREEN_SIZE implies (#[trigger] pre.sprite_covers_idx(x, y, n, p))
        == pre.sprite_covers_before(x, y, n, n as int, 0, p) by {
        lemma_rowmajor_bounds(p);
    }
    let ex_pref = exists|p: int|
        0 <= p < SCREEN_SIZE && #[trigger] pre.sprite_covers_before(x, y, n, n as int, 0, p)
            && pre.screen[p];
    if ex_pref {
        let p = choose|p: int|
            0 <= p < SCREEN_SIZE && #[trigger] pre.sprite_covers_before(x, y, n, n as int, 0, p)
                && pre.screen[p];
        assert(pre.sprite_covers_idx(x, y, n, p));
        assert(pre.sprite_collides(x, y, n));
    }
    if pre.sprite_collides(x, y, n) {
        let p = choose|p: int|
            0 <= p < SCREEN_SIZE && #[trigger] pre.sprite_covers_idx(x, y, n, p) && pre.screen[p];
        assert(pre.sprite_covers_before(x, y, n, n as int, 0, p));
        assert(ex_pref);
    }
    assert(ex_pref == pre.sprite_collides(x, y, n));
}

/// Every instruction keeps the machine well formed.
pub proof fn lemma_exec_op_wf(m: Machine, op: Opcode, rnd: u8)
    requires
        m.wf(),
        op.wf(),
    ensures
        m.exec_op(op, rnd).0.wf(),
{
    match op {
        Opcode::ClearScreen => assert(m.exec_op(op, rnd).0.wf()),
        Opcode::ReturnSubroutine => assert(m.exec_op(op, rnd).0.wf()),
        Opcode::Jump(addr) => assert(m.exec_op(op, rnd).0.wf()),
        Opcode::Call(addr) => assert(m.exec_op(op, rnd).0.wf()),
        Opcode::SkipIfEqByte { x, byte } => assert(m.exec_op(op, rnd).0.wf()),
        Opcode::SkipIfNeqByte { x, byte } => assert(m.exec_op(op, rnd).0.wf()),
        Opcode::SkipIfEqReg { x, y } => assert(m.exec_op(op, rnd).0.wf()),
        Opcode::SetReg { x, byte } => assert(m.exec_op(op, rnd).0.wf()),
        Opcode::AddByteToReg { x, byte } => assert(m.exec_op(op, rnd).0.wf()),
        Opcode::SetRegToReg { x, y } => assert(m.exec_op(op, rnd).0.wf()),
        Opcode::OrReg { x, y } => assert(m.exec_op(op, rnd).0.wf()),
        Opcode::AndReg { x, y } => assert(m.exec_op(op, rnd).0.wf()),
        Opcode::XorReg { x, y } => assert(m.exec_op(op, rnd).0.wf()),
        Opcode::AddRegToReg { x, y } => assert(m.exec_op(op, rnd).0.wf()),
        Opcode::SubRegFromReg { x, y } => assert(m.exec_op(op, rnd).0.wf()),
        Opcode::ShrReg { x } => assert(m.exec_op(op, rnd).0.wf()),
        Opcode::SubnRegFromReg { x, y } => assert(m.exec_op(op, rnd).0.wf()),
        Opcode::ShlReg { x } => assert(m.exec_op(op, rnd).0.wf()),
        Opcode::SkipIfNeqReg { x, y } => assert(m.exec_op(op, rnd).0.wf()),
        Opcode::SetI(addr) => assert(m.exec_op(op, rnd).0.wf()),
        Opcode::JumpV0(addr) => assert(m.exec_op(op, rnd).0.wf()),
        Opcode::RndAndByte { x, byte } => assert(m.exec_op(op, rnd).0.wf()),
        Opcode::DrawSprite { x, y, n } => assert(m.exec_op(op, rnd).0.wf()),
        Opcode::SkipIfKeyPressed { x } => assert(m.exec_op(op, rnd).0.wf()),
        Opcode::SkipIfKeyNotPressed { x } => assert(m.exec_op(op, rnd).0.wf()),
        Opcode::SetRegToDelayTimer { x } => assert(m.exec_op(op, rnd).0.wf()),
        Opcode::WaitKeyPress { x } => assert(m.exec_op(op, rnd).0.wf()),
        Opcode::SetDelayTimer { x } => assert(m.exec_op(op, rnd).0.wf()),
        Opcode::SetSoundTimer { x } => assert(m.exec_op(op, rnd).0.wf()),
        Opcode::AddRegToI { x } => assert(m.exec_op(op, rnd).0.wf()),
        Opcode::SetIToSpriteAddr { x } => assert(m.exec_op(op, rnd).0.wf()),
        Opcode::StoreBCD { x } => assert(m.exec_op(op, rnd).0.wf()),
        Opcode::StoreRegs { x } => assert(m.exec_op(op, rnd).0.wf()),
        Opcode::LoadRegs { x } => assert(m.exec_op(op, rnd).0.wf()),
    }
}

/// Every step of the engine keeps the machine well formed.
pub proof fn lemma_step_wf(m: Machine, rnd: u8)
    requires
        m.wf(),
    ensures
        m.step_spec(rnd).0.wf(),
{
    let fetched = m.fetch_spec();
    match fetched.1 {
        Err(e) => {}
        Ok(w) => {
            match spec_decode(w) {
                None => {}
                Some(op) => {
                    crate::opcode::lemma_decode_wf(w);
                    lemma_exec_op_wf(fetched.0, op, rnd);
                }
            }
        }
    }
}

} // verus!
