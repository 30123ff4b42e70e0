//! The executable machine and its fetch-decode-execute engine.
//!
//! Every operation is proved to follow the mathematical model in
//! `machine`: the state after a call equals what the corresponding spec
//! function says, for every input, and the failure kinds are reported
//! exactly when the model says they are.

use vstd::prelude::*;

use crate::constants::{
    FONTSET, FONTSET_SIZE, NUM_KEYS, NUM_REGS, RAM_SIZE, SCREEN_HEIGHT, SCREEN_SIZE, SCREEN_WIDTH,
    STACK_SIZE, START_ADDR,
};
use crate::error::EmulatorError;
use crate::machine::{
    first_pressed_from, lemma_covers_complete, lemma_covers_row_advance, lemma_covers_step_hit,
    lemma_covers_step_nohit, lemma_step_wf, Machine,
};
use crate::opcode::Opcode;

verus! {

broadcast use vstd::arithmetic::div_mod::lemma_mod_division_less_than_divisor;

/// The machine state, exclusively owned by the embedding application.
pub struct Emulator {
    pc: u16,
    ram: [u8; RAM_SIZE],
    screen: [bool; SCREEN_SIZE],
    v_reg: [u8; NUM_REGS],
    i_reg: u16,
    sp: u16,
    stack: [u16; STACK_SIZE],
    keys: [bool; NUM_KEYS],
    delay_timer: u8,
    sound_timer: u8,
}

impl View for Emulator {
    type V = Machine;

    closed spec fn view(&self) -> Machine {
        Machine {
            pc: self.pc,
            ram: self.ram@,
            screen: self.screen@,
            v_reg: self.v_reg@,
            i_reg: self.i_reg,
            sp: self.sp,
            stack: self.stack@,
            keys: self.keys@,
            delay_timer: self.delay_timer,
            sound_timer: self.sound_timer,
        }
    }
}

/// Relies on rand::random: draws one byte from the thread-local
/// generator. Nothing is promised of the value; every caller must be
/// correct for every byte that comes back.
#[verifier::external_body]
fn random_byte() -> u8 {
    rand::random()
}

impl Emulator {
    /// A machine in the power-on state: font table in low memory,
    /// program counter at the start address, everything else zeroed.
    pub fn new() -> (emu: Emulator)
        ensures
            emu@ == Machine::power_on(),
            emu@.wf(),
    {
        let mut emu = Emulator {
            pc: START_ADDR,
            ram: [0; RAM_SIZE],
            screen: [false; SCREEN_SIZE],
            v_reg: [0; NUM_REGS],
            i_reg: 0,
            sp: 0,
            stack: [0; STACK_SIZE],
            keys: [false; NUM_KEYS],
            delay_timer: 0,
            sound_timer: 0,
        };
        emu.reset();
        emu
    }

    /// Write the font table over the first eighty bytes of memory.
    fn load_fontset(&mut self)
        ensures
            final(self)@ == (Machine {
                ram: Seq::new(
                    RAM_SIZE as nat,
                    |a: int| if a < FONTSET_SIZE {
                        FONTSET@[a]
                    } else {
                        old(self)@.ram[a]
                    },
                ),
                ..old(self)@
            }),
    {
        for j in 0..FONTSET_SIZE
            invariant
                self@ == (Machine { ram: self@.ram, ..old(self)@ }),
                self@.ram.len() == RAM_SIZE,
                forall|k: int| 0 <= k < j ==> self@.ram[k] == FONTSET@[k],
                forall|k: int| j <= k < RAM_SIZE ==> self@.ram[k] == old(self)@.ram[k],
        {
            self.ram[j] = FONTSET[j];
        }
        proof {
            assert(self@.ram =~= Seq::new(
                RAM_SIZE as nat,
                |a: int| if a < FONTSET_SIZE {
                    FONTSET@[a]
                } else {
                    old(self)@.ram[a]
                },
            ));
        }
    }

    /// Restore the power-on state: font table reloaded, memory,
    /// registers, stack, framebuffer, keypad and timers cleared, program
    /// counter back at the start address.
    pub fn reset(&mut self)
        ensures
            final(self)@ == Machine::power_on(),
            final(self)@.wf(),
    {
        self.pc = START_ADDR;
        self.ram = [0; RAM_SIZE];
        self.screen = [false; SCREEN_SIZE];
        self.v_reg = [0; NUM_REGS];
        self.i_reg = 0;
        self.sp = 0;
        self.stack = [0; STACK_SIZE];
        self.keys = [false; NUM_KEYS];
        self.delay_timer = 0;
        self.sound_timer = 0;
        self.load_fontset();
        proof {
            assert(self@.ram =~= Machine::power_on().ram);
            assert(self@.screen =~= Machine::power_on().screen);
            assert(self@.v_reg =~= Machine::power_on().v_reg);
            assert(self@.stack =~= Machine::power_on().stack);
            assert(self@.keys =~= Machine::power_on().keys);
            assert(self@ =~= Machine::power_on());
        }
    }

    /// Install a program image at the start address. An image longer
    /// than the memory past the start address is rejected whole.
    pub fn load(&mut self, data: &[u8]) -> (r: Result<(), EmulatorError>)
        ensures
            data@.len() > RAM_SIZE - START_ADDR ==> r == Err::<(), EmulatorError>(
                EmulatorError::OversizeImage,
            ) && final(self)@ == old(self)@,
            data@.len() <= RAM_SIZE - START_ADDR ==> r == Ok::<(), EmulatorError>(())
                && final(self)@ == (Machine {
                ram: Seq::new(
                    RAM_SIZE as nat,
                    |a: int| if START_ADDR <= a < START_ADDR + data@.len() {
                        data@[a - START_ADDR]
                    } else {
                        old(self)@.ram[a]
                    },
                ),
                ..old(self)@
            }),
    {
        let start: usize = START_ADDR as usize;
        if data.len() > RAM_SIZE - start {
            return Err(EmulatorError::OversizeImage);
        }
        for j in 0..data.len()
            invariant
                start == START_ADDR,
                data@.len() <= RAM_SIZE - START_ADDR,
                self@ == (Machine { ram: self@.ram, ..old(self)@ }),
                self@.ram.len() == RAM_SIZE,
                forall|k: int|
                    START_ADDR <= k < START_ADDR + j ==> self@.ram[k] == data@[k - START_ADDR],
                forall|k: int|
                    0 <= k < RAM_SIZE && !(START_ADDR <= k < START_ADDR + j) ==> self@.ram[k]
                        == old(self)@.ram[k],
        {
            self.ram[start + j] = data[j];
        }
        proof {
            assert(self@.ram =~= Seq::new(
                RAM_SIZE as nat,
                |a: int| if START_ADDR <= a < START_ADDR + data@.len() {
                    data@[a - START_ADDR]
                } else {
                    old(self)@.ram[a]
                },
            ));
        }
        Ok(())
    }

    /// Decrement each timer by one, floored at zero. The embedding
    /// application calls this at its own fixed cadence, independently of
    /// instruction execution.
    pub fn tick_timers(&mut self)
        ensures
            final(self)@ == (Machine {
                delay_timer: if old(self)@.delay_timer > 0 {
                    (old(self)@.delay_timer - 1) as u8
                } else {
                    0u8
                },
                sound_timer: if old(self)@.sound_timer > 0 {
                    (old(self)@.sound_timer - 1) as u8
                } else {
                    0u8
                },
                ..old(self)@
            }),
    {
        if self.delay_timer > 0 {
            self.delay_timer = self.delay_timer - 1;
        }
        if self.sound_timer > 0 {
            self.sound_timer = self.sound_timer - 1;
        }
    }

    /// Read-only view of the 64x32 framebuffer, row-major.
    pub fn get_display(&self) -> (r: &[bool; SCREEN_SIZE])
        ensures
            r@ == self@.screen,
    {
        &self.screen
    }

    /// Record a key going down or up. Key numbers outside the pad are
    /// ignored.
    pub fn keypress(&mut self, idx: usize, pressed: bool)
        ensures
            final(self)@ == if idx < NUM_KEYS {
                (Machine { keys: old(self)@.keys.update(idx as int, pressed), ..old(self)@ })
            } else {
                old(self)@
            },
    {
        if idx < NUM_KEYS {
            self.keys[idx] = pressed;
        }
    }

    /// Bounds-checked memory read.
    pub fn read_ram(&self, addr: u16) -> (r: Result<u8, EmulatorError>)
        ensures
            addr < RAM_SIZE ==> r == Ok::<u8, EmulatorError>(self@.ram[addr as int]),
            addr >= RAM_SIZE ==> r == Err::<u8, EmulatorError>(EmulatorError::MemoryFault(addr)),
    {
        if (addr as usize) < RAM_SIZE {
            Ok(self.ram[addr as usize])
        } else {
            Err(EmulatorError::MemoryFault(addr))
        }
    }

    /// Bounds-checked memory write.
    pub fn write_ram(&mut self, addr: u16, val: u8) -> (r: Result<(), EmulatorError>)
        ensures
            addr < RAM_SIZE ==> r == Ok::<(), EmulatorError>(()) && final(self)@ == (Machine {
                ram: old(self)@.ram.update(addr as int, val),
                ..old(self)@
            }),
            addr >= RAM_SIZE ==> r == Err::<(), EmulatorError>(EmulatorError::MemoryFault(addr))
                && final(self)@ == old(self)@,
    {
        if (addr as usize) < RAM_SIZE {
            self.ram[addr as usize] = val;
            Ok(())
        } else {
            Err(EmulatorError::MemoryFault(addr))
        }
    }

    /// The program counter.
    pub fn pc(&self) -> (r: u16)
        ensures
            r == self@.pc,
    {
        self.pc
    }

    /// General register `x`.
    pub fn reg(&self, x: usize) -> (r: u8)
        requires
            x < NUM_REGS,
        ensures
            r == self@.v_reg[x as int],
    {
        self.v_reg[x]
    }

    /// The index register.
    pub fn index_reg(&self) -> (r: u16)
        ensures
            r == self@.i_reg,
    {
        self.i_reg
    }

    /// The call stack depth.
    pub fn stack_depth(&self) -> (r: u16)
        ensures
            r == self@.sp,
    {
        self.sp
    }

    /// The delay timer's current value.
    pub fn delay_timer(&self) -> (r: u8)
        ensures
            r == self@.delay_timer,
    {
        self.delay_timer
    }

    /// The sound timer's current value; an audio collaborator watches
    /// this for the transition to zero.
    pub fn sound_timer(&self) -> (r: u8)
        ensures
            r == self@.sound_timer,
    {
        self.sound_timer
    }

    /// Fetch the big-endian instruction word at the program counter and
    /// move past it; a fetch outside memory faults without moving.
    fn fetch(&mut self) -> (r: Result<u16, EmulatorError>)
        ensures
            ({
                let (m2, r2) = old(self)@.fetch_spec();
                final(self)@ == m2 && r == r2
            }),
    {
        let pcu: usize = self.pc as usize;
        if pcu + 1 >= RAM_SIZE {
            return Err(EmulatorError::MemoryFault(self.pc));
        }
        let high: u8 = self.ram[pcu];
        let low: u8 = self.ram[pcu + 1];
        self.pc = self.pc + 2;
        Ok((high as u16) * 256 + (low as u16))
    }

    /// Push a return address; a full stack faults without any change.
    fn push(&mut self, val: u16) -> (r: Result<(), EmulatorError>)
        requires
            old(self)@.wf(),
        ensures
            old(self)@.sp < STACK_SIZE ==> r == Ok::<(), EmulatorError>(()) && final(self)@
                == (Machine {
                stack: old(self)@.stack.update(old(self)@.sp as int, val),
                sp: (old(self)@.sp + 1) as u16,
                ..old(self)@
            }),
            old(self)@.sp >= STACK_SIZE ==> r == Err::<(), EmulatorError>(
                EmulatorError::StackOverflow,
            ) && final(self)@ == old(self)@,
    {
        if self.sp as usize >= STACK_SIZE {
            return Err(EmulatorError::StackOverflow);
        }
        self.stack[self.sp as usize] = val;
        self.sp = self.sp + 1;
        Ok(())
    }

    /// Pop a return address; an empty stack faults without any change.
    fn pop(&mut self) -> (r: Result<u16, EmulatorError>)
        requires
            old(self)@.wf(),
        ensures
            old(self)@.sp > 0 ==> r == Ok::<u16, EmulatorError>(
                old(self)@.stack[old(self)@.sp - 1],
            ) && final(self)@ == (Machine { sp: (old(self)@.sp - 1) as u16, ..old(self)@ }),
            old(self)@.sp == 0 ==> r == Err::<u16, EmulatorError>(EmulatorError::StackUnderflow)
                && final(self)@ == old(self)@,
    {
        if self.sp == 0 {
            return Err(EmulatorError::StackUnderflow);
        }
        self.sp = self.sp - 1;
        Ok(self.stack[self.sp as usize])
    }

    fn clear_screen(&mut self)
        ensures
            final(self)@ == old(self)@.clear_screen_spec(),
    {
        self.screen = [false; SCREEN_SIZE];
        proof {
            assert(self@.screen =~= old(self)@.clear_screen_spec().screen);
        }
    }

    fn return_subroutine(&mut self) -> (r: Result<(), EmulatorError>)
        requires
            old(self)@.wf(),
        ensures
            ({
                let (m2, r2) = old(self)@.return_spec();
                final(self)@ == m2 && r == r2
            }),
    {
        match self.pop() {
            Ok(addr) => {
                self.pc = addr;
                Ok(())
            },
            Err(e) => Err(e),
        }
    }

    fn jump(&mut self, addr: u16)
        ensures
            final(self)@ == old(self)@.jump_spec(addr),
    {
        self.pc = addr;
    }

    fn call(&mut self, addr: u16) -> (r: Result<(), EmulatorError>)
        requires
            old(self)@.wf(),
        ensures
            ({
                let (m2, r2) = old(self)@.call_spec(addr);
                final(self)@ == m2 && r == r2
            }),
    {
        let pc = self.pc;
        match self.push(pc) {
            Ok(_) => {
                self.pc = addr;
                Ok(())
            },
            Err(e) => Err(e),
        }
    }

    fn skip_if_eq_byte(&mut self, x: usize, byte: u8)
        requires
            x < NUM_REGS,
        ensures
            final(self)@ == old(self)@.skip_if_eq_byte_spec(x, byte),
    {
        if self.v_reg[x] == byte {
            self.pc = self.pc.wrapping_add(2);
        }
    }

    fn skip_if_neq_byte(&mut self, x: usize, byte: u8)
        requires
            x < NUM_REGS,
        ensures
            final(self)@ == old(self)@.skip_if_neq_byte_spec(x, byte),
    {
        if self.v_reg[x] != byte {
            self.pc = self.pc.wrapping_add(2);
        }
    }

    fn skip_if_eq_reg(&mut self, x: usize, y: usize)
        requires
            x < NUM_REGS,
            y < NUM_REGS,
        ensures
            final(self)@ == old(self)@.skip_if_eq_reg_spec(x, y),
    {
        if self.v_reg[x] == self.v_reg[y] {
            self.pc = self.pc.wrapping_add(2);
        }
    }

    fn skip_if_neq_reg(&mut self, x: usize, y: usize)
        requires
            x < NUM_REGS,
            y < NUM_REGS,
        ensures
            final(self)@ == old(self)@.skip_if_neq_reg_spec(x, y),
    {
        if self.v_reg[x] != self.v_reg[y] {
            self.pc = self.pc.wrapping_add(2);
        }
    }

    fn set_reg(&mut self, x: usize, byte: u8)
        requires
            x < NUM_REGS,
        ensures
            final(self)@ == old(self)@.set_reg_spec(x, byte),
    {
        self.v_reg[x] = byte;
    }

    fn add_byte_to_reg(&mut self, x: usize, byte: u8)
        requires
            x < NUM_REGS,
        ensures
            final(self)@ == old(self)@.add_byte_spec(x, byte),
    {
        self.v_reg[x] = self.v_reg[x].wrapping_add(byte);
    }

    fn set_reg_to_reg(&mut self, x: usize, y: usize)
        requires
            x < NUM_REGS,
            y < NUM_REGS,
        ensures
            final(self)@ == old(self)@.set_reg_to_reg_spec(x, y),
    {
        self.v_reg[x] = self.v_reg[y];
    }

    fn or_reg(&mut self, x: usize, y: usize)
        requires
            x < NUM_REGS,
            y < NUM_REGS,
        ensures
            final(self)@ == old(self)@.or_reg_spec(x, y),
    {
        self.v_reg[x] = self.v_reg[x] | self.v_reg[y];
    }

    fn and_reg(&mut self, x: usize, y: usize)
        requires
            x < NUM_REGS,
            y < NUM_REGS,
        ensures
            final(self)@ == old(self)@.and_reg_spec(x, y),
    {
        self.v_reg[x] = self.v_reg[x] & self.v_reg[y];
    }

    fn xor_reg(&mut self, x: usize, y: usize)
        requires
            x < NUM_REGS,
            y < NUM_REGS,
        ensures
            final(self)@ == old(self)@.xor_reg_spec(x, y),
    {
        self.v_reg[x] = self.v_reg[x] ^ self.v_reg[y];
    }

    fn add_reg_to_reg(&mut self, x: usize, y: usize)
        requires
            x < NUM_REGS,
            y < NUM_REGS,
        ensures
            final(self)@ == old(self)@.add_reg_spec(x, y),
    {
        let a: u8 = self.v_reg[x];
        let b: u8 = self.v_reg[y];
        self.v_reg[15] = if (a as u16) + (b as u16) > 255 {
            1
        } else {
            0
        };
        self.v_reg[x] = a.wrapping_add(b);
    }

    fn sub_reg_from_reg(&mut self, x: usize, y: usize)
        requires
            x < NUM_REGS,
            y < NUM_REGS,
        ensures
            final(self)@ == old(self)@.sub_reg_spec(x, y),
    {
        let a: u8 = self.v_reg[x];
        let b: u8 = self.v_reg[y];
        self.v_reg[15] = if a >= b {
            1
        } else {
            0
        };
        self.v_reg[x] = a.wrapping_sub(b);
    }

    fn subn_reg_from_reg(&mut self, x: usize, y: usize)
        requires
            x < NUM_REGS,
            y < NUM_REGS,
        ensures
            final(self)@ == old(self)@.subn_reg_spec(x, y),
    {
        let a: u8 = self.v_reg[x];
        let b: u8 = self.v_reg[y];
        self.v_reg[15] = if b >= a {
            1
        } else {
            0
        };
        self.v_reg[x] = b.wrapping_sub(a);
    }

    fn shr_reg(&mut self, x: usize)
        requires
            x < NUM_REGS,
        ensures
            final(self)@ == old(self)@.shr_reg_spec(x),
    {
        let a: u8 = self.v_reg[x];
        self.v_reg[15] = a % 2;
        self.v_reg[x] = a / 2;
    }

    fn shl_reg(&mut self, x: usize)
        requires
            x < NUM_REGS,
        ensures
            final(self)@ == old(self)@.shl_reg_spec(x),
    {
        let a: u8 = self.v_reg[x];
        self.v_reg[15] = a / 128;
        self.v_reg[x] = (a % 128) * 2;
    }

    fn set_i(&mut self, addr: u16)
        ensures
            final(self)@ == old(self)@.set_i_spec(addr),
    {
        self.i_reg = addr;
    }

    fn jump_v0(&mut self, addr: u16)
        requires
            old(self)@.wf(),
        ensures
            final(self)@ == old(self)@.jump_v0_spec(addr),
    {
        self.pc = addr.wrapping_add(self.v_reg[0] as u16);
    }

    fn rnd_and_byte(&mut self, x: usize, byte: u8, rnd: u8)
        requires
            x < NUM_REGS,
        ensures
            final(self)@ == old(self)@.rnd_spec(x, byte, rnd),
    {
        self.v_reg[x] = rnd & byte;
    }

    fn skip_if_key_pressed(&mut self, x: usize)
        requires
            x < NUM_REGS,
        ensures
            final(self)@ == old(self)@.skip_if_key_spec(x),
    {
        let k: usize = self.v_reg[x] as usize;
        if k < NUM_KEYS && self.keys[k] {
            self.pc = self.pc.wrapping_add(2);
        }
    }

    fn skip_if_key_not_pressed(&mut self, x: usize)
        requires
            x < NUM_REGS,
        ensures
            final(self)@ == old(self)@.skip_if_no_key_spec(x),
    {
        let k: usize = self.v_reg[x] as usize;
        if !(k < NUM_KEYS && self.keys[k]) {
            self.pc = self.pc.wrapping_add(2);
        }
    }

    fn set_reg_to_delay_timer(&mut self, x: usize)
        requires
            x < NUM_REGS,
        ensures
            final(self)@ == old(self)@.read_delay_spec(x),
    {
        self.v_reg[x] = self.delay_timer;
    }

    /// Wait for a key: latch the lowest pressed key, or rewind the
    /// program counter onto this instruction so the next step retries.
    fn wait_key_press(&mut self, x: usize)
        requires
            x < NUM_REGS,
        ensures
            final(self)@ == old(self)@.wait_key_spec(x),
    {
        let mut k: usize = 0;
        while k < NUM_KEYS
            invariant
                x < NUM_REGS,
                k <= NUM_KEYS,
                self@ == old(self)@,
                first_pressed_from(self@.keys, 0) == first_pressed_from(self@.keys, k as int),
            decreases NUM_KEYS - k,
        {
            if self.keys[k] {
                self.v_reg[x] = k as u8;
                return;
            }
            k = k + 1;
        }
        self.pc = self.pc.wrapping_sub(2);
    }

    fn set_delay_timer(&mut self, x: usize)
        requires
            x < NUM_REGS,
        ensures
            final(self)@ == old(self)@.write_delay_spec(x),
    {
        self.delay_timer = self.v_reg[x];
    }

    fn set_sound_timer(&mut self, x: usize)
        requires
            x < NUM_REGS,
        ensures
            final(self)@ == old(self)@.write_sound_spec(x),
    {
        self.sound_timer = self.v_reg[x];
    }

    fn add_reg_to_i(&mut self, x: usize)
        requires
            x < NUM_REGS,
        ensures
            final(self)@ == old(self)@.add_i_spec(x),
    {
        self.i_reg = self.i_reg.wrapping_add(self.v_reg[x] as u16);
    }

    fn set_i_to_sprite_addr(&mut self, x: usize)
        requires
            x < NUM_REGS,
        ensures
            final(self)@ == old(self)@.glyph_addr_spec(x),
    {
        self.i_reg = (self.v_reg[x] as u16) * 5;
    }

    fn store_bcd(&mut self, x: usize) -> (r: Result<(), EmulatorError>)
        requires
            x < NUM_REGS,
        ensures
            ({
                let (m2, r2) = old(self)@.store_bcd_spec(x);
                final(self)@ == m2 && r == r2
            }),
    {
        let i: usize = self.i_reg as usize;
        if i + 2 >= RAM_SIZE {
            return Err(EmulatorError::MemoryFault(self.i_reg));
        }
        let val: u8 = self.v_reg[x];
        self.ram[i] = val / 100;
        self.ram[i + 1] = (val / 10) % 10;
        self.ram[i + 2] = val % 10;
        Ok(())
    }

    fn store_regs(&mut self, x: usize) -> (r: Result<(), EmulatorError>)
        requires
            x < NUM_REGS,
        ensures
            ({
                let (m2, r2) = old(self)@.store_regs_spec(x);
                final(self)@ == m2 && r == r2
            }),
    {
        let i: usize = self.i_reg as usize;
        if i + x >= RAM_SIZE {
            return Err(EmulatorError::MemoryFault(self.i_reg));
        }
        let mut j: usize = 0;
        while j <= x
            invariant
                x < NUM_REGS,
                j <= x + 1,
                i == old(self)@.i_reg,
                i + x < RAM_SIZE,
                self@ == (Machine { ram: self@.ram, ..old(self)@ }),
                self@.ram.len() == RAM_SIZE,
                forall|k: int| i <= k < i + j ==> self@.ram[k] == old(self)@.v_reg[k - i],
                forall|k: int|
                    0 <= k < RAM_SIZE && !(i <= k < i + j) ==> self@.ram[k] == old(self)@.ram[k],
            decreases x - j + 1,
        {
            self.ram[i + j] = self.v_reg[j];
            j = j + 1;
        }
        proof {
            assert(self@.ram =~= old(self)@.store_regs_spec(x).0.ram);
        }
        Ok(())
    }

    /// Draw a sprite of `n` rows: each set sprite bit toggles one pixel,
    /// wrapping on both axes, and the flag register reports whether any
    /// toggle turned a lit pixel off.
    fn draw_sprite(&mut self, x: usize, y: usize, n: usize) -> (r: Result<(), EmulatorError>)
        requires
            old(self)@.wf(),
            x < NUM_REGS,
            y < NUM_REGS,
            n < 16,
        ensures
            ({
                let (m2, r2) = old(self)@.draw_spec(x, y, n);
                final(self)@ == m2 && r == r2
            }),
    {
        let i: usize = self.i_reg as usize;
        if n > 0 && i + n > RAM_SIZE {
            return Err(EmulatorError::MemoryFault(self.i_reg));
        }
        let vx: usize = self.v_reg[x] as usize;
        let vy: usize = self.v_reg[y] as usize;
        self.v_reg[15] = 0;
        proof {
            assert(self@.v_reg =~= old(self)@.v_reg.update(15, 0u8));
            assert(Machine::draw_partial(old(self)@, self@, x, y, n, 0, 0));
        }
        let mut row: usize = 0;
        while row < n
            invariant
                old(self)@.wf(),
                x < NUM_REGS,
                y < NUM_REGS,
                n < 16,
                row <= n,
                i == old(self)@.i_reg,
                vx == old(self)@.v_reg[x as int],
                vy == old(self)@.v_reg[y as int],
                n > 0 ==> i + n <= RAM_SIZE,
                Machine::draw_partial(old(self)@, self@, x, y, n, row as int, 0),
            decreases n - row,
        {
            let sprite_byte: u8 = self.ram[i + row];
            let mut col: usize = 0;
            while col < 8
                invariant
                    old(self)@.wf(),
                    x < NUM_REGS,
                    y < NUM_REGS,
                    n < 16,
                    row < n,
                    col <= 8,
                    i == old(self)@.i_reg,
                    vx == old(self)@.v_reg[x as int],
                    vy == old(self)@.v_reg[y as int],
                    i + n <= RAM_SIZE,
                    sprite_byte == old(self)@.ram[i + row],
                    Machine::draw_partial(old(self)@, self@, x, y, n, row as int, col as int),
                decreases 8 - col,
            {
                let ghost pre = old(self)@;
                let ghost mid = self@;
                let sh: u8 = (7 - col) as u8;
                let bit: u8 = (sprite_byte >> sh) & 1;
                if bit == 1 {
                    let px: usize = (vx + col) % SCREEN_WIDTH;
                    let py: usize = (vy + row) % SCREEN_HEIGHT;
                    let idx: usize = py * SCREEN_WIDTH + px;
                    let cur: bool = self.screen[idx];
                    if cur {
                        self.v_reg[15] = 1;
                    }
                    self.screen[idx] = !cur;
                    proof {
                        lemma_covers_step_hit(
                            pre,
                            x,
                            y,
                            n,
                            row as int,
                            col as int,
                            idx as int,
                        );
                        assert(cur == pre.screen[idx as int]);
                        if cur {
                            assert(self@.v_reg =~= pre.v_reg.update(15, 1u8));
                        }
                        assert(Machine::draw_partial(pre, self@, x, y, n, row as int, col + 1));
                    }
                } else {
                    proof {
                        lemma_covers_step_nohit(pre, x, y, n, row as int, col as int);
                        assert(Machine::draw_partial(pre, self@, x, y, n, row as int, col + 1));
                    }
                }
                col = col + 1;
            }
            proof {
                lemma_covers_row_advance(old(self)@, x, y, n, row as int);
                assert(Machine::draw_partial(old(self)@, self@, x, y, n, row as int + 1, 0));
            }
            row = row + 1;
        }
        proof {
            let pre = old(self)@;
            lemma_covers_complete(pre, x, y, n);
            assert(self@.screen =~= pre.draw_spec(x, y, n).0.screen);
            assert(self@.v_reg == pre.v_reg.update(
                15,
                if pre.sprite_collides(x, y, n) {
                    1u8
                } else {
                    0u8
                },
            ));
            assert(self@ == pre.draw_spec(x, y, n).0);
        }
        Ok(())
    }

    /// Decode an already fetched word and apply its instruction.
    fn execute(&mut self, w: u16, rnd: u8) -> (r: Result<(), EmulatorError>)
        requires
            old(self)@.wf(),
        ensures
            ({
                let (m2, r2) = old(self)@.exec_word(w, rnd);
                final(self)@ == m2 && r == r2
            }),
    {
        let op = match Opcode::try_from(w) {
            Ok(op) => op,
            Err(e) => {
                return Err(e);
            },
        };
        match op {
            Opcode::ClearScreen => {
                self.clear_screen();
                Ok(())
            },
            Opcode::ReturnSubroutine => self.return_subroutine(),
            Opcode::Jump(addr) => {
                self.jump(addr);
                Ok(())
            },
            Opcode::Call(addr) => self.call(addr),
            Opcode::SkipIfEqByte { x, byte } => {
                self.skip_if_eq_byte(x, byte);
                Ok(())
            },
            Opcode::SkipIfNeqByte { x, byte } => {
                self.skip_if_neq_byte(x, byte);
                Ok(())
            },
            Opcode::SkipIfEqReg { x, y } => {
                self.skip_if_eq_reg(x, y);
                Ok(())
            },
            Opcode::SetReg { x, byte } => {
                self.set_reg(x, byte);
                Ok(())
            },
            Opcode::AddByteToReg { x, byte } => {
                self.add_byte_to_reg(x, byte);
                Ok(())
            },
            Opcode::SetRegToReg { x, y } => {
                self.set_reg_to_reg(x, y);
                Ok(())
            },
            Opcode::OrReg { x, y } => {
                self.or_reg(x, y);
                Ok(())
            },
            Opcode::AndReg { x, y } => {
                self.and_reg(x, y);
                Ok(())
            },
            Opcode::XorReg { x, y } => {
                self.xor_reg(x, y);
                Ok(())
            },
            Opcode::AddRegToReg { x, y } => {
                self.add_reg_to_reg(x, y);
                Ok(())
            },
            Opcode::SubRegFromReg { x, y } => {
                self.sub_reg_from_reg(x, y);
                Ok(())
            },
            Opcode::ShrReg { x } => {
                self.shr_reg(x);
                Ok(())
            },
            Opcode::SubnRegFromReg { x, y } => {
                self.subn_reg_from_reg(x, y);
                Ok(())
            },
            Opcode::ShlReg { x } => {
                self.shl_reg(x);
                Ok(())
            },
            Opcode::SkipIfNeqReg { x, y } => {
                self.skip_if_neq_reg(x, y);
                Ok(())
            },
            Opcode::SetI(addr) => {
                self.set_i(addr);
                Ok(())
            },
            Opcode::JumpV0(addr) => {
                self.jump_v0(addr);
                Ok(())
            },
            Opcode::RndAndByte { x, byte } => {
                self.rnd_and_byte(x, byte, rnd);
                Ok(())
            },
            Opcode::DrawSprite { x, y, n } => self.draw_sprite(x, y, n),
            Opcode::SkipIfKeyPressed { x } => {
                self.skip_if_key_pressed(x);
                Ok(())
            },
            Opcode::SkipIfKeyNotPressed { x } => {
                self.skip_if_key_not_pressed(x);
                Ok(())
            },
            Opcode::SetRegToDelayTimer { x } => {
                self.set_reg_to_delay_timer(x);
                Ok(())
            },
            Opcode::WaitKeyPress { x } => {
                self.wait_key_press(x);
                Ok(())
            },
            Opcode::SetDelayTimer { x } => {
                self.set_delay_timer(x);
                Ok(())
            },
            Opcode::SetSoundTimer { x } => {
                self.set_sound_timer(x);
                Ok(())
            },
            Opcode::AddRegToI { x } => {
                self.add_reg_to_i(x);
                Ok(())
            },
            Opcode::SetIToSpriteAddr { x } => {
                self.set_i_to_sprite_addr(x);
                Ok(())
            },
            Opcode::StoreBCD { x } => self.store_bcd(x),
            Opcode::StoreRegs { x } => self.store_regs(x),
            Opcode::LoadRegs { x } => self.load_regs(x),
        }
    }

    /// One fetch-decode-execute cycle with an injected random byte: the
    /// state and result are exactly `step_spec` of the state before, so
    /// a deterministic source can stand in for the generator.
    pub fn tick_with(&mut self, rnd: u8) -> (r: Result<(), EmulatorError>)
        requires
            old(self)@.wf(),
        ensures
            final(self)@.wf(),
            ({
                let (m2, r2) = old(self)@.step_spec(rnd);
                final(self)@ == m2 && r == r2
            }),
    {
        proof {
            lemma_step_wf(old(self)@, rnd);
        }
        let w = match self.fetch() {
            Ok(w) => w,
            Err(e) => {
                return Err(e);
            },
        };
        self.execute(w, rnd)
    }

    /// One fetch-decode-execute cycle, drawing the random byte from the
    /// generator: the outcome is `step_spec` for some byte.
    pub fn tick(&mut self) -> (r: Result<(), EmulatorError>)
        requires
            old(self)@.wf(),
        ensures
            final(self)@.wf(),
            exists|b: u8| (#[trigger] old(self)@.step_spec(b)) == (final(self)@, r),
    {
        let b = random_byte();
        let r = self.tick_with(b);
        proof {
            assert(old(self)@.step_spec(b) == (self@, r));
        }
        r
    }

    fn load_regs(&mut self, x: usize) -> (r: Result<(), EmulatorError>)
        requires
            x < NUM_REGS,
        ensures
            ({
                let (m2, r2) = old(self)@.load_regs_spec(x);
                final(self)@ == m2 && r == r2
            }),
    {
        let i: usize = self.i_reg as usize;
        if i + x >= RAM_SIZE {
            return Err(EmulatorError::MemoryFault(self.i_reg));
        }
        let mut j: usize = 0;
        while j <= x
            invariant
                x < NUM_REGS,
                j <= x + 1,
                i == old(self)@.i_reg,
                i + x < RAM_SIZE,
                self@ == (Machine { v_reg: self@.v_reg, ..old(self)@ }),
                self@.v_reg.len() == NUM_REGS,
                forall|k: int| 0 <= k < j ==> self@.v_reg[k] == old(self)@.ram[i + k],
                forall|k: int| j <= k < NUM_REGS ==> self@.v_reg[k] == old(self)@.v_reg[k],
            decreases x - j + 1,
        {
            self.v_reg[j] = self.ram[i + j];
            j = j + 1;
        }
        proof {
            assert(self@.v_reg =~= old(self)@.load_regs_spec(x).0.v_reg);
        }
        Ok(())
    }
}

} // verus!
