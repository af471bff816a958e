//! The machine itself: memory, register file, call stack, framebuffer and
//! timers, together with one handler per instruction and the
//! fetch-decode-execute cycle that drives them.

use vstd::prelude::*;

use crate::decode::decode;
use crate::error::Chip8Error;
use crate::keypad::Keypad;
use crate::semantics::{
    advanced, collides_before, covered_before, cpu_same, diff_lo, diff_no_borrow, fb_same,
    index_same, lemma_collides_full, lemma_collides_row_roll, lemma_covered_full,
    lemma_covered_row_roll, lemma_pixel_index_injective, mem_same, pc_same, pixel_index, regs_same,
    shl_lo, shl_out, shr_lo, shr_out, spec_arith, spec_bcd, spec_call, spec_clear_display,
    spec_cycle, spec_display, spec_fetch, spec_jump, spec_load_registers, spec_ret, spec_set_delay,
    spec_set_index, spec_set_reg, spec_set_sound, spec_skip_if, spec_store_registers,
    sprite_covers, sprite_pixel_on, stack_same, sum_carry, sum_lo, timers_same,
};

verus! {

/// The built-in sprite table: five rows for each of the sixteen hexadecimal
/// digits, written to the bottom of memory once at construction.
pub open spec fn spec_fontset() -> Seq<u8> {
    seq![
        0xF0u8, 0x90, 0x90, 0x90, 0xF0,
        0x20, 0x60, 0x20, 0x20, 0x70,
        0xF0, 0x10, 0xF0, 0x80, 0xF0,
        0xF0, 0x10, 0xF0, 0x10, 0xF0,
        0x90, 0x90, 0xF0, 0x10, 0x10,
        0xF0, 0x80, 0xF0, 0x10, 0xF0,
        0xF0, 0x80, 0xF0, 0x90, 0xF0,
        0xF0, 0x10, 0x20, 0x40, 0x40,
        0xF0, 0x90, 0xF0, 0x90, 0xF0,
        0xF0, 0x90, 0xF0, 0x10, 0xF0,
        0xF0, 0x90, 0xF0, 0x90, 0x90,
        0xE0, 0x90, 0xE0, 0x90, 0xE0,
        0xF0, 0x80, 0x80, 0x80, 0xF0,
        0xE0, 0x90, 0x90, 0x90, 0xE0,
        0xF0, 0x80, 0xF0, 0x80, 0xF0,
        0xF0, 0x80, 0xF0, 0x80, 0x80,
    ]
}

/// The fontset as bytes in memory order.
fn fontset() -> (v: Vec<u8>)
    ensures
        v@ == spec_fontset(),
{
    let mut v: Vec<u8> = Vec::new();
    v.push(0xF0);
    v.push(0x90);
    v.push(0x90);
    v.push(0x90);
    v.push(0xF0);
    v.push(0x20);
    v.push(0x60);
    v.push(0x20);
    v.push(0x20);
    v.push(0x70);
    v.push(0xF0);
    v.push(0x10);
    v.push(0xF0);
    v.push(0x80);
    v.push(0xF0);
    v.push(0xF0);
    v.push(0x10);
    v.push(0xF0);
    v.push(0x10);
    v.push(0xF0);
    v.push(0x90);
    v.push(0x90);
    v.push(0xF0);
    v.push(0x10);
    v.push(0x10);
    v.push(0xF0);
    v.push(0x80);
    v.push(0xF0);
    v.push(0x10);
    v.push(0xF0);
    v.push(0xF0);
    v.push(0x80);
    v.push(0xF0);
    v.push(0x90);
    v.push(0xF0);
    v.push(0xF0);
    v.push(0x10);
    v.push(0x20);
    v.push(0x40);
    v.push(0x40);
    v.push(0xF0);
    v.push(0x90);
    v.push(0xF0);
    v.push(0x90);
    v.push(0xF0);
    v.push(0xF0);
    v.push(0x90);
    v.push(0xF0);
    v.push(0x10);
    v.push(0xF0);
    v.push(0xF0);
    v.push(0x90);
    v.push(0xF0);
    v.push(0x90);
    v.push(0x90);
    v.push(0xE0);
    v.push(0x90);
    v.push(0xE0);
    v.push(0x90);
    v.push(0xE0);
    v.push(0xF0);
    v.push(0x80);
    v.push(0x80);
    v.push(0x80);
    v.push(0xF0);
    v.push(0xE0);
    v.push(0x90);
    v.push(0x90);
    v.push(0x90);
    v.push(0xE0);
    v.push(0xF0);
    v.push(0x80);
    v.push(0xF0);
    v.push(0x80);
    v.push(0xF0);
    v.push(0xF0);
    v.push(0x80);
    v.push(0xF0);
    v.push(0x80);
    v.push(0x80);
    proof {
        assert(v@ =~= spec_fontset());
    }
    v
}

/// The machine state: 4096 bytes of memory, sixteen 8-bit registers, the
/// 16-bit index register, the program counter, a 16-entry return stack, the
/// 64x32 framebuffer (row-major, index `y * 64 + x`) and the two countdown
/// timers.
pub struct CPU {
    pub position_in_memory: usize,
    pub index_register: u16,
    pub registers: Vec<u8>,
    pub memory: Vec<u8>,
    pub frame_buffer: Vec<bool>,
    pub stack: Vec<u16>,
    pub stack_pointer: usize,
    pub delay_timer: u8,
    pub sound_timer: u8,
}

impl CPU {
    /// Every component has its fixed size, the stack pointer stays within
    /// the stack, and the program counter fits in sixteen bits.
    pub open spec fn wf(self) -> bool {
        &&& self.registers@.len() == 16
        &&& self.memory@.len() == 4096
        &&& self.frame_buffer@.len() == 2048
        &&& self.stack@.len() == 16
        &&& self.stack_pointer <= 16
        &&& self.position_in_memory <= 0xFFFF
    }

    /// A fresh machine: everything zeroed, the fontset in the bottom 80
    /// bytes of memory, the program counter at the load address 0x200.
    pub fn new() -> (cpu: CPU)
        ensures
            cpu.wf(),
            cpu.position_in_memory == 0x200,
            cpu.index_register == 0,
            cpu.stack_pointer == 0,
            cpu.delay_timer == 0,
            cpu.sound_timer == 0,
            forall|i: int| 0 <= i < 16 ==> cpu.registers@[i] == 0,
            forall|i: int| 0 <= i < 16 ==> cpu.stack@[i] == 0,
            forall|p: int| 0 <= p < 2048 ==> !cpu.frame_buffer@[p],
            forall|i: int| 0 <= i < 80 ==> cpu.memory@[i] == spec_fontset()[i],
            forall|i: int| 80 <= i < 4096 ==> cpu.memory@[i] == 0,
    {
        let mut memory = fontset();
        while memory.len() < 4096
            invariant
                80 <= memory@.len() <= 4096,
                forall|i: int| 0 <= i < 80 ==> memory@[i] == spec_fontset()[i],
                forall|i: int| 80 <= i < memory@.len() ==> memory@[i] == 0,
            decreases 4096 - memory@.len(),
        {
            memory.push(0);
        }
        CPU {
            registers: vec![0u8; 16],
            memory,
            position_in_memory: 0x200,
            stack: vec![0u16; 16],
            stack_pointer: 0,
            index_register: 0,
            frame_buffer: vec![false; 2048],
            delay_timer: 0,
            sound_timer: 0,
        }
    }

    /// Copies a program image into memory starting at the load address
    /// 0x200. An image larger than the 0xE00 bytes available there is
    /// rejected whole, leaving memory untouched.
    pub fn load_rom(&mut self, rom: &[u8]) -> (r: Result<(), Chip8Error>)
        requires
            old(self).wf(),
        ensures
            final(self).wf(),
            if rom@.len() <= 0xE00 {
                &&& r is Ok
                &&& final(self).memory@.len() == 4096
                &&& forall|i: int|
                    0 <= i < rom@.len() ==> final(self).memory@[0x200 + i] == rom@[i]
                &&& forall|p: int|
                    0 <= p < 4096 && !(0x200 <= p < 0x200 + rom@.len())
                        ==> final(self).memory@[p] == old(self).memory@[p]
                &&& regs_same(*old(self), *final(self))
                &&& fb_same(*old(self), *final(self))
                &&& pc_same(*old(self), *final(self))
                &&& stack_same(*old(self), *final(self))
                &&& index_same(*old(self), *final(self))
                &&& timers_same(*old(self), *final(self))
            } else {
                r == Err::<(), Chip8Error>(Chip8Error::ProgramTooLarge) && cpu_same(
                    *old(self),
                    *final(self),
                )
            },
    {
        if rom.len() > 0xE00 {
            return Err(Chip8Error::ProgramTooLarge);
        }
        let mut i: usize = 0;
        while i < rom.len()
            invariant
                old(self).wf(),
                self.wf(),
                rom@.len() <= 0xE00,
                0 <= i <= rom@.len(),
                forall|k: int| 0 <= k < i ==> self.memory@[0x200 + k] == rom@[k],
                forall|p: int|
                    0 <= p < 4096 && !(0x200 <= p < 0x200 + i)
                        ==> self.memory@[p] == old(self).memory@[p],
                regs_same(*old(self), *self),
                fb_same(*old(self), *self),
                pc_same(*old(self), *self),
                stack_same(*old(self), *self),
                index_same(*old(self), *self),
                timers_same(*old(self), *self),
            decreases rom@.len() - i,
        {
            self.memory[0x200 + i] = rom[i];
            i = i + 1;
        }
        Ok(())
    }

    /// Fetches the two bytes at the program counter as one big-endian word.
    fn read_opcode(&self) -> (r: Result<u16, Chip8Error>)
        requires
            self.wf(),
        ensures
            match r {
                Ok(w) => self.position_in_memory + 1 < 4096 && w == spec_fetch(
                    self.memory@,
                    self.position_in_memory as int,
                ),
                Err(e) => e == Chip8Error::OutOfBounds && self.position_in_memory + 1 >= 4096,
            },
    {
        let p = self.position_in_memory;
        if p + 1 < 4096 {
            let op_byte1 = self.memory[p];
            let op_byte2 = self.memory[p + 1];
            Ok(((op_byte1 as u16) << 8) | (op_byte2 as u16))
        } else {
            Err(Chip8Error::OutOfBounds)
        }
    }

    /// `7xkk`: immediate add with the carry flag in register 0xF.
    fn add_xkk(&mut self, x: u8, kk: u8)
        requires
            old(self).wf(),
            x < 16,
        ensures
            final(self).wf(),
            spec_arith(
                *old(self),
                *final(self),
                x as int,
                sum_lo(old(self).registers@[x as int] as int, kk as int),
                sum_carry(old(self).registers@[x as int] as int, kk as int),
            ),
    {
        let arg1 = self.registers[x as usize];
        let sum: u16 = arg1 as u16 + kk as u16;
        self.registers[x as usize] = (sum % 256) as u8;
        if sum >= 256 {
            self.registers[15] = 1;
        } else {
            self.registers[15] = 0;
        }
    }

    /// `8xy4`: register add with the carry flag in register 0xF.
    fn add_xy(&mut self, x: u8, y: u8)
        requires
            old(self).wf(),
            x < 16,
            y < 16,
        ensures
            final(self).wf(),
            spec_arith(
                *old(self),
                *final(self),
                x as int,
                sum_lo(
                    old(self).registers@[x as int] as int,
                    old(self).registers@[y as int] as int,
                ),
                sum_carry(
                    old(self).registers@[x as int] as int,
                    old(self).registers@[y as int] as int,
                ),
            ),
    {
        let arg1 = self.registers[x as usize];
        let arg2 = self.registers[y as usize];
        let sum: u16 = arg1 as u16 + arg2 as u16;
        self.registers[x as usize] = (sum % 256) as u8;
        if sum >= 256 {
            self.registers[15] = 1;
        } else {
            self.registers[15] = 0;
        }
    }

    /// `8xy5`: `Vx - Vy`, with the no-borrow flag in register 0xF.
    fn sub_xy(&mut self, vx: u8, vy: u8)
        requires
            old(self).wf(),
            vx < 16,
            vy < 16,
        ensures
            final(self).wf(),
            spec_arith(
                *old(self),
                *final(self),
                vx as int,
                diff_lo(
                    old(self).registers@[vx as int] as int,
                    old(self).registers@[vy as int] as int,
                ),
                diff_no_borrow(
                    old(self).registers@[vx as int] as int,
                    old(self).registers@[vy as int] as int,
                ),
            ),
    {
        let arg1 = self.registers[vx as usize];
        let arg2 = self.registers[vy as usize];
        let val = if arg1 >= arg2 {
            arg1 - arg2
        } else {
            (256u16 + arg1 as u16 - arg2 as u16) as u8
        };
        self.registers[vx as usize] = val;
        if arg1 >= arg2 {
            self.registers[15] = 1;
        } else {
            self.registers[15] = 0;
        }
    }

    /// `8xy7`: `Vy - Vx`, with the same no-borrow flag convention as `8xy5`.
    fn subn_xy(&mut self, vx: u8, vy: u8)
        requires
            old(self).wf(),
            vx < 16,
            vy < 16,
        ensures
            final(self).wf(),
            spec_arith(
                *old(self),
                *final(self),
                vx as int,
                diff_lo(
                    old(self).registers@[vy as int] as int,
                    old(self).registers@[vx as int] as int,
                ),
                diff_no_borrow(
                    old(self).registers@[vy as int] as int,
                    old(self).registers@[vx as int] as int,
                ),
            ),
    {
        let arg1 = self.registers[vy as usize];
        let arg2 = self.registers[vx as usize];
        let val = if arg1 >= arg2 {
            arg1 - arg2
        } else {
            (256u16 + arg1 as u16 - arg2 as u16) as u8
        };
        self.registers[vx as usize] = val;
        if arg1 >= arg2 {
            self.registers[15] = 1;
        } else {
            self.registers[15] = 0;
        }
    }

    /// `3xkk`: skip the next instruction when `Vx` equals the immediate.
    fn se(&mut self, vx: u8, kk: u8)
        requires
            old(self).wf(),
            vx < 16,
            old(self).position_in_memory + 2 <= 0xFFFF,
        ensures
            final(self).wf(),
            spec_skip_if(*old(self), *final(self), old(self).registers@[vx as int] == kk),
    {
        if self.registers[vx as usize] == kk {
            self.position_in_memory = self.position_in_memory + 2;
        }
    }

    /// `4xkk`: skip the next instruction when `Vx` differs from the
    /// immediate.
    fn sne(&mut self, vx: u8, kk: u8)
        requires
            old(self).wf(),
            vx < 16,
            old(self).position_in_memory + 2 <= 0xFFFF,
        ensures
            final(self).wf(),
            spec_skip_if(*old(self), *final(self), old(self).registers@[vx as int] != kk),
    {
        if self.registers[vx as usize] != kk {
            self.position_in_memory = self.position_in_memory + 2;
        }
    }

    /// `9xy0`: skip the next instruction when `Vx` differs from `Vy`.
    fn sne_xy(&mut self, vx: u8, vy: u8)
        requires
            old(self).wf(),
            vx < 16,
            vy < 16,
            old(self).position_in_memory + 2 <= 0xFFFF,
        ensures
            final(self).wf(),
            spec_skip_if(
                *old(self),
                *final(self),
                old(self).registers@[vx as int] != old(self).registers@[vy as int],
            ),
    {
        if self.registers[vx as usize] != self.registers[vy as usize] {
            self.position_in_memory = self.position_in_memory + 2;
        }
    }

    /// `5xy0`: skip the next instruction when `Vx` equals `Vy`.
    fn se_registers(&mut self, vx: u8, vy: u8)
        requires
            old(self).wf(),
            vx < 16,
            vy < 16,
            old(self).position_in_memory + 2 <= 0xFFFF,
        ensures
            final(self).wf(),
            spec_skip_if(
                *old(self),
                *final(self),
                old(self).registers@[vx as int] == old(self).registers@[vy as int],
            ),
    {
        if self.registers[vx as usize] == self.registers[vy as usize] {
            self.position_in_memory = self.position_in_memory + 2;
        }
    }

    /// `8xy0`: register-to-register copy.
    fn ld(&mut self, vx: u8, vy: u8)
        requires
            old(self).wf(),
            vx < 16,
            vy < 16,
        ensures
            final(self).wf(),
            spec_set_reg(*old(self), *final(self), vx as int, old(self).registers@[vy as int]),
    {
        self.registers[vx as usize] = self.registers[vy as usize];
    }

    /// `8xy1`: bitwise OR into `Vx`.
    fn or(&mut self, vx: u8, vy: u8)
        requires
            old(self).wf(),
            vx < 16,
            vy < 16,
        ensures
            final(self).wf(),
            spec_set_reg(
                *old(self),
                *final(self),
                vx as int,
                old(self).registers@[vx as int] | old(self).registers@[vy as int],
            ),
    {
        self.registers[vx as usize] = self.registers[vx as usize] | self.registers[vy as usize];
    }

    /// `8xy2`: bitwise AND into `Vx`.
    fn and(&mut self, vx: u8, vy: u8)
        requires
            old(self).wf(),
            vx < 16,
            vy < 16,
        ensures
            final(self).wf(),
            spec_set_reg(
                *old(self),
                *final(self),
                vx as int,
                old(self).registers@[vx as int] & old(self).registers@[vy as int],
            ),
    {
        self.registers[vx as usize] = self.registers[vx as usize] & self.registers[vy as usize];
    }

    /// `8xy3`: bitwise XOR into `Vx`.
    fn xor(&mut self, vx: u8, vy: u8)
        requires
            old(self).wf(),
            vx < 16,
            vy < 16,
        ensures
            final(self).wf(),
            spec_set_reg(
                *old(self),
                *final(self),
                vx as int,
                old(self).registers@[vx as int] ^ old(self).registers@[vy as int],
            ),
    {
        self.registers[vx as usize] = self.registers[vx as usize] ^ self.registers[vy as usize];
    }

    /// `8xy6`: shift `Vx` right one bit; register 0xF takes the bit shifted
    /// out of the pre-shift value.
    fn shr(&mut self, vx: u8)
        requires
            old(self).wf(),
            vx < 16,
        ensures
            final(self).wf(),
            spec_arith(
                *old(self),
                *final(self),
                vx as int,
                shr_lo(old(self).registers@[vx as int]),
                shr_out(old(self).registers@[vx as int]),
            ),
    {
        let v = self.registers[vx as usize];
        self.registers[vx as usize] = v / 2;
        self.registers[15] = v % 2;
    }

    /// `8xyE`: shift `Vx` left one bit; register 0xF takes the bit shifted
    /// out of the pre-shift value.
    fn shl(&mut self, vx: u8)
        requires
            old(self).wf(),
            vx < 16,
        ensures
            final(self).wf(),
            spec_arith(
                *old(self),
                *final(self),
                vx as int,
                shl_lo(old(self).registers@[vx as int]),
                shl_out(old(self).registers@[vx as int]),
            ),
    {
        let v = self.registers[vx as usize];
        self.registers[vx as usize] = ((v as u16 * 2) % 256) as u8;
        self.registers[15] = v / 128;
    }

    /// `2nnn`: push the already-advanced program counter, then jump to
    /// `nnn`. A full stack overflows and changes nothing.
    fn call(&mut self, nnn: u16) -> (r: Result<(), Chip8Error>)
        requires
            old(self).wf(),
            nnn < 0x1000,
        ensures
            final(self).wf(),
            spec_call(*old(self), *final(self), nnn as int, r),
    {
        if self.stack_pointer >= 16 {
            return Err(Chip8Error::StackOverflow);
        }
        self.stack[self.stack_pointer] = self.position_in_memory as u16;
        self.stack_pointer = self.stack_pointer + 1;
        self.position_in_memory = nnn as usize;
        Ok(())
    }

    /// `00EE`: pop the return stack into the program counter. An empty
    /// stack underflows and changes nothing.
    fn ret(&mut self) -> (r: Result<(), Chip8Error>)
        requires
            old(self).wf(),
        ensures
            final(self).wf(),
            spec_ret(*old(self), *final(self), r),
    {
        if self.stack_pointer == 0 {
            return Err(Chip8Error::StackUnderflow);
        }
        self.stack_pointer = self.stack_pointer - 1;
        let addr = self.stack[self.stack_pointer];
        self.position_in_memory = addr as usize;
        Ok(())
    }

    /// `1nnn`: jump to `nnn`.
    fn jump(&mut self, nnn: u16)
        requires
            old(self).wf(),
        ensures
            final(self).wf(),
            spec_jump(*old(self), *final(self), nnn as int),
    {
        self.position_in_memory = nnn as usize;
    }

    /// `Bnnn`: jump to `nnn` plus the value of register 0.
    fn jump_v0(&mut self, nnn: u16)
        requires
            old(self).wf(),
            nnn < 0x1000,
        ensures
            final(self).wf(),
            spec_jump(
                *old(self),
                *final(self),
                nnn as int + old(self).registers@[0] as int,
            ),
    {
        let target = nnn + self.registers[0] as u16;
        self.position_in_memory = target as usize;
    }

    /// `6xkk`: load the immediate into `Vx`.
    fn set_register(&mut self, vx: u8, value: u8)
        requires
            old(self).wf(),
            vx < 16,
        ensures
            final(self).wf(),
            spec_set_reg(*old(self), *final(self), vx as int, value),
    {
        self.registers[vx as usize] = value;
    }

    /// `Fx07`: read the delay timer into `Vx`.
    fn set_vx_dt(&mut self, vx: u8)
        requires
            old(self).wf(),
            vx < 16,
        ensures
            final(self).wf(),
            spec_set_reg(*old(self), *final(self), vx as int, old(self).delay_timer),
    {
        self.registers[vx as usize] = self.delay_timer;
    }

    /// `Fx15`: set the delay timer from `Vx`.
    fn set_dt_vx(&mut self, vx: u8)
        requires
            old(self).wf(),
            vx < 16,
        ensures
            final(self).wf(),
            spec_set_delay(*old(self), *final(self), old(self).registers@[vx as int]),
    {
        self.delay_timer = self.registers[vx as usize];
    }

    /// `Fx18`: set the sound timer from `Vx`.
    fn set_st_vx(&mut self, vx: u8)
        requires
            old(self).wf(),
            vx < 16,
        ensures
            final(self).wf(),
            spec_set_sound(*old(self), *final(self), old(self).registers@[vx as int]),
    {
        self.sound_timer = self.registers[vx as usize];
    }

    /// `Fx55`: store registers 0 through `vx` inclusive into memory at the
    /// index register. The index register itself is left unchanged.
    fn fx55(&mut self, vx: u8) -> (r: Result<(), Chip8Error>)
        requires
            old(self).wf(),
            vx < 16,
        ensures
            final(self).wf(),
            spec_store_registers(*old(self), *final(self), vx as int, r),
    {
        let base = self.index_register as usize;
        if base + vx as usize >= 4096 {
            return Err(Chip8Error::OutOfBounds);
        }
        let mut k: usize = 0;
        while k <= vx as usize
            invariant
                self.wf(),
                vx < 16,
                base == old(self).index_register as usize,
                base + vx < 4096,
                0 <= k <= vx + 1,
                forall|t: int| 0 <= t < k ==> self.memory@[base + t] == old(self).registers@[t],
                forall|p: int|
                    0 <= p < 4096 && !(base <= p < base + k)
                        ==> self.memory@[p] == old(self).memory@[p],
                regs_same(*old(self), *self),
                fb_same(*old(self), *self),
                pc_same(*old(self), *self),
                stack_same(*old(self), *self),
                index_same(*old(self), *self),
                timers_same(*old(self), *self),
            decreases vx + 1 - k,
        {
            self.memory[base + k] = self.registers[k];
            k = k + 1;
        }
        Ok(())
    }

    /// `Fx65`: load registers 0 through `vx` inclusive from memory at the
    /// index register; higher registers keep their values. The index
    /// register itself is left unchanged.
    fn fx65(&mut self, vx: u8) -> (r: Result<(), Chip8Error>)
        requires
            old(self).wf(),
            vx < 16,
        ensures
            final(self).wf(),
            spec_load_registers(*old(self), *final(self), vx as int, r),
    {
        let base = self.index_register as usize;
        if base + vx as usize >= 4096 {
            return Err(Chip8Error::OutOfBounds);
        }
        let mut k: usize = 0;
        while k <= vx as usize
            invariant
                self.wf(),
                vx < 16,
                base == old(self).index_register as usize,
                base + vx < 4096,
                0 <= k <= vx + 1,
                forall|t: int| 0 <= t < k ==> self.registers@[t] == old(self).memory@[base + t],
                forall|t: int| k <= t < 16 ==> self.registers@[t] == old(self).registers@[t],
                mem_same(*old(self), *self),
                fb_same(*old(self), *self),
                pc_same(*old(self), *self),
                stack_same(*old(self), *self),
                index_same(*old(self), *self),
                timers_same(*old(self), *self),
            decreases vx + 1 - k,
        {
            self.registers[k] = self.memory[base + k];
            k = k + 1;
        }
        Ok(())
    }

    /// `Fx33`: write the hundreds, tens and ones digits of `Vx` to the
    /// three memory bytes starting at the index register.
    fn fx33(&mut self, vx: u8) -> (r: Result<(), Chip8Error>)
        requires
            old(self).wf(),
            vx < 16,
        ensures
            final(self).wf(),
            spec_bcd(*old(self), *final(self), vx as int, r),
    {
        let base = self.index_register as usize;
        if base + 2 >= 4096 {
            return Err(Chip8Error::OutOfBounds);
        }
        let x = self.registers[vx as usize];
        self.memory[base] = x / 100;
        self.memory[base + 1] = (x / 10) % 10;
        self.memory[base + 2] = x % 10;
        Ok(())
    }

    /// `Dxyn`: draw the `n`-byte sprite at the index register at screen
    /// position `(Vx, Vy)`, XOR-compositing each bit with wrapping
    /// coordinates; register 0xF reports whether any pixel flipped from set
    /// to unset over the whole draw.
    fn display(&mut self, vx: u8, vy: u8, n: u8) -> (r: Result<(), Chip8Error>)
        requires
            old(self).wf(),
            vx < 16,
            vy < 16,
            n < 16,
        ensures
            final(self).wf(),
            spec_display(*old(self), *final(self), vx as int, vy as int, n as int, r),
    {
        let base = self.index_register as usize;
        if base + n as usize > 4096 {
            return Err(Chip8Error::OutOfBounds);
        }
        let x = self.registers[vx as usize];
        let y = self.registers[vy as usize];
        let ghost gvx = x as int;
        let ghost gvy = y as int;
        let ghost gbase = base as int;
        let ghost gn = n as int;
        let ghost mem0 = self.memory@;
        let ghost fb0 = self.frame_buffer@;
        let mut collision = false;
        let mut i: usize = 0;
        while i < n as usize
            invariant
                self.wf(),
                vx < 16,
                vy < 16,
                n < 16,
                x == old(self).registers@[vx as int],
                y == old(self).registers@[vy as int],
                gvx == x as int,
                gvy == y as int,
                base == old(self).index_register as usize,
                gbase == base as int,
                gn == n as int,
                base + n <= 4096,
                mem0 == old(self).memory@,
                fb0 == old(self).frame_buffer@,
                0 <= i <= n,
                regs_same(*old(self), *self),
                mem_same(*old(self), *self),
                pc_same(*old(self), *self),
                stack_same(*old(self), *self),
                index_same(*old(self), *self),
                timers_same(*old(self), *self),
                forall|a: int, b: int|
                    0 <= a && 0 <= b < 8 && a < i ==> self.frame_buffer@[pixel_index(
                        gvx,
                        gvy,
                        a,
                        b,
                    )] == (fb0[pixel_index(gvx, gvy, a, b)] != sprite_pixel_on(
                        mem0[gbase + a],
                        b,
                    )),
                forall|p: int|
                    0 <= p < 2048 && !covered_before(gvx, gvy, i as int, 0, p)
                        ==> self.frame_buffer@[p] == fb0[p],
                collision == collides_before(mem0, fb0, gbase, gvx, gvy, i as int, 0),
            decreases n - i,
        {
            let row = self.memory[base + i];
            let mut j: usize = 0;
            while j < 8
                invariant
                    self.wf(),
                    vx < 16,
                    vy < 16,
                    n < 16,
                    x == old(self).registers@[vx as int],
                    y == old(self).registers@[vy as int],
                    gvx == x as int,
                    gvy == y as int,
                    base == old(self).index_register as usize,
                    gbase == base as int,
                    gn == n as int,
                    base + n <= 4096,
                    mem0 == old(self).memory@,
                    fb0 == old(self).frame_buffer@,
                    0 <= i < n,
                    0 <= j <= 8,
                    row == mem0[gbase + i],
                    regs_same(*old(self), *self),
                    mem_same(*old(self), *self),
                    pc_same(*old(self), *self),
                    stack_same(*old(self), *self),
                    index_same(*old(self), *self),
                    timers_same(*old(self), *self),
                    forall|a: int, b: int|
                        0 <= a && 0 <= b < 8 && (a < i || (a == i && b < j))
                            ==> self.frame_buffer@[pixel_index(gvx, gvy, a, b)] == (
                        fb0[pixel_index(gvx, gvy, a, b)] != sprite_pixel_on(mem0[gbase + a], b)),
                    forall|p: int|
                        0 <= p < 2048 && !covered_before(gvx, gvy, i as int, j as int, p)
                            ==> self.frame_buffer@[p] == fb0[p],
                    collision == collides_before(mem0, fb0, gbase, gvx, gvy, i as int, j as int),
                decreases 8 - j,
            {
                proof {
                    lemma_pixel_index_injective(gvx, gvy);
                }
                let shift: u8 = (7 - j) as u8;
                let bit = ((row >> shift) & 1) == 1;
                let xi = (x as usize + j) % 64;
                let yi = (y as usize + i) % 32;
                let p = yi * 64 + xi;
                let ghost gi = i as int;
                let ghost gj = j as int;
                let ghost gp = pixel_index(gvx, gvy, gi, gj);
                proof {
                    assert(p as int == gp);
                    assert(p < 2048);
                    assert(bit == sprite_pixel_on(mem0[gbase + gi], gj));
                }
                let old_pix = self.frame_buffer[p];
                proof {
                    if covered_before(gvx, gvy, gi, gj, p as int) {
                        let (a, b) = choose|a: int, b: int|
                            0 <= a && 0 <= b < 8 && (a < gi || (a == gi && b < gj)) && pixel_index(
                                gvx,
                                gvy,
                                a,
                                b,
                            ) == p as int;
                        assert(pixel_index(gvx, gvy, a, b) == pixel_index(gvx, gvy, gi, gj));
                        assert(false);
                    }
                    assert(old_pix == fb0[gp]);
                }
                if old_pix && bit {
                    collision = true;
                }
                self.frame_buffer[p] = old_pix != bit;
                proof {
                    assert forall|a: int, b: int|
                        0 <= a && 0 <= b < 8 && (a < gi || (a == gi && b < gj + 1)) implies
                        self.frame_buffer@[pixel_index(gvx, gvy, a, b)] == (fb0[pixel_index(
                        gvx,
                        gvy,
                        a,
                        b,
                    )] != sprite_pixel_on(mem0[gbase + a], b)) by {
                        if !(a == gi && b == gj) {
                            assert(a < gi || (a == gi && b < gj));
                            assert(pixel_index(gvx, gvy, a, b) != gp);
                        }
                    }
                    assert(0 <= gi && 0 <= gj < 8 && (gi < gi || (gi == gi && gj < gj + 1))
                        && pixel_index(gvx, gvy, gi, gj) == gp);
                    assert(covered_before(gvx, gvy, gi, gj + 1, gp));
                    assert forall|q: int|
                        0 <= q < 2048 && !covered_before(gvx, gvy, gi, gj + 1, q) implies
                        self.frame_buffer@[q] == fb0[q] by {
                        assert(q != gp);
                        if covered_before(gvx, gvy, gi, gj, q) {
                            let (a, b) = choose|a: int, b: int|
                                0 <= a && 0 <= b < 8 && (a < gi || (a == gi && b < gj))
                                    && pixel_index(gvx, gvy, a, b) == q;
                            assert(a < gi || (a == gi && b < gj + 1));
                            assert(covered_before(gvx, gvy, gi, gj + 1, q));
                        }
                    }
                    if collision {
                        if collides_before(mem0, fb0, gbase, gvx, gvy, gi, gj) {
                            let (a, b) = choose|a: int, b: int|
                                0 <= a && 0 <= b < 8 && (a < gi || (a == gi && b < gj))
                                    && sprite_pixel_on(mem0[gbase + a], b) && fb0[pixel_index(
                                    gvx,
                                    gvy,
                                    a,
                                    b,
                                )];
                            assert(a < gi || (a == gi && b < gj + 1));
                            assert(collides_before(mem0, fb0, gbase, gvx, gvy, gi, gj + 1));
                        } else {
                            assert(sprite_pixel_on(mem0[gbase + gi], gj) && fb0[gp]);
                            assert(collides_before(mem0, fb0, gbase, gvx, gvy, gi, gj + 1));
                        }
                    } else {
                        if collides_before(mem0, fb0, gbase, gvx, gvy, gi, gj + 1) {
                            let (a, b) = choose|a: int, b: int|
                                0 <= a && 0 <= b < 8 && (a < gi || (a == gi && b < gj + 1))
                                    && sprite_pixel_on(mem0[gbase + a], b) && fb0[pixel_index(
                                    gvx,
                                    gvy,
                                    a,
                                    b,
                                )];
                            if a == gi && b == gj {
                                assert(false);
                            } else {
                                assert(a < gi || (a == gi && b < gj));
                                assert(collides_before(mem0, fb0, gbase, gvx, gvy, gi, gj));
                                assert(false);
                            }
                        }
                    }
                }
                j = j + 1;
            }
            proof {
                assert forall|p: int|
                    covered_before(gvx, gvy, i as int, 8, p) == covered_before(
                        gvx,
                        gvy,
                        i as int + 1,
                        0,
                        p,
                    ) by {
                    lemma_covered_row_roll(gvx, gvy, i as int, p);
                }
                lemma_collides_row_roll(mem0, fb0, gbase, gvx, gvy, i as int);
            }
            i = i + 1;
        }
        proof {
            assert forall|p: int|
                covered_before(gvx, gvy, gn, 0, p) == sprite_covers(gvx, gvy, gn, p) by {
                lemma_covered_full(gvx, gvy, gn, p);
            }
            lemma_collides_full(mem0, fb0, gbase, gvx, gvy, gn);
        }
        if collision {
            self.registers[15] = 1;
        } else {
            self.registers[15] = 0;
        }
        Ok(())
    }

    /// `00E0`: unset every framebuffer pixel.
    fn clear_display(&mut self)
        requires
            old(self).wf(),
        ensures
            final(self).wf(),
            spec_clear_display(*old(self), *final(self)),
    {
        let cleared: Vec<bool> = vec![false; 2048];
        self.frame_buffer = cleared;
    }

    /// One whole fetch-decode-execute cycle: fetch the word at the program
    /// counter, advance the counter past it, decode the fields and run the
    /// matching instruction. Every failure leaves the machine in the exact
    /// state [`spec_cycle`] describes.
    pub fn run_cycle(&mut self, keypad: &Keypad) -> (r: Result<(), Chip8Error>)
        requires
            old(self).wf(),
            keypad.wf(),
        ensures
            final(self).wf(),
            spec_cycle(*old(self), *keypad, *final(self), r),
    {
        let opcode = match self.read_opcode() {
            Ok(w) => w,
            Err(e) => {
                return Err(e);
            },
        };
        self.position_in_memory = self.position_in_memory + 2;
        proof {
            assert(*self == advanced(*old(self)));
        }
        let op = decode(opcode);
        match (op.c, op.x, op.y, op.d) {
            (0, 0, 0, 0) => Ok(()),
            (0, 0, 0xE, 0) => {
                self.clear_display();
                Ok(())
            },
            (0, 0, 0xE, 0xE) => self.ret(),
            (1, _, _, _) => {
                self.jump(op.nnn);
                Ok(())
            },
            (2, _, _, _) => self.call(op.nnn),
            (3, _, _, _) => {
                self.se(op.x, op.kk);
                Ok(())
            },
            (4, _, _, _) => {
                self.sne(op.x, op.kk);
                Ok(())
            },
            (5, _, _, 0) => {
                self.se_registers(op.x, op.y);
                Ok(())
            },
            (6, _, _, _) => {
                self.set_register(op.x, op.kk);
                Ok(())
            },
            (7, _, _, _) => {
                self.add_xkk(op.x, op.kk);
                Ok(())
            },
            (8, _, _, 0) => {
                self.ld(op.x, op.y);
                Ok(())
            },
            (8, _, _, 1) => {
                self.or(op.x, op.y);
                Ok(())
            },
            (8, _, _, 2) => {
                self.and(op.x, op.y);
                Ok(())
            },
            (8, _, _, 3) => {
                self.xor(op.x, op.y);
                Ok(())
            },
            (8, _, _, 4) => {
                self.add_xy(op.x, op.y);
                Ok(())
            },
            (8, _, _, 5) => {
                self.sub_xy(op.x, op.y);
                Ok(())
            },
            (8, _, _, 6) => {
                self.shr(op.x);
                Ok(())
            },
            (8, _, _, 7) => {
                self.subn_xy(op.x, op.y);
                Ok(())
            },
            (8, _, _, 0xE) => {
                self.shl(op.x);
                Ok(())
            },
            (9, _, _, 0) => {
                self.sne_xy(op.x, op.y);
                Ok(())
            },
            (0xA, _, _, _) => {
                self.index_register = op.nnn;
                Ok(())
            },
            (0xB, _, _, _) => {
                self.jump_v0(op.nnn);
                Ok(())
            },
            (0xD, _, _, _) => self.display(op.x, op.y, op.d),
            (0xE, _, 0x9, 0xE) => {
                let key = self.registers[op.x as usize];
                if keypad.key_state(key) == 1 {
                    self.position_in_memory = self.position_in_memory + 2;
                }
                Ok(())
            },
            (0xE, _, 0xA, 0x1) => {
                let key = self.registers[op.x as usize];
                if keypad.key_state(key) == 0 {
                    self.position_in_memory = self.position_in_memory + 2;
                }
                Ok(())
            },
            (0xF, _, 0x0, 0x7) => {
                self.set_vx_dt(op.x);
                Ok(())
            },
            (0xF, _, 0x0, 0xA) => {
                match keypad.get_down_key() {
                    Some(k) => {
                        self.registers[op.x as usize] = k;
                    },
                    None => {
                        self.position_in_memory = self.position_in_memory - 2;
                    },
                }
                Ok(())
            },
            (0xF, _, 0x1, 0x5) => {
                self.set_dt_vx(op.x);
                Ok(())
            },
            (0xF, _, 0x1, 0x8) => {
                self.set_st_vx(op.x);
                Ok(())
            },
            (0xF, _, 0x1, 0xE) => {
                let sum: u32 = self.index_register as u32 + self.registers[op.x as usize] as u32;
                self.index_register = (sum % 0x10000) as u16;
                Ok(())
            },
            (0xF, _, 0x3, 0x3) => self.fx33(op.x),
            (0xF, _, 0x5, 0x5) => self.fx55(op.x),
            (0xF, _, 0x6, 0x5) => self.fx65(op.x),
            _ => Err(Chip8Error::UnimplementedOpcode),
        }
    }
}

} // verus!
