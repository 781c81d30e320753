//! The executable interpreter, proved against the machine model in
//! [`crate::semantics`].

use crate::bits::{lemma_bit_select, lemma_bits64, lemma_nibbles, lemma_row_mask_above};
use crate::semantics::{FONT_START, MAX_PROGRAM_LEN, MEM_SIZE, PROGRAM_START,
    
    draw_rows, first_pressed, font, init_mem, init_state, load_mem, load_regs, row_mask, spec_alu,
    spec_bcd, spec_draw, spec_exec_instr, spec_step, next_is_random, store_regs, State,
};
use vstd::prelude::*;

verus! {

broadcast use vstd::array::group_array_axioms;

/// The error of a program that does not fit in memory above the reserved
/// region: loads of more than 3584 bytes are rejected whole.
#[derive(Debug, Clone, Copy, PartialEq, Eq, Structural)]
pub struct ProgramTooLong;

/// The interpreter: 4096 bytes of memory, a 64x32 one-bit display packed as
/// 32 row words, 16 registers, a 16-entry call stack, two timers and the
/// 16-key matrix.
pub struct Chip8 {
    mem: [u8; 4096],
    disp: [u64; 32],
    reg: [u8; 16],
    stack: [u16; 16],
    keys: [bool; 16],
    i: u16,
    pc: u16,
    sp: u8,
    dt: u8,
    st: u8,
}

impl View for Chip8 {
    type V = State;

    closed spec fn view(&self) -> State {
        State {
            mem: self.mem@,
            disp: self.disp@,
            reg: self.reg@,
            stack: self.stack@,
            keys: self.keys@,
            i: self.i,
            pc: self.pc,
            sp: self.sp,
            dt: self.dt,
            st: self.st,
        }
    }
}

impl Default for Chip8 {
    /// A machine at reset: font burned in, program counter at the entry
    /// offset, everything else zero.
    fn default() -> (c: Chip8)
        ensures
            c@ == init_state(),
            c@.wf(),
    {
        let fv: Vec<u8> = vec![
            0xF0u8, 0x90, 0x90, 0x90, 0xF0, // 0
            0x20, 0x60, 0x20, 0x20, 0x70, // 1
            0xF0, 0x10, 0xF0, 0x80, 0xF0, // 2
            0xF0, 0x10, 0xF0, 0x10, 0xF0, // 3
            0x90, 0x90, 0xF0, 0x10, 0x10, // 4
            0xF0, 0x80, 0xF0, 0x10, 0xF0, // 5
            0xF0, 0x80, 0xF0, 0x90, 0xF0, // 6
            0xF0, 0x10, 0x20, 0x40, 0x40, // 7
            0xF0, 0x90, 0xF0, 0x90, 0xF0, // 8
            0xF0, 0x90, 0xF0, 0x10, 0xF0, // 9
            0xF0, 0x90, 0xF0, 0x90, 0x90, // A
            0xE0, 0x90, 0xE0, 0x90, 0xE0, // B
            0xF0, 0x80, 0x80, 0x80, 0xF0, // C
            0xE0, 0x90, 0x90, 0x90, 0xE0, // D
            0xF0, 0x80, 0xF0, 0x80, 0xF0, // E
            0xF0, 0x80, 0xF0, 0x80, 0x80, // F
        ];
        proof {
            assert(fv@ =~= font());
        }
        let mut mem: [u8; 4096] = [0u8; 4096];
        let mut j: usize = 0;
        while j < 80
            invariant
                j <= 80,
                fv@ == font(),
                forall|k: int| 0x50 <= k < 0x50 + j ==> mem@[k] == font()[k - 0x50],
                forall|k: int| 0 <= k < 4096 && !(0x50 <= k < 0x50 + j) ==> mem@[k] == 0u8,
            decreases 80 - j,
        {
            mem[FONT_START + j] = fv[j];
            j += 1;
        }
        proof {
            assert(mem@ =~= init_mem());
        }
        let c = Chip8 {
            mem,
            disp: [0u64; 32],
            reg: [0u8; 16],
            stack: [0u16; 16],
            keys: [false; 16],
            i: 0,
            pc: 0x200,
            sp: 0,
            dt: 0,
            st: 0,
        };
        proof {
            assert(c@.disp =~= init_state().disp);
            assert(c@.reg =~= init_state().reg);
            assert(c@.stack =~= init_state().stack);
            assert(c@.keys =~= init_state().keys);
            assert(c@ =~= init_state());
        }
        c
    }
}

impl Chip8 {
    /// Copy a program into memory at the entry offset.  A program longer
    /// than 3584 bytes does not fit and is rejected without touching the
    /// machine.
    pub fn load_program(&mut self, program: &[u8]) -> (r: Result<(), ProgramTooLong>)
        ensures
            (r is Ok) <==> program@.len() <= 3584,
            (r is Ok) ==> final(self)@ == (State { mem: load_mem(old(self)@.mem, program@), ..old(self)@ }),
            (r is Err) ==> final(self)@ == old(self)@,
    {
        if program.len() > MAX_PROGRAM_LEN {
            Err(ProgramTooLong)
        } else {
            let mut j: usize = 0;
            while j < program.len()
                invariant
                    j <= program@.len() <= 3584,
                    self.mem@.len() == 4096,
                    forall|k: int| 0x200 <= k < 0x200 + j ==> self.mem@[k] == program@[k - 0x200],
                    forall|k: int|
                        0 <= k < 4096 && !(0x200 <= k < 0x200 + j) ==> self.mem@[k] == old(
                            self,
                        )@.mem[k],
                    self.disp == old(self).disp,
                    self.reg == old(self).reg,
                    self.stack == old(self).stack,
                    self.keys == old(self).keys,
                    self.i == old(self).i,
                    self.pc == old(self).pc,
                    self.sp == old(self).sp,
                    self.dt == old(self).dt,
                    self.st == old(self).st,
                decreases program@.len() - j,
            {
                self.mem[PROGRAM_START + j] = program[j];
                j += 1;
            }
            proof {
                assert(self@.mem =~= load_mem(old(self)@.mem, program@));
                assert(self@ =~= State { mem: load_mem(old(self)@.mem, program@), ..old(self)@ });
            }
            Ok(())
        }
    }

    /// Whether the pixel at column `x` and row `y` is lit; both coordinates
    /// wrap, modulo 64 and 32.
    pub fn get_px(&self, x: u16, y: u16) -> (r: bool)
        ensures
            r == self@.px(x, y),
    {
        (self.disp[(y % 32) as usize] >> ((x % 64) as u64)) & 1 == 1
    }

    /// Toggle the pixel at column `x` (modulo 64) and row `y` (modulo 32).
    fn toggle_px(&mut self, x: u16, y: u16)
        ensures
            final(self)@ == (State {
                disp: old(self)@.disp.update(
                    y as int % 32,
                    old(self)@.disp[y as int % 32] ^ (1u64 << ((x % 64) as u64)),
                ),
                ..old(self)@
            }),
    {
        self.disp[(y % 32) as usize] = self.disp[(y % 32) as usize] ^ (1u64 << ((x % 64) as u64));
    }

    /// Decrement both timers, floored at zero.  The caller invokes this at
    /// its own cadence; the core never does.
    pub fn tick_timers(&mut self)
        ensures
            final(self)@ == (State {
                dt: if old(self)@.dt > 0 { (old(self)@.dt - 1) as u8 } else { 0u8 },
                st: if old(self)@.st > 0 { (old(self)@.st - 1) as u8 } else { 0u8 },
                ..old(self)@
            }),
    {
        if self.dt > 0 {
            self.dt = self.dt - 1;
        }
        if self.st > 0 {
            self.st = self.st - 1;
        }
        proof {
            assert(self@ =~= State {
                dt: if old(self)@.dt > 0 { (old(self)@.dt - 1) as u8 } else { 0u8 },
                st: if old(self)@.st > 0 { (old(self)@.st - 1) as u8 } else { 0u8 },
                ..old(self)@
            });
        }
    }

    /// Record whether key `k` (modulo 16) is pressed; the caller mirrors its
    /// input device here between steps.
    pub fn set_key(&mut self, k: u8, pressed: bool)
        ensures
            final(self)@ == (State {
                keys: old(self)@.keys.update(k as int % 16, pressed),
                ..old(self)@
            }),
    {
        self.keys[(k % 16) as usize] = pressed;
    }

    /// The value of register `Vr`.
    pub fn reg(&self, r: u8) -> (v: u8)
        requires
            r < 16,
        ensures
            v == self@.reg[r as int],
    {
        self.reg[r as usize]
    }

    /// The program counter.
    pub fn pc(&self) -> (v: u16)
        ensures
            v == self@.pc,
    {
        self.pc
    }

    /// The index register.
    pub fn index_reg(&self) -> (v: u16)
        ensures
            v == self@.i,
    {
        self.i
    }

    /// The number of live call-stack entries.
    pub fn stack_depth(&self) -> (v: u8)
        ensures
            v == self@.sp,
    {
        self.sp
    }

    /// The byte at address `addr` (modulo 4096).
    pub fn read_mem(&self, addr: u16) -> (v: u8)
        ensures
            v == self@.mem[addr as int % 4096],
    {
        self.mem[(addr as usize) % MEM_SIZE]
    }

    /// The delay timer's current value.
    pub fn delay_timer(&self) -> (r: u8)
        ensures
            r == self@.dt,
    {
        self.dt
    }

    /// The sound timer's current value.
    pub fn sound_timer(&self) -> (r: u8)
        ensures
            r == self@.st,
    {
        self.st
    }
}

} // verus!

verus! {

impl Chip8 {
    /// Read the two instruction bytes at the program counter (each address
    /// modulo 4096), advance the counter past them, and hand back the four
    /// nibbles, high first.
    fn fetch(&mut self) -> (r: (u8, u8, u8, u8))
        ensures
            final(self)@ == (State { pc: old(self)@.pc.wrapping_add(2), ..old(self)@ }),
            r.0 == old(self)@.mem[old(self)@.pc as int % 4096] >> 4u8,
            r.1 == old(self)@.mem[old(self)@.pc as int % 4096] & 0xF,
            r.2 == old(self)@.mem[(old(self)@.pc as int + 1) % 4096] >> 4u8,
            r.3 == old(self)@.mem[(old(self)@.pc as int + 1) % 4096] & 0xF,
            r.0 < 16 && r.1 < 16 && r.2 < 16 && r.3 < 16,
    {
        let hi: u8 = self.mem[(self.pc as usize) % MEM_SIZE];
        let lo: u8 = self.mem[(self.pc as usize + 1) % MEM_SIZE];
        proof {
            lemma_nibbles(hi);
            lemma_nibbles(lo);
        }
        self.pc = self.pc.wrapping_add(2);
        (hi >> 4u8, hi & 0xF, lo >> 4u8, lo & 0xF)
    }

    /// Clear the display.
    fn op_00e0(&mut self)
        ensures
            final(self)@ == (State { disp: Seq::new(32, |k: int| 0u64), ..old(self)@ }),
    {
        self.disp = [0u64; 32];
        proof {
            assert(self@.disp =~= Seq::new(32, |k: int| 0u64));
        }
    }

    /// Return from a subroutine; ignored on an empty stack.
    fn op_00ee(&mut self)
        requires
            old(self)@.sp <= 16,
        ensures
            final(self)@ == (if old(self)@.sp > 0 {
                State {
                    pc: old(self)@.stack[old(self)@.sp as int - 1],
                    sp: (old(self)@.sp - 1) as u8,
                    ..old(self)@
                }
            } else {
                old(self)@
            }),
    {
        if self.sp > 0 {
            self.sp = self.sp - 1;
            self.pc = self.stack[self.sp as usize];
        }
    }

    /// Jump.
    fn op_1nnn(&mut self, target: u16)
        ensures
            final(self)@ == (State { pc: target, ..old(self)@ }),
    {
        self.pc = target;
    }

    /// Call a subroutine; ignored on a full stack.
    fn op_2nnn(&mut self, target: u16)
        requires
            old(self)@.sp <= 16,
        ensures
            final(self)@ == (if old(self)@.sp < 16 {
                State {
                    stack: old(self)@.stack.update(old(self)@.sp as int, old(self)@.pc),
                    sp: (old(self)@.sp + 1) as u8,
                    pc: target,
                    ..old(self)@
                }
            } else {
                old(self)@
            }),
    {
        if self.sp < 16 {
            self.stack[self.sp as usize] = self.pc;
            self.pc = target;
            self.sp = self.sp + 1;
        }
    }

    /// Skip the next instruction when `Vx` equals the immediate byte.
    fn op_3xnn(&mut self, x: u8, imm: u8)
        requires
            x < 16,
        ensures
            final(self)@ == (if old(self)@.reg[x as int] == imm {
                State { pc: old(self)@.pc.wrapping_add(2), ..old(self)@ }
            } else {
                old(self)@
            }),
    {
        if self.reg[x as usize] == imm {
            self.pc = self.pc.wrapping_add(2);
        }
    }

    /// Skip the next instruction when `Vx` differs from the immediate byte.
    fn op_4xnn(&mut self, x: u8, imm: u8)
        requires
            x < 16,
        ensures
            final(self)@ == (if old(self)@.reg[x as int] != imm {
                State { pc: old(self)@.pc.wrapping_add(2), ..old(self)@ }
            } else {
                old(self)@
            }),
    {
        if self.reg[x as usize] != imm {
            self.pc = self.pc.wrapping_add(2);
        }
    }

    /// Skip the next instruction when `Vx` equals `Vy`.
    fn op_5xy0(&mut self, x: u8, y: u8)
        requires
            x < 16,
            y < 16,
        ensures
            final(self)@ == (if old(self)@.reg[x as int] == old(self)@.reg[y as int] {
                State { pc: old(self)@.pc.wrapping_add(2), ..old(self)@ }
            } else {
                old(self)@
            }),
    {
        if self.reg[x as usize] == self.reg[y as usize] {
            self.pc = self.pc.wrapping_add(2);
        }
    }

    /// Skip the next instruction when `Vx` differs from `Vy`.
    fn op_9xy0(&mut self, x: u8, y: u8)
        requires
            x < 16,
            y < 16,
        ensures
            final(self)@ == (if old(self)@.reg[x as int] != old(self)@.reg[y as int] {
                State { pc: old(self)@.pc.wrapping_add(2), ..old(self)@ }
            } else {
                old(self)@
            }),
    {
        if self.reg[x as usize] != self.reg[y as usize] {
            self.pc = self.pc.wrapping_add(2);
        }
    }

    /// Load an immediate byte into `Vx`.
    fn op_6xnn(&mut self, x: u8, val: u8)
        requires
            x < 16,
        ensures
            final(self)@ == (State { reg: old(self)@.reg.update(x as int, val), ..old(self)@ }),
    {
        self.reg[x as usize] = val;
    }

    /// Add an immediate byte into `Vx`, wrapping, with no flag.
    fn op_7xnn(&mut self, x: u8, addend: u8)
        requires
            x < 16,
        ensures
            final(self)@ == (State {
                reg: old(self)@.reg.update(x as int, old(self)@.reg[x as int].wrapping_add(addend)),
                ..old(self)@
            }),
    {
        self.reg[x as usize] = self.reg[x as usize].wrapping_add(addend);
    }

    /// Copy `Vy` into `Vx`.
    fn op_8xy0(&mut self, x: u8, y: u8)
        requires
            x < 16,
            y < 16,
        ensures
            final(self)@ == (State { reg: spec_alu(old(self)@.reg, x as int, y as int, 0), ..old(self)@ }),
    {
        self.reg[x as usize] = self.reg[y as usize];
    }

    /// `Vx |= Vy`.
    fn op_8xy1(&mut self, x: u8, y: u8)
        requires
            x < 16,
            y < 16,
        ensures
            final(self)@ == (State { reg: spec_alu(old(self)@.reg, x as int, y as int, 1), ..old(self)@ }),
    {
        self.reg[x as usize] = self.reg[x as usize] | self.reg[y as usize];
    }

    /// `Vx &= Vy`.
    fn op_8xy2(&mut self, x: u8, y: u8)
        requires
            x < 16,
            y < 16,
        ensures
            final(self)@ == (State { reg: spec_alu(old(self)@.reg, x as int, y as int, 2), ..old(self)@ }),
    {
        self.reg[x as usize] = self.reg[x as usize] & self.reg[y as usize];
    }

    /// `Vx ^= Vy`.
    fn op_8xy3(&mut self, x: u8, y: u8)
        requires
            x < 16,
            y < 16,
        ensures
            final(self)@ == (State { reg: spec_alu(old(self)@.reg, x as int, y as int, 3), ..old(self)@ }),
    {
        self.reg[x as usize] = self.reg[x as usize] ^ self.reg[y as usize];
    }

    /// `Vx += Vy`: `VF` takes the carry, the sum wraps.
    fn op_8xy4(&mut self, x: u8, y: u8)
        requires
            x < 16,
            y < 16,
        ensures
            final(self)@ == (State { reg: spec_alu(old(self)@.reg, x as int, y as int, 4), ..old(self)@ }),
    {
        let a: u8 = self.reg[x as usize];
        let b: u8 = self.reg[y as usize];
        self.reg[15] = if a as u16 + b as u16 > 255 {
            1
        } else {
            0
        };
        self.reg[x as usize] = a.wrapping_add(b);
    }

    /// `Vx -= Vy`: `VF` is cleared, set when there is no borrow, and the
    /// difference wraps; the steps read the registers in program order.
    fn op_8xy5(&mut self, x: u8, y: u8)
        requires
            x < 16,
            y < 16,
        ensures
            final(self)@ == (State { reg: spec_alu(old(self)@.reg, x as int, y as int, 5), ..old(self)@ }),
    {
        self.reg[15] = 0;
        if self.reg[x as usize] > self.reg[y as usize] {
            self.reg[15] = 1;
        }
        self.reg[x as usize] = self.reg[x as usize].wrapping_sub(self.reg[y as usize]);
    }

    /// Store `Vy >> 1` into `Vx`; `VF` takes the bit shifted out, read after
    /// the store.
    fn op_8xy6(&mut self, x: u8, y: u8)
        requires
            x < 16,
            y < 16,
        ensures
            final(self)@ == (State { reg: spec_alu(old(self)@.reg, x as int, y as int, 6), ..old(self)@ }),
    {
        self.reg[x as usize] = self.reg[y as usize] >> 1u8;
        self.reg[15] = self.reg[y as usize] & 1;
    }

    /// `Vx = Vy - Vx`, with the same flag discipline as subtraction.
    fn op_8xy7(&mut self, x: u8, y: u8)
        requires
            x < 16,
            y < 16,
        ensures
            final(self)@ == (State { reg: spec_alu(old(self)@.reg, x as int, y as int, 7), ..old(self)@ }),
    {
        self.reg[15] = 0;
        if self.reg[y as usize] > self.reg[x as usize] {
            self.reg[15] = 1;
        }
        self.reg[x as usize] = self.reg[y as usize].wrapping_sub(self.reg[x as usize]);
    }

    /// Store `Vy << 1` into `Vx`; `VF` takes the bit shifted out, read after
    /// the store.
    fn op_8xye(&mut self, x: u8, y: u8)
        requires
            x < 16,
            y < 16,
        ensures
            final(self)@ == (State { reg: spec_alu(old(self)@.reg, x as int, y as int, 0xE), ..old(self)@ }),
    {
        self.reg[x as usize] = self.reg[y as usize] << 1u8;
        self.reg[15] = self.reg[y as usize] >> 7u8;
    }

    /// Load the index register.
    fn op_annn(&mut self, i: u16)
        ensures
            final(self)@ == (State { i, ..old(self)@ }),
    {
        self.i = i;
    }

    /// Jump to `V0` plus the 12-bit target.
    fn op_bnnn(&mut self, target: u16)
        requires
            target < 4096,
        ensures
            final(self)@ == (State { pc: (old(self)@.reg[0] + target) as u16, ..old(self)@ }),
    {
        self.pc = self.reg[0] as u16 + target;
    }

    /// `Vx` = a random byte masked by the immediate.  The drawn byte is not a
    /// function of the machine state; the contract promises only that some
    /// byte was drawn.
    fn op_cxnn(&mut self, x: u8, mask: u8)
        requires
            x < 16,
        ensures
            exists|rnd: u8|
                final(self)@ == (State {
                    reg: old(self)@.reg.update(x as int, #[trigger] (rnd & mask)),
                    ..old(self)@
                }),
    {
        let r: u8 = random_byte();
        self.reg[x as usize] = r & mask;
        proof {
            assert(self@ == (State { reg: old(self)@.reg.update(x as int, r & mask), ..old(self)@ }));
        }
    }

    /// Skip the next instruction when the key indexed by `Vx` (modulo 16) is
    /// pressed.
    fn op_ex9e(&mut self, x: u8)
        requires
            x < 16,
        ensures
            final(self)@ == (if old(self)@.keys[old(self)@.reg[x as int] as int % 16] {
                State { pc: old(self)@.pc.wrapping_add(2), ..old(self)@ }
            } else {
                old(self)@
            }),
    {
        if self.keys[(self.reg[x as usize] % 16) as usize] {
            self.pc = self.pc.wrapping_add(2);
        }
    }

    /// Skip the next instruction when the key indexed by `Vx` (modulo 16) is
    /// not pressed.
    fn op_exa1(&mut self, x: u8)
        requires
            x < 16,
        ensures
            final(self)@ == (if !old(self)@.keys[old(self)@.reg[x as int] as int % 16] {
                State { pc: old(self)@.pc.wrapping_add(2), ..old(self)@ }
            } else {
                old(self)@
            }),
    {
        if !self.keys[(self.reg[x as usize] % 16) as usize] {
            self.pc = self.pc.wrapping_add(2);
        }
    }

    /// `Vx` = delay timer.
    fn op_fx07(&mut self, x: u8)
        requires
            x < 16,
        ensures
            final(self)@ == (State { reg: old(self)@.reg.update(x as int, old(self)@.dt), ..old(self)@ }),
    {
        self.reg[x as usize] = self.dt;
    }

    /// Wait for a key: store the smallest pressed key index in `Vx`, or
    /// rewind the program counter so the instruction runs again next step.
    fn op_fx0a(&mut self, x: u8)
        requires
            x < 16,
        ensures
            final(self)@ == (if first_pressed(old(self)@.keys, 0) < 16 {
                State {
                    reg: old(self)@.reg.update(x as int, first_pressed(old(self)@.keys, 0) as u8),
                    ..old(self)@
                }
            } else {
                State { pc: old(self)@.pc.wrapping_sub(2), ..old(self)@ }
            }),
    {
        let mut k: usize = 0;
        while k < 16
            invariant
                k <= 16,
                x < 16,
                self == old(self),
                first_pressed(self@.keys, 0) == first_pressed(self@.keys, k as int),
            decreases 16 - k,
        {
            if self.keys[k] {
                self.reg[x as usize] = k as u8;
                return ;
            }
            k = k + 1;
        }
        self.pc = self.pc.wrapping_sub(2);
    }

    /// Delay timer = `Vx`.
    fn op_fx15(&mut self, x: u8)
        requires
            x < 16,
        ensures
            final(self)@ == (State { dt: old(self)@.reg[x as int], ..old(self)@ }),
    {
        self.dt = self.reg[x as usize];
    }

    /// Sound timer = `Vx`.
    fn op_fx18(&mut self, x: u8)
        requires
            x < 16,
        ensures
            final(self)@ == (State { st: old(self)@.reg[x as int], ..old(self)@ }),
    {
        self.st = self.reg[x as usize];
    }

    /// Add `Vx` into the index register, wrapping at 16 bits, with no flag.
    fn op_fx1e(&mut self, x: u8)
        requires
            x < 16,
        ensures
            final(self)@ == (State {
                i: old(self)@.i.wrapping_add(old(self)@.reg[x as int] as u16),
                ..old(self)@
            }),
    {
        self.i = self.i.wrapping_add(self.reg[x as usize] as u16);
    }

    /// Point the index register at the font glyph of the digit held in `Vx`
    /// (5 bytes per glyph).
    fn op_fx29(&mut self, x: u8)
        requires
            x < 16,
        ensures
            final(self)@ == (State { i: (0x50 + old(self)@.reg[x as int] * 5) as u16, ..old(self)@ }),
    {
        self.i = 0x50 + self.reg[x as usize] as u16 * 5;
    }

    /// Store the decimal digits of `Vx` at the index register's address and
    /// the two after it (each modulo 4096).
    fn op_fx33(&mut self, x: u8)
        requires
            x < 16,
        ensures
            final(self)@ == (State {
                mem: spec_bcd(old(self)@.mem, old(self)@.i, old(self)@.reg[x as int]),
                ..old(self)@
            }),
    {
        let vx: u8 = self.reg[x as usize];
        let base: usize = self.i as usize;
        self.mem[base % 4096] = vx / 100;
        self.mem[(base + 1) % 4096] = vx / 10 % 10;
        self.mem[(base + 2) % 4096] = vx % 10;
    }

    /// Store `V0..Vx` inclusive at the index register's address on (each
    /// modulo 4096); the index register itself does not move.
    fn op_fx55(&mut self, x: u8)
        requires
            x < 16,
        ensures
            final(self)@ == (State {
                mem: store_regs(old(self)@.mem, old(self)@.reg, old(self)@.i, 0, x as int),
                ..old(self)@
            }),
    {
        let ghost target = store_regs(old(self)@.mem, old(self)@.reg, old(self)@.i, 0, x as int);
        let mut k: usize = 0;
        while k <= x as usize
            invariant
                k <= x as usize + 1,
                x < 16,
                self.reg == old(self).reg,
                self.disp == old(self).disp,
                self.stack == old(self).stack,
                self.keys == old(self).keys,
                self.i == old(self).i,
                self.pc == old(self).pc,
                self.sp == old(self).sp,
                self.dt == old(self).dt,
                self.st == old(self).st,
                target == store_regs(self@.mem, self@.reg, self@.i, k as int, x as int),
            decreases x as int + 1 - k,
        {
            self.mem[(self.i as usize + k) % 4096] = self.reg[k];
            k = k + 1;
        }
    }

    /// Load `V0..Vx` inclusive from the index register's address on (each
    /// modulo 4096); the index register itself does not move.
    fn op_fx65(&mut self, x: u8)
        requires
            x < 16,
        ensures
            final(self)@ == (State {
                reg: load_regs(old(self)@.reg, old(self)@.mem, old(self)@.i, 0, x as int),
                ..old(self)@
            }),
    {
        let ghost target = load_regs(old(self)@.reg, old(self)@.mem, old(self)@.i, 0, x as int);
        let mut k: usize = 0;
        while k <= x as usize
            invariant
                k <= x as usize + 1,
                x < 16,
                self.mem == old(self).mem,
                self.disp == old(self).disp,
                self.stack == old(self).stack,
                self.keys == old(self).keys,
                self.i == old(self).i,
                self.pc == old(self).pc,
                self.sp == old(self).sp,
                self.dt == old(self).dt,
                self.st == old(self).st,
                target == load_regs(self@.reg, self@.mem, self@.i, k as int, x as int),
            decreases x as int + 1 - k,
        {
            self.reg[k] = self.mem[(self.i as usize + k) % 4096];
            k = k + 1;
        }
    }
}

impl Chip8 {
    /// Draw an `n`-row sprite read from the index register's address, at the
    /// wrapped coordinates held in `Vx` and `Vy`: each set sprite bit toggles
    /// its pixel, rows clip at the right edge instead of wrapping, and `VF`
    /// reports whether any toggle turned a pixel off.
    fn op_dxyn(&mut self, x: u8, y: u8, n: u8)
        requires
            x < 16,
            y < 16,
            n < 16,
        ensures
            final(self)@ == spec_draw(old(self)@, x as int, y as int, n as int),
    {
        self.reg[15] = 0;
        let x0: usize = (self.reg[x as usize] % 64) as usize;
        let y0: usize = (self.reg[y as usize] % 32) as usize;
        let ghost s1 = self@;
        let ghost dr = draw_rows(s1.disp, s1.mem, s1.i, x0 as int, y0 as int, 0, n as int);
        let mut collided: bool = false;
        let mut cy: usize = 0;
        while cy < n as usize
            invariant
                cy <= n as usize,
                n < 16,
                x0 < 64,
                y0 < 32,
                self@.mem == s1.mem,
                self@.reg == s1.reg,
                self@.stack == s1.stack,
                self@.keys == s1.keys,
                self@.i == s1.i,
                self@.pc == s1.pc,
                self@.sp == s1.sp,
                self@.dt == s1.dt,
                self@.st == s1.st,
                (dr == draw_rows(s1.disp, s1.mem, s1.i, x0 as int, y0 as int, 0, n as int)),
                dr.0 == draw_rows(
                    self@.disp,
                    s1.mem,
                    s1.i,
                    x0 as int,
                    y0 as int,
                    cy as int,
                    n as int,
                ).0,
                dr.1 == (collided || draw_rows(
                    self@.disp,
                    s1.mem,
                    s1.i,
                    x0 as int,
                    y0 as int,
                    cy as int,
                    n as int,
                ).1),
            decreases n as int - cy,
        {
            let row: u8 = self.mem[(self.i as usize + cy) % 4096];
            proof {
                assert(row == s1.mem[(s1.i as int + cy) % 4096]);
            }
            let ghost w = (y0 + cy) as int % 32;
            let ghost m = row_mask(row, x0 as int, 0);
            let ghost d_e = self@.disp;
            let ghost c_e = collided;
            let mut cx: usize = 0;
            while cx < 8 && x0 + cx <= 63
                invariant
                    cx <= 8,
                    x0 < 64,
                    y0 < 32,
                    cy < n as usize <= 15,
                    (w == (y0 + cy) as int % 32),
                    0 <= w < 32,
                    (m == row_mask(row, x0 as int, 0)),
                    (d_e.len() == 32),
                    self@.mem == s1.mem,
                    self@.reg == s1.reg,
                    self@.stack == s1.stack,
                    self@.keys == s1.keys,
                    self@.i == s1.i,
                    self@.pc == s1.pc,
                    self@.sp == s1.sp,
                    self@.dt == s1.dt,
                    self@.st == s1.st,
                    (self@.disp == d_e.update(w, self@.disp[w])),
                    (self@.disp[w] ^ row_mask(row, x0 as int, cx as int) == d_e[w] ^ m),
                    ((collided || (self@.disp[w] & row_mask(row, x0 as int, cx as int) != 0))
                        == (c_e || (d_e[w] & m != 0))),
                decreases 8 - cx,
            {
                if row & (1u8 << ((7 - cx) as u8)) != 0 {
                    let ghost dw = self@.disp[w];
                    if self.get_px((x0 + cx) as u16, (y0 + cy) as u16) {
                        collided = true;
                    }
                    self.toggle_px((x0 + cx) as u16, (y0 + cy) as u16);
                    proof {
                        let bit: u64 = 1u64 << ((x0 + cx) as u64);
                        let rest: u64 = row_mask(row, x0 as int, cx as int + 1);
                        lemma_row_mask_above(row, x0 as int, cx as int + 1, (x0 + cx) as u64);
                        lemma_bits64(rest, bit, 0);
                        lemma_bit_select(dw, (x0 + cx) as u64);
                        lemma_bits64(dw, bit, rest);
                        assert(row_mask(row, x0 as int, cx as int) == bit | rest);
                        assert(self@.disp =~= d_e.update(w, self@.disp[w]));
                    }
                }
                cx = cx + 1;
            }
            proof {
                assert(row_mask(row, x0 as int, cx as int) == 0u64);
                lemma_bits64(self@.disp[w], 0, 0);
                assert(self@.disp[w] == d_e[w] ^ m);
                assert(collided == (c_e || (d_e[w] & m != 0)));
                assert(self@.disp =~= d_e.update(w, d_e[w] ^ m));
            }
            cy = cy + 1;
        }
        self.reg[15] = if collided {
            1
        } else {
            0
        };
        proof {
            assert(self@ =~= spec_draw(old(self)@, x as int, y as int, n as int));
        }
    }
}

impl Chip8 {
    /// Run one fetch-decode-execute cycle.  The machine after the call is
    /// `spec_step` of the machine before it; only the random instruction
    /// leaves the drawn byte open, so whenever the next instruction is not
    /// the random one the step is the deterministic `spec_step(_, 0)`.
    #[verifier::rlimit(60)]
    pub fn cycle(&mut self)
        requires
            old(self)@.wf(),
        ensures
            final(self)@.wf(),
            exists|rnd: u8| final(self)@ == #[trigger] spec_step(old(self)@, rnd),
            !next_is_random(old(self)@) ==> final(self)@ == spec_step(old(self)@, 0),
    {
        let ghost s0 = self@;
        let (n1, n2, n3, n4) = self.fetch();
        let ghost s1 = self@;
        let nn: u8 = n3 * 16 + n4;
        let nnn: u16 = (n2 as u16) * 256 + (n3 as u16) * 16 + (n4 as u16);
        proof {
            assert(forall|rnd: u8|
                #[trigger] spec_step(s0, rnd) == spec_exec_instr(s1, n1, n2, n3, n4, rnd));
            assert(next_is_random(s0) == (n1 == 0xC));
        }
        match (n1, n2, n3, n4) {
            (0, 0, 0xE, 0) => self.op_00e0(),
            (0, 0, 0xE, 0xE) => self.op_00ee(),
            (1, _, _, _) => self.op_1nnn(nnn),
            (2, _, _, _) => self.op_2nnn(nnn),
            (3, _, _, _) => self.op_3xnn(n2, nn),
            (4, _, _, _) => self.op_4xnn(n2, nn),
            (5, _, _, 0) => self.op_5xy0(n2, n3),
            (9, _, _, 0) => self.op_9xy0(n2, n3),
            (6, _, _, _) => self.op_6xnn(n2, nn),
            (7, _, _, _) => self.op_7xnn(n2, nn),
            (8, _, _, 0) => self.op_8xy0(n2, n3),
            (8, _, _, 1) => self.op_8xy1(n2, n3),
            (8, _, _, 2) => self.op_8xy2(n2, n3),
            (8, _, _, 3) => self.op_8xy3(n2, n3),
            (8, _, _, 4) => self.op_8xy4(n2, n3),
            (8, _, _, 5) => self.op_8xy5(n2, n3),
            (8, _, _, 6) => self.op_8xy6(n2, n3),
            (8, _, _, 7) => self.op_8xy7(n2, n3),
            (8, _, _, 0xE) => self.op_8xye(n2, n3),
            (0xA, _, _, _) => self.op_annn(nnn),
            (0xB, _, _, _) => self.op_bnnn(nnn),
            (0xC, _, _, _) => self.op_cxnn(n2, nn),
            (0xD, _, _, _) => self.op_dxyn(n2, n3, n4),
            (0xE, _, 9, 0xE) => self.op_ex9e(n2),
            (0xE, _, 0xA, 1) => self.op_exa1(n2),
            (0xF, _, 0, 7) => self.op_fx07(n2),
            (0xF, _, 0, 0xA) => self.op_fx0a(n2),
            (0xF, _, 1, 5) => self.op_fx15(n2),
            (0xF, _, 1, 8) => self.op_fx18(n2),
            (0xF, _, 1, 0xE) => self.op_fx1e(n2),
            (0xF, _, 2, 9) => self.op_fx29(n2),
            (0xF, _, 3, 3) => self.op_fx33(n2),
            (0xF, _, 5, 5) => self.op_fx55(n2),
            (0xF, _, 6, 5) => self.op_fx65(n2),
            _ => (),
        }
        proof {
            if n1 == 0xC {
                let rnd = choose|rnd: u8|
                    self@ == (State {
                        reg: s1.reg.update(n2 as int, #[trigger] (rnd & nn)),
                        ..s1
                    });
                assert(self@ == spec_exec_instr(s1, n1, n2, n3, n4, rnd));
                assert(self@ == spec_step(s0, rnd));
            } else {
                assert(self@ == spec_exec_instr(s1, n1, n2, n3, n4, 0));
                assert(self@ == spec_step(s0, 0));
            }
            assert(self@.sp <= 16);
        }
    }
}

/// Relies on `rand::random::<u8>()`: a byte from the thread-local generator.
/// Nothing is assumed of the value.
#[verifier::external_body]
fn random_byte() -> u8 {
    rand::random::<u8>()
}

} // verus!
