//! The mathematical model of the interpreter: an abstract machine state and
//! a pure transition function, one instruction per step.
//!
//! The executable interpreter in [`crate::machine`] is proved to agree with
//! [`spec_step`] exactly.  All addresses into the 4096-byte memory are taken
//! modulo 4096, the program counter wraps at 16 bits, and key indices are
//! taken modulo 16; the call stack saturates (a call on a full stack and a
//! return on an empty stack are ignored).  These three policies close the
//! unchecked faults of the historical design and are part of the contract.

use vstd::prelude::*;

verus! {

/// Number of bytes in the address space.
pub const MEM_SIZE: usize = 4096;

/// First address of the loaded program, and the reset program counter.
pub const PROGRAM_START: usize = 0x200;

/// Largest program that fits between `PROGRAM_START` and the end of memory.
pub const MAX_PROGRAM_LEN: usize = 3584;

/// First address of the built-in font (16 glyphs of 5 bytes each).
pub const FONT_START: usize = 0x50;

/// The abstract state of the machine: every observable component as a
/// mathematical value.
#[verifier::ext_equal]
pub ghost struct State {
    /// 4096 bytes of memory.
    pub mem: Seq<u8>,
    /// 32 display rows; bit `x` of row `y` is the pixel at column `x`.
    pub disp: Seq<u64>,
    /// The 16 general-purpose registers `V0`..`VF`.
    pub reg: Seq<u8>,
    /// The 16 return addresses of the call stack.
    pub stack: Seq<u16>,
    /// The 16 key states, indexed by key value.
    pub keys: Seq<bool>,
    /// The index register.
    pub i: u16,
    /// The program counter.
    pub pc: u16,
    /// The stack pointer: number of live stack entries, at most 16.
    pub sp: u8,
    /// The delay timer.
    pub dt: u8,
    /// The sound timer.
    pub st: u8,
}

impl State {
    /// Well-formedness: the fixed sizes of the machine, and a stack pointer
    /// that stays within the 16 stack slots.
    pub open spec fn wf(self) -> bool {
        &&& self.mem.len() == 4096
        &&& self.disp.len() == 32
        &&& self.reg.len() == 16
        &&& self.stack.len() == 16
        &&& self.keys.len() == 16
        &&& self.sp <= 16
    }

    /// The pixel at column `x` (modulo 64) and row `y` (modulo 32).
    pub open spec fn px(self, x: u16, y: u16) -> bool {
        (self.disp[y as int % 32] >> ((x % 64) as u64)) & 1 == 1
    }
}

/// The built-in font: 16 glyphs of 5 bytes, one glyph per hexadecimal digit.
pub open spec fn font() -> Seq<u8> {
    seq![
        0xF0u8, 0x90, 0x90, 0x90, 0xF0, // 0
        0x20, 0x60, 0x20, 0x20, 0x70, // 1
        0xF0, 0x10, 0xF0, 0x80, 0xF0, // 2
        0xF0, 0x10, 0xF0, 0x10, 0xF0, // 3
        0x90, 0x90, 0xF0, 0x10, 0x10, // 4
        0xF0, 0x80, 0xF0, 0x10, 0xF0, // 5
        0xF0, 0x80, 0xF0, 0x90, 0xF0, // 6
        0xF0, 0x10, 0x20, 0x40, 0x40, // 7
        0xF0, 0x90, 0xF0, 0x90, 0xF0, // 8
        0xF0, 0x90, 0xF0, 0x10, 0xF0, // 9
        0xF0, 0x90, 0xF0, 0x90, 0x90, // A
        0xE0, 0x90, 0xE0, 0x90, 0xE0, // B
        0xF0, 0x80, 0x80, 0x80, 0xF0, // C
        0xE0, 0x90, 0x90, 0x90, 0xE0, // D
        0xF0, 0x80, 0xF0, 0x80, 0xF0, // E
        0xF0, 0x80, 0xF0, 0x80, 0x80, // F
    ]
}

/// Memory at reset: all zero except the font at `FONT_START`.
pub open spec fn init_mem() -> Seq<u8> {
    Seq::new(4096, |k: int| if 0x50 <= k < 0xA0 { font()[k - 0x50] } else { 0u8 })
}

/// The machine at reset: font burned in, program counter at the entry
/// offset, everything else zero.
pub open spec fn init_state() -> State {
    State {
        mem: init_mem(),
        disp: Seq::new(32, |k: int| 0u64),
        reg: Seq::new(16, |k: int| 0u8),
        stack: Seq::new(16, |k: int| 0u16),
        keys: Seq::new(16, |k: int| false),
        i: 0,
        pc: 0x200,
        sp: 0,
        dt: 0,
        st: 0,
    }
}

/// Memory after a successful program load: bytes of `p` from
/// `PROGRAM_START` on, the rest untouched.
pub open spec fn load_mem(mem: Seq<u8>, p: Seq<u8>) -> Seq<u8> {
    Seq::new(4096, |k: int| if 0x200 <= k < 0x200 + p.len() { p[k - 0x200] } else { mem[k] })
}

/// The smallest pressed key index, or 16 when no key at index `k` or above
/// is pressed.
pub open spec fn first_pressed(keys: Seq<bool>, k: int) -> int
    decreases 16 - k,
{
    if !(0 <= k < 16) {
        16
    } else if keys[k] {
        k
    } else {
        first_pressed(keys, k + 1)
    }
}

/// The bits of an 8-pixel sprite row that land on the display, as a mask
/// over the 64-bit display row.  Sprite bit `7 - cx` (the leftmost bit
/// first) lands on column `x0 + cx`; drawing clips at column 63 instead of
/// wrapping.  `cx` counts the bits already handled.
pub open spec fn row_mask(row: u8, x0: int, cx: int) -> u64
    decreases 8 - cx,
{
    if !(0 <= cx < 8) || x0 + cx > 63 {
        0u64
    } else {
        let rest: u64 = row_mask(row, x0, cx + 1);
        if row & (1u8 << ((7 - cx) as u8)) != 0 {
            (1u64 << ((x0 + cx) as u64)) | rest
        } else {
            rest
        }
    }
}

/// XOR-blit of sprite rows `cy..n` onto the display, with the collision
/// flag: each row toggles the pixels of its mask, and a collision is a
/// toggle that finds a pixel already on.  Row `cy` of the sprite is read at
/// address `i + cy` (modulo 4096) and lands on display row `y0 + cy`
/// (modulo 32).
pub open spec fn draw_rows(
    disp: Seq<u64>,
    mem: Seq<u8>,
    i: u16,
    x0: int,
    y0: int,
    cy: int,
    n: int,
) -> (Seq<u64>, bool)
    decreases n - cy,
{
    if !(cy < n) {
        (disp, false)
    } else {
        let row: u8 = mem[(i as int + cy) % 4096];
        let w: int = (y0 + cy) % 32;
        let m: u64 = row_mask(row, x0, 0);
        let rec = draw_rows(disp.update(w, disp[w] ^ m), mem, i, x0, y0, cy + 1, n);
        (rec.0, disp[w] & m != 0 || rec.1)
    }
}

/// The draw instruction: reset `VF`, then blit `n` sprite rows at the
/// wrapped coordinates taken from `Vx` and `Vy`, and record the collision
/// flag in `VF`.
pub open spec fn spec_draw(s: State, x: int, y: int, n: int) -> State {
    let r1 = s.reg.update(15, 0u8);
    let x0: int = r1[x] as int % 64;
    let y0: int = r1[y] as int % 32;
    let dr = draw_rows(s.disp, s.mem, s.i, x0, y0, 0, n);
    State { disp: dr.0, reg: r1.update(15, if dr.1 { 1u8 } else { 0u8 }), ..s }
}

/// The register file after an arithmetic/logic instruction, selected by the
/// low nibble.  The updates happen in the order the machine performs them,
/// which decides the outcome when `x` or `y` is 15 (`VF` doubles as the
/// flag output).
pub open spec fn spec_alu(reg: Seq<u8>, x: int, y: int, n4: u8) -> Seq<u8> {
    if n4 == 0 {
        reg.update(x, reg[y])
    } else if n4 == 1 {
        reg.update(x, reg[x] | reg[y])
    } else if n4 == 2 {
        reg.update(x, reg[x] & reg[y])
    } else if n4 == 3 {
        reg.update(x, reg[x] ^ reg[y])
    } else if n4 == 4 {
        // Add: VF is the carry, the sum wraps.
        let carry: u8 = if reg[x] + reg[y] > 255 { 1u8 } else { 0u8 };
        let sum: u8 = reg[x].wrapping_add(reg[y]);
        reg.update(15, carry).update(x, sum)
    } else if n4 == 5 {
        // Subtract: VF is cleared, then set when there is no borrow, then
        // the difference is written; each step reads the file as left by
        // the one before.
        let r1 = reg.update(15, 0u8);
        let r2 = if r1[x] > r1[y] { r1.update(15, 1u8) } else { r1 };
        r2.update(x, r2[x].wrapping_sub(r2[y]))
    } else if n4 == 6 {
        // Store Vy shifted right into Vx; VF gets the bit shifted out,
        // read after the store.
        let r1 = reg.update(x, reg[y] >> 1u8);
        r1.update(15, r1[y] & 1)
    } else if n4 == 7 {
        // Reverse subtract, with the same write order as subtract.
        let r1 = reg.update(15, 0u8);
        let r2 = if r1[y] > r1[x] { r1.update(15, 1u8) } else { r1 };
        r2.update(x, r2[y].wrapping_sub(r2[x]))
    } else if n4 == 0xE {
        // Store Vy shifted left into Vx; VF gets the bit shifted out,
        // read after the store.
        let r1 = reg.update(x, reg[y] << 1u8);
        r1.update(15, r1[y] >> 7u8)
    } else {
        reg
    }
}

/// Memory after the BCD-store instruction: the hundreds, tens and ones
/// digits of `v` at addresses `i`, `i + 1`, `i + 2` (each modulo 4096).
pub open spec fn spec_bcd(mem: Seq<u8>, i: u16, v: u8) -> Seq<u8> {
    mem.update(i as int % 4096, (v as int / 100) as u8).update(
        (i as int + 1) % 4096,
        (v as int / 10 % 10) as u8,
    ).update((i as int + 2) % 4096, (v as int % 10) as u8)
}

/// Memory after storing registers `Vk..Vx` at addresses `i + k` on
/// (each modulo 4096).
pub open spec fn store_regs(mem: Seq<u8>, reg: Seq<u8>, i: u16, k: int, x: int) -> Seq<u8>
    decreases x - k + 1,
{
    if !(0 <= k <= x) {
        mem
    } else {
        store_regs(mem.update((i as int + k) % 4096, reg[k]), reg, i, k + 1, x)
    }
}

/// Registers after loading `Vk..Vx` from addresses `i + k` on
/// (each modulo 4096).
pub open spec fn load_regs(reg: Seq<u8>, mem: Seq<u8>, i: u16, k: int, x: int) -> Seq<u8>
    decreases x - k + 1,
{
    if !(0 <= k <= x) {
        reg
    } else {
        load_regs(reg.update(k, mem[(i as int + k) % 4096]), mem, i, k + 1, x)
    }
}

/// The effect of one decoded instruction on the machine state `s`, in which
/// the program counter has already been advanced past the instruction.
/// `n1..n4` are the four nibbles of the instruction, high first; `rnd` is
/// the byte drawn by the random instruction and is ignored by every other
/// one.  Unrecognized patterns leave the state unchanged.
pub open spec fn spec_exec_instr(s: State, n1: u8, n2: u8, n3: u8, n4: u8, rnd: u8) -> State {
    let x: int = n2 as int;
    let y: int = n3 as int;
    let nn: u8 = (n3 * 16 + n4) as u8;
    let nnn: u16 = (n2 * 256 + n3 * 16 + n4) as u16;
    let skipped: u16 = s.pc.wrapping_add(2);
    if n1 == 0 && n2 == 0 && n3 == 0xE && n4 == 0 {
        // Clear the display.
        State { disp: Seq::new(32, |k: int| 0u64), ..s }
    } else if n1 == 0 && n2 == 0 && n3 == 0xE && n4 == 0xE {
        // Return; ignored on an empty stack.
        if s.sp > 0 {
            State { pc: s.stack[s.sp as int - 1], sp: (s.sp - 1) as u8, ..s }
        } else {
            s
        }
    } else if n1 == 1 {
        State { pc: nnn, ..s }
    } else if n1 == 2 {
        // Call; ignored on a full stack.
        if s.sp < 16 {
            State { stack: s.stack.update(s.sp as int, s.pc), sp: (s.sp + 1) as u8, pc: nnn, ..s }
        } else {
            s
        }
    } else if n1 == 3 {
        if s.reg[x] == nn { State { pc: skipped, ..s } } else { s }
    } else if n1 == 4 {
        if s.reg[x] != nn { State { pc: skipped, ..s } } else { s }
    } else if n1 == 5 && n4 == 0 {
        if s.reg[x] == s.reg[y] { State { pc: skipped, ..s } } else { s }
    } else if n1 == 9 && n4 == 0 {
        if s.reg[x] != s.reg[y] { State { pc: skipped, ..s } } else { s }
    } else if n1 == 6 {
        State { reg: s.reg.update(x, nn), ..s }
    } else if n1 == 7 {
        State { reg: s.reg.update(x, s.reg[x].wrapping_add(nn)), ..s }
    } else if n1 == 8 {
        State { reg: spec_alu(s.reg, x, y, n4), ..s }
    } else if n1 == 0xA {
        State { i: nnn, ..s }
    } else if n1 == 0xB {
        State { pc: (s.reg[0] + nnn) as u16, ..s }
    } else if n1 == 0xC {
        State { reg: s.reg.update(x, rnd & nn), ..s }
    } else if n1 == 0xD {
        spec_draw(s, x, y, n4 as int)
    } else if n1 == 0xE && n3 == 9 && n4 == 0xE {
        if s.keys[s.reg[x] as int % 16] { State { pc: skipped, ..s } } else { s }
    } else if n1 == 0xE && n3 == 0xA && n4 == 1 {
        if !s.keys[s.reg[x] as int % 16] { State { pc: skipped, ..s } } else { s }
    } else if n1 == 0xF && n3 == 0 && n4 == 7 {
        State { reg: s.reg.update(x, s.dt), ..s }
    } else if n1 == 0xF && n3 == 0 && n4 == 0xA {
        // Wait for a key: store the smallest pressed index, or rewind the
        // program counter so the instruction runs again on the next step.
        let k: int = first_pressed(s.keys, 0);
        if k < 16 {
            State { reg: s.reg.update(x, k as u8), ..s }
        } else {
            State { pc: s.pc.wrapping_sub(2), ..s }
        }
    } else if n1 == 0xF && n3 == 1 && n4 == 5 {
        State { dt: s.reg[x], ..s }
    } else if n1 == 0xF && n3 == 1 && n4 == 8 {
        State { st: s.reg[x], ..s }
    } else if n1 == 0xF && n3 == 1 && n4 == 0xE {
        State { i: s.i.wrapping_add(s.reg[x] as u16), ..s }
    } else if n1 == 0xF && n3 == 2 && n4 == 9 {
        // Font address of the digit held in Vx: 5 bytes per glyph.
        State { i: (0x50 + s.reg[x] * 5) as u16, ..s }
    } else if n1 == 0xF && n3 == 3 && n4 == 3 {
        State { mem: spec_bcd(s.mem, s.i, s.reg[x]), ..s }
    } else if n1 == 0xF && n3 == 5 && n4 == 5 {
        State { mem: store_regs(s.mem, s.reg, s.i, 0, x), ..s }
    } else if n1 == 0xF && n3 == 6 && n4 == 5 {
        State { reg: load_regs(s.reg, s.mem, s.i, 0, x), ..s }
    } else {
        s
    }
}

/// One fetch-decode-execute step: read the two instruction bytes at the
/// program counter (each address modulo 4096), advance the counter past
/// them, and apply the instruction.  `rnd` is the byte the random
/// instruction draws; every other instruction ignores it.
pub open spec fn spec_step(s: State, rnd: u8) -> State {
    let hi: u8 = s.mem[s.pc as int % 4096];
    let lo: u8 = s.mem[(s.pc as int + 1) % 4096];
    let s1 = State { pc: s.pc.wrapping_add(2), ..s };
    spec_exec_instr(s1, hi >> 4u8, hi & 0xF, lo >> 4u8, lo & 0xF, rnd)
}

/// Whether the instruction about to be fetched is the random instruction,
/// the one step whose outcome is not a function of the state alone.
pub open spec fn next_is_random(s: State) -> bool {
    s.mem[s.pc as int % 4096] >> 4u8 == 0xC
}

} // verus!
