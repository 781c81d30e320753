//! Laws of the machine model: properties of `spec_step` that hold for every
//! state, proved once and for all.  Each law speaks about the instruction
//! the program counter points at through the nibbles of its two bytes.

use crate::bits::{lemma_bit_select, lemma_bits64, lemma_byte_split};
use crate::semantics::{draw_rows, first_pressed, font, row_mask, spec_step, State};
use vstd::prelude::*;

verus! {

/// The high and low instruction bytes in memory, as the step reads them.
pub open spec fn instr_hi(s: State) -> u8 {
    s.mem[s.pc as int % 4096]
}

/// The second instruction byte.
pub open spec fn instr_lo(s: State) -> u8 {
    s.mem[(s.pc as int + 1) % 4096]
}

/// Loading an immediate and then skipping on equality with the same
/// immediate always takes the skip: the load advances the counter by 2, and
/// the taken skip by 4 more (2 for its own fetch and 2 extra for the skip),
/// so the counter ends 6 past where it began.
pub proof fn lemma_load_then_skip_equal(s: State, r: u8, n: u8)
    requires
        s.wf(),
        r < 16,
        instr_hi(s) >> 4u8 == 6 && (instr_hi(s) & 0xF) == r,
        instr_lo(s) == n,
        instr_hi(spec_step(s, 0)) >> 4u8 == 3 && (instr_hi(spec_step(s, 0)) & 0xF) == r,
        instr_lo(spec_step(s, 0)) == n,
    ensures
        spec_step(s, 0).pc == s.pc.wrapping_add(2),
        spec_step(s, 0).reg[r as int] == n,
        spec_step(spec_step(s, 0), 0).pc == s.pc.wrapping_add(2).wrapping_add(2).wrapping_add(2),
{
    lemma_byte_split(instr_lo(s));
    lemma_byte_split(instr_lo(spec_step(s, 0)));
}

/// Add with carry: the sum wraps into `Vx` and `VF` reports the carry, for
/// every pair of operand registers other than `VF` itself as destination and
/// every pair of values.
pub proof fn lemma_add_carry(s: State, x: u8, y: u8)
    requires
        s.wf(),
        x < 16,
        y < 16,
        x != 15,
        instr_hi(s) >> 4u8 == 8 && (instr_hi(s) & 0xF) == x,
        instr_lo(s) >> 4u8 == y && (instr_lo(s) & 0xF) == 4,
    ensures
        spec_step(s, 0).reg[x as int] == (s.reg[x as int] + s.reg[y as int]) % 256,
        spec_step(s, 0).reg[15] == (if s.reg[x as int] + s.reg[y as int] > 255 {
            1u8
        } else {
            0u8
        }),
        spec_step(s, 0).pc == s.pc.wrapping_add(2),
{
}

/// Subtract with borrow flag: `Vx` takes the wrapped difference and `VF` is
/// 1 exactly when the minuend exceeds the subtrahend, for every pair of
/// operand registers other than `VF` itself.
pub proof fn lemma_sub_borrow(s: State, x: u8, y: u8)
    requires
        s.wf(),
        x < 16,
        y < 16,
        x != 15,
        y != 15,
        instr_hi(s) >> 4u8 == 8 && (instr_hi(s) & 0xF) == x,
        instr_lo(s) >> 4u8 == y && (instr_lo(s) & 0xF) == 5,
    ensures
        spec_step(s, 0).reg[x as int] == (s.reg[x as int] - s.reg[y as int] + 256) % 256,
        spec_step(s, 0).reg[15] == (if s.reg[x as int] > s.reg[y as int] {
            1u8
        } else {
            0u8
        }),
        spec_step(s, 0).pc == s.pc.wrapping_add(2),
{
}

/// After the clear-display instruction every pixel reads as off.
pub proof fn lemma_clear_then_query(s: State)
    requires
        s.wf(),
        instr_hi(s) == 0x00,
        instr_lo(s) == 0xE0,
    ensures
        forall|x: u16, y: u16| !spec_step(s, 0).px(x, y),
{
    lemma_byte_split(instr_hi(s));
    lemma_byte_split(instr_lo(s));
    assert forall|x: u16, y: u16| !spec_step(s, 0).px(x, y) by {
        lemma_bit_select(0u64, (x % 64) as u64);
    }
}

/// `first_pressed` finds the smallest pressed key at or above `k`, and
/// reports 16 exactly when none is pressed there.
pub proof fn lemma_first_pressed(keys: Seq<bool>, k: int)
    requires
        keys.len() == 16,
        0 <= k <= 16,
    ensures
        k <= first_pressed(keys, k) <= 16,
        first_pressed(keys, k) < 16 ==> keys[first_pressed(keys, k)],
        forall|j: int| k <= j < first_pressed(keys, k) ==> !keys[j],
        (first_pressed(keys, k) == 16) <==> (forall|j: int| k <= j < 16 ==> !keys[j]),
    decreases 16 - k,
{
    if k < 16 && !keys[k] {
        lemma_first_pressed(keys, k + 1);
    }
}

/// The wait-for-key instruction leaves the whole machine unchanged while no
/// key is pressed — so repeated steps are stuck on it — and the first step
/// after a key is pressed stores the smallest pressed index and moves on.
pub proof fn lemma_wait_for_key(s: State, x: u8)
    requires
        s.wf(),
        x < 16,
        instr_hi(s) >> 4u8 == 0xF && (instr_hi(s) & 0xF) == x,
        instr_lo(s) == 0x0A,
    ensures
        (forall|k: int| 0 <= k < 16 ==> !s.keys[k]) ==> spec_step(s, 0) == s,
        (exists|k: int| 0 <= k < 16 && s.keys[k]) ==> spec_step(s, 0) == (State {
            reg: s.reg.update(x as int, first_pressed(s.keys, 0) as u8),
            pc: s.pc.wrapping_add(2),
            ..s
        }),
        (exists|k: int| 0 <= k < 16 && s.keys[k]) ==> s.keys[first_pressed(s.keys, 0)],
{
    lemma_byte_split(instr_lo(s));
    lemma_first_pressed(s.keys, 0);
    if forall|k: int| 0 <= k < 16 ==> !s.keys[k] {
        assert(spec_step(s, 0) =~= s);
    }
}

/// The font-address instruction points the index register at the glyph of
/// the digit held in `Vx`: glyphs are 5 bytes apart, starting at 0x50.
pub proof fn lemma_font_addressing(s: State, x: u8, d: u8)
    requires
        s.wf(),
        x < 16,
        d < 16,
        s.reg[x as int] == d,
        instr_hi(s) >> 4u8 == 0xF && (instr_hi(s) & 0xF) == x,
        instr_lo(s) == 0x29,
    ensures
        spec_step(s, 0).i == 0x50 + 5 * d,
        spec_step(s, 0).mem == s.mem,
        spec_step(s, 0).pc == s.pc.wrapping_add(2),
{
    lemma_byte_split(instr_lo(s));
}

/// A block load of `V0..V4` from an index register that points at glyph `d`
/// of an intact font recovers the glyph's 5 bytes.
pub proof fn lemma_font_glyph_load(s: State, x: u8, d: u8)
    requires
        s.wf(),
        x < 16,
        x >= 4,
        d < 16,
        s.i == 0x50 + 5 * d,
        forall|k: int| 0x50 <= k < 0xA0 ==> s.mem[k] == font()[k - 0x50],
        instr_hi(s) >> 4u8 == 0xF && (instr_hi(s) & 0xF) == x,
        instr_lo(s) == 0x65,
        x == 4,
    ensures
        forall|j: int| 0 <= j < 5 ==> spec_step(s, 0).reg[j] == font()[5 * d + j],
{
    lemma_byte_split(instr_lo(s));
    reveal_with_fuel(crate::semantics::load_regs, 8);
}

/// The BCD instruction writes the decimal digits of 245 — 2, 4, 5 — to the
/// three cells at the index register.
pub proof fn lemma_bcd_store(s: State, x: u8)
    requires
        s.wf(),
        x < 16,
        s.reg[x as int] == 245,
        instr_hi(s) >> 4u8 == 0xF && (instr_hi(s) & 0xF) == x,
        instr_lo(s) == 0x33,
    ensures
        spec_step(s, 0).mem[s.i as int % 4096] == 2,
        spec_step(s, 0).mem[(s.i as int + 1) % 4096] == 4,
        spec_step(s, 0).mem[(s.i as int + 2) % 4096] == 5,
{
    lemma_byte_split(instr_lo(s));
}

/// The sprite row that lands on display row `w` when the sprite starts at
/// row `y0`: the draws wrap vertically modulo 32.
pub open spec fn sprite_row_at(y0: int, w: int) -> int {
    (w - y0) % 32
}

/// Whether sprite row `j` finds a pixel already lit under one of its set
/// bits: the collision a draw reports.
pub open spec fn row_collides(
    disp: Seq<u64>,
    mem: Seq<u8>,
    i: u16,
    x0: int,
    y0: int,
    j: int,
) -> bool {
    disp[(y0 + j) % 32] & row_mask(mem[(i as int + j) % 4096], x0, 0) != 0
}

/// What a draw does to each display row: row `w` is XORed with the mask of
/// the sprite row that lands on it, if any (a sprite is at most 16 rows, so
/// no display row receives two sprite rows), and the collision flag is set
/// exactly when some sprite row finds a pixel already lit.
#[verifier::rlimit(100)]
pub proof fn lemma_draw_rows_pointwise(
    disp: Seq<u64>,
    mem: Seq<u8>,
    i: u16,
    x0: int,
    y0: int,
    cy: int,
    n: int,
)
    requires
        disp.len() == 32,
        0 <= y0 < 32,
        0 <= cy <= n <= 16,
    ensures
        draw_rows(disp, mem, i, x0, y0, cy, n).0.len() == 32,
        forall|w: int|
            0 <= w < 32 ==> #[trigger] draw_rows(disp, mem, i, x0, y0, cy, n).0[w] == (if cy
                <= sprite_row_at(y0, w) < n {
                disp[w] ^ row_mask(mem[(i as int + sprite_row_at(y0, w)) % 4096], x0, 0)
            } else {
                disp[w]
            }),
        draw_rows(disp, mem, i, x0, y0, cy, n).1 <==> (exists|j: int|
            cy <= j < n && #[trigger] row_collides(disp, mem, i, x0, y0, j)),
    decreases n - cy,
{
    if cy < n {
        let row = mem[(i as int + cy) % 4096];
        let w0 = (y0 + cy) % 32;
        let m = row_mask(row, x0, 0);
        let d1 = disp.update(w0, disp[w0] ^ m);
        lemma_draw_rows_pointwise(d1, mem, i, x0, y0, cy + 1, n);
        assert(sprite_row_at(y0, w0) == cy);
        assert forall|w: int| 0 <= w < 32 && w != w0 implies !(sprite_row_at(y0, w) == cy) by {
        }
        assert forall|j: int| cy + 1 <= j < n implies (row_collides(d1, mem, i, x0, y0, j)
            == row_collides(disp, mem, i, x0, y0, j)) by {
            assert((y0 + j) % 32 != w0);
        }
        if draw_rows(disp, mem, i, x0, y0, cy, n).1 {
            if row_collides(disp, mem, i, x0, y0, cy) {
            } else {
                let j = choose|j: int|
                    cy + 1 <= j < n && #[trigger] row_collides(d1, mem, i, x0, y0, j);
                assert(row_collides(disp, mem, i, x0, y0, j));
            }
        }
        if exists|j: int| cy <= j < n && #[trigger] row_collides(disp, mem, i, x0, y0, j) {
            let j = choose|j: int| cy <= j < n && #[trigger] row_collides(disp, mem, i, x0, y0, j);
            if j > cy {
                assert(row_collides(d1, mem, i, x0, y0, j));
            }
        }
    }
}

/// Drawing the same sprite at the same place twice restores the display,
/// and the second draw reports no collision exactly when the first draw
/// turned no pixel on — when every pixel under a set sprite bit was already
/// lit before the first draw.
#[verifier::rlimit(100)]
pub proof fn lemma_draw_twice(disp: Seq<u64>, mem: Seq<u8>, i: u16, x0: int, y0: int, n: int)
    requires
        disp.len() == 32,
        0 <= y0 < 32,
        0 <= n <= 16,
    ensures
        draw_rows(draw_rows(disp, mem, i, x0, y0, 0, n).0, mem, i, x0, y0, 0, n).0 == disp,
        !draw_rows(draw_rows(disp, mem, i, x0, y0, 0, n).0, mem, i, x0, y0, 0, n).1 <==> (forall|
            j: int,
        |
            0 <= j < n ==> #[trigger] row_mask(mem[(i as int + j) % 4096], x0, 0) & !disp[(y0 + j)
                % 32] == 0),
{
    let d1 = draw_rows(disp, mem, i, x0, y0, 0, n).0;
    lemma_draw_rows_pointwise(disp, mem, i, x0, y0, 0, n);
    lemma_draw_rows_pointwise(d1, mem, i, x0, y0, 0, n);
    assert forall|w: int| 0 <= w < 32 implies #[trigger] draw_rows(
        d1,
        mem,
        i,
        x0,
        y0,
        0,
        n,
    ).0[w] == disp[w] by {
        if 0 <= sprite_row_at(y0, w) < n {
            let m = row_mask(mem[(i as int + sprite_row_at(y0, w)) % 4096], x0, 0);
            lemma_bits64(disp[w], m, 0);
        }
    }
    assert(draw_rows(d1, mem, i, x0, y0, 0, n).0 =~= disp);
    assert forall|j: int| 0 <= j < n implies (row_collides(d1, mem, i, x0, y0, j) == (
    #[trigger] row_mask(mem[(i as int + j) % 4096], x0, 0) & !disp[(y0 + j) % 32] != 0)) by {
        let w = (y0 + j) % 32;
        let m = row_mask(mem[(i as int + j) % 4096], x0, 0);
        assert(sprite_row_at(y0, w) == j);
        assert(d1[w] == disp[w] ^ m);
        lemma_bits64(disp[w], m, 0);
        assert((disp[w] ^ m) & m == m & !disp[w]);
        lemma_bits64(m, !disp[w], 0);
    }
    if !draw_rows(d1, mem, i, x0, y0, 0, n).1 {
        assert forall|j: int|
            0 <= j < n implies #[trigger] row_mask(mem[(i as int + j) % 4096], x0, 0) & !disp[(y0
            + j) % 32] == 0 by {
            assert(!row_collides(d1, mem, i, x0, y0, j));
        }
    }
}

/// Two consecutive draw instructions with the same operands cancel: the
/// display after the second draw is the display before the first.  (`VF` is
/// excluded as an operand because the first draw overwrites it.)
pub proof fn lemma_draw_twice_step(s: State, x: u8, y: u8, n: u8)
    requires
        s.wf(),
        x < 16,
        y < 16,
        n < 16,
        x != 15,
        y != 15,
        instr_hi(s) >> 4u8 == 0xD && (instr_hi(s) & 0xF) == x,
        instr_lo(s) >> 4u8 == y && (instr_lo(s) & 0xF) == n,
        instr_hi(spec_step(s, 0)) >> 4u8 == 0xD && (instr_hi(spec_step(s, 0)) & 0xF) == x,
        instr_lo(spec_step(s, 0)) >> 4u8 == y && (instr_lo(spec_step(s, 0)) & 0xF) == n,
    ensures
        spec_step(spec_step(s, 0), 0).disp == s.disp,
{
    let x0 = s.reg.update(15, 0u8)[x as int] as int % 64;
    let y0 = s.reg.update(15, 0u8)[y as int] as int % 32;
    lemma_draw_twice(s.disp, s.mem, s.i, x0, y0, n as int);
    assert(spec_step(spec_step(s, 0), 0).disp =~= s.disp);
}

} // verus!
