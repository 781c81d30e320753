//! Bit-level facts about the display words and instruction bytes that the
//! default solver does not know on its own.

use crate::semantics::row_mask;
use vstd::prelude::*;

verus! {

/// The two nibbles of a byte are hexadecimal digits.
pub proof fn lemma_nibbles(b: u8)
    by (bit_vector)
    ensures
        b >> 4u8 < 16,
        b & 0xF < 16,
{
}

/// A byte is its two nibbles: sixteen times the high one plus the low one.
pub proof fn lemma_byte_split(b: u8)
    by (bit_vector)
    ensures
        (b >> 4u8) * 16 + (b & 0xF) == b,
        b >> 4u8 < 16,
        b & 0xF < 16,
{
}

/// Reading one bit of a display word: shifting it down is the same as
/// testing its mask, and a zero word has no bit set.
pub proof fn lemma_bit_select(v: u64, sh: u64)
    by (bit_vector)
    requires
        sh < 64,
    ensures
        ((v >> sh) & 1 == 1) <==> (v & (1u64 << sh) != 0),
        (0u64 >> sh) & 1 == 0,
{
}

/// Two distinct single-bit masks do not overlap.
pub proof fn lemma_single_bits_disjoint(i: u64, j: u64)
    by (bit_vector)
    requires
        i < 64,
        j < 64,
        i != j,
    ensures
        (1u64 << i) & (1u64 << j) == 0,
{
}

/// Assorted laws of `&`, `|` and `^` on 64-bit words, used to fold single
/// pixel toggles into a row mask.
pub proof fn lemma_bits64(a: u64, b: u64, c: u64)
    by (bit_vector)
    ensures
        (a | b) & c == (a & c) | (b & c),
        a & b == b & a,
        a | b == b | a,
        a ^ b == b ^ a,
        a & 0u64 == 0,
        0u64 & a == 0,
        a | 0u64 == a,
        a ^ 0u64 == a,
        (a ^ b) ^ b == a,
        (a ^ b) & b == b & !a,
        b & c == 0 ==> (a ^ b) ^ c == a ^ (b | c),
        b & c == 0 ==> (a ^ b) & c == a & c,
        (a & (b | c) != 0) <==> (a & b != 0 || a & c != 0),
        (a & c == 0 && b & c == 0) ==> ((a | b) & c == 0),
{
}

/// Every bit of `row_mask(row, x0, cx)` sits at a column of at least
/// `x0 + cx`: the mask of the bits still to draw never touches a column
/// already drawn.
pub proof fn lemma_row_mask_above(row: u8, x0: int, cx: int, k: u64)
    requires
        0 <= x0 <= 63,
        0 <= cx,
        k < 64,
        (k as int) < x0 + cx,
    ensures
        row_mask(row, x0, cx) & (1u64 << k) == 0,
    decreases 8 - cx,
{
    if !(0 <= cx < 8) || x0 + cx > 63 {
        assert(row_mask(row, x0, cx) == 0u64);
        lemma_bits64(1u64 << k, 0, 0);
    } else {
        let rest = row_mask(row, x0, cx + 1);
        lemma_row_mask_above(row, x0, cx + 1, k);
        if row & (1u8 << ((7 - cx) as u8)) != 0 {
            let bit = 1u64 << ((x0 + cx) as u64);
            lemma_single_bits_disjoint((x0 + cx) as u64, k);
            lemma_bits64(bit, rest, 1u64 << k);
        }
    }
}

} // verus!
