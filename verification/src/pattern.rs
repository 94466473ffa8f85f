//! Pattern lines as a bitboard: line `i` (holding up to `i + 1` tiles) uses
//! the `i + 1` bits from `pattern_start(i)`.
use vstd::prelude::*;
use crate::bits::{bit, popcount, count_below, count_ones, lemma_count_below_ext, lemma_count_window,
    lemma_bit_and, lemma_popcount_zero};

verus! {

/// First bit of pattern line `i`.
pub open spec fn pattern_start(i: int) -> int {
    if i == 0 {
        0
    } else if i == 1 {
        2
    } else if i == 2 {
        5
    } else if i == 3 {
        9
    } else {
        14
    }
}

/// The bits of pattern line `i`.
pub open spec fn pattern_mask(i: int) -> u32 {
    if i == 0 {
        0x1u32
    } else if i == 1 {
        0xcu32
    } else if i == 2 {
        0xe0u32
    } else if i == 3 {
        0x1e00u32
    } else {
        0x7c000u32
    }
}

/// Number of set bits in pattern line `i`.
pub open spec fn line_count(pattern_bitboard: u32, i: int) -> nat {
    count_below(|j: int| bit(pattern_bitboard, pattern_start(i) + j), i + 1)
}

fn pattern_mask_of(i: usize) -> (m: u32)
    requires
        i < 5,
    ensures
        m == pattern_mask(i as int),
{
    match i {
        0 => 0x1u32,
        1 => 0xcu32,
        2 => 0xe0u32,
        3 => 0x1e00u32,
        _ => 0x7c000u32,
    }
}

proof fn lemma_mask_bits_bv(i: u32, p: u32)
    by (bit_vector)
    requires
        i < 5,
        p < 32,
    ensures
        (((if i == 0 {
            0x1u32
        } else if i == 1 {
            0xcu32
        } else if i == 2 {
            0xe0u32
        } else if i == 3 {
            0x1e00u32
        } else {
            0x7c000u32
        }) >> p) & 1u32 == 1u32) == ((if i == 0 {
            0u32
        } else if i == 1 {
            2u32
        } else if i == 2 {
            5u32
        } else if i == 3 {
            9u32
        } else {
            14u32
        }) <= p && p <= (if i == 0 {
            0u32
        } else if i == 1 {
            2u32
        } else if i == 2 {
            5u32
        } else if i == 3 {
            9u32
        } else {
            14u32
        }) + i),
{
}

proof fn lemma_mask_bits(i: int, p: int)
    requires
        0 <= i < 5,
    ensures
        bit(pattern_mask(i), p) == (pattern_start(i) <= p <= pattern_start(i) + i),
{
    if 0 <= p < 32 {
        lemma_mask_bits_bv(i as u32, p as u32);
    }
}

proof fn lemma_line_popcounts(pb: u32, i: int)
    requires
        0 <= i < 5,
    ensures
        popcount(pb & pattern_mask(i)) == line_count(pb, i),
        popcount(pattern_mask(i) & !(pb & pattern_mask(i))) + line_count(pb, i) == i + 1,
{
    let m = pattern_mask(i);
    let lo = pattern_start(i);
    let hi = lo + i + 1;
    let h = |j: int| bit(pb, pattern_start(i) + j);
    let hn = |j: int| !bit(pb, pattern_start(i) + j);
    assert forall|p: int| 0 <= p < 32 implies #[trigger] bit(pb & m, p) == (lo <= p < hi && h(p - lo)) by {
        lemma_bit_and(pb, m, p);
        lemma_mask_bits(i, p);
    }
    lemma_count_window(|p: int| bit(pb & m, p), h, lo, hi, 32);
    assert forall|p: int| 0 <= p < 32 implies #[trigger] bit(m & !(pb & m), p) == (lo <= p < hi
        && hn(p - lo)) by {
        lemma_bit_and(pb, m, p);
        lemma_mask_bits(i, p);
    }
    lemma_count_window(|p: int| bit(m & !(pb & m), p), hn, lo, hi, 32);
    lemma_count_complement(h, i + 1);
    lemma_count_below_ext(|j: int| !h(j), hn, i + 1);
}

proof fn lemma_count_complement(f: spec_fn(int) -> bool, n: int)
    requires
        n >= 0,
    ensures
        count_below(f, n) + count_below(|j: int| !f(j), n) == n,
    decreases n,
{
    if n > 0 {
        lemma_count_complement(f, n - 1);
    }
}

/// Whether pattern line `pattern_index` holds no tile.
pub fn is_pattern_empty(pattern_bitboard: u32, pattern_index: usize) -> (r: bool)
    requires
        pattern_index < 5,
    ensures
        r == (line_count(pattern_bitboard, pattern_index as int) == 0),
{
    let m = pattern_mask_of(pattern_index);
    proof {
        lemma_line_popcounts(pattern_bitboard, pattern_index as int);
        lemma_popcount_zero(pattern_bitboard & m);
    }
    pattern_bitboard & m == 0
}

/// Whether pattern line `pattern_index` holds all its tiles.
pub fn is_pattern_full(pattern_bitboard: u32, pattern_index: usize) -> (r: bool)
    requires
        pattern_index < 5,
    ensures
        r == (line_count(pattern_bitboard, pattern_index as int) == pattern_index + 1),
{
    let m = pattern_mask_of(pattern_index);
    proof {
        lemma_line_popcounts(pattern_bitboard, pattern_index as int);
        lemma_popcount_zero(m & !(pattern_bitboard & m));
        assert((pattern_bitboard & m == m) == (m & !(pattern_bitboard & m) == 0)) by (bit_vector);
    }
    pattern_bitboard & m == m
}

/// Number of free places in pattern line `pattern_index`.
pub fn remaining_space(pattern_bitboard: u32, pattern_index: usize) -> (r: u32)
    requires
        pattern_index < 5,
    ensures
        r + line_count(pattern_bitboard, pattern_index as int) == pattern_index + 1,
        r == popcount(pattern_mask(pattern_index as int) & !pattern_bitboard),
{
    let m = pattern_mask_of(pattern_index);
    let remaining = m & !(pattern_bitboard & m);
    proof {
        lemma_line_popcounts(pattern_bitboard, pattern_index as int);
        lemma_pattern_space(pattern_bitboard, pattern_index as int);
    }
    count_ones(remaining)
}


/// Law: the free places of pattern line `i` are the bits of its mask that
/// the bitboard leaves clear, at most `i + 1` of them; the line is full
/// exactly when none is free and empty exactly when all `i + 1` are.
pub proof fn lemma_pattern_space(b: u32, i: int)
    requires
        0 <= i < 5,
    ensures
        popcount(pattern_mask(i) & !b) + line_count(b, i) == i + 1,
        popcount(pattern_mask(i) & !b) <= i + 1,
        (line_count(b, i) == i + 1) == (popcount(pattern_mask(i) & !b) == 0),
        (line_count(b, i) == 0) == (popcount(pattern_mask(i) & !b) == i + 1),
{
    lemma_line_popcounts(b, i);
    let m = pattern_mask(i);
    assert(m & !(b & m) == m & !b) by (bit_vector);
}

} // verus!
