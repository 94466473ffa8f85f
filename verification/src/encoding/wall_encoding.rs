//! The first feature layout of a wall: for each row, each column and each
//! color, the pattern of its five fields.
use vstd::prelude::*;
use crate::encoding::features::InputChange;
use crate::encoding::wall::row_bits;
use crate::wall::{color_mask, wall_color_mask};

verus! {

/// Number of wall features of one player.
pub const PLAYER_WALL_ENCODING_SIZE: usize = 480;

/// Where the wall features begin.
pub const OFFSET_PLAYER_WALL: usize = 592;

/// The five fields of column `c`.
pub open spec fn column_mask(c: int) -> u32 {
    (0x0104_1041u32 << (c as u32)) as u32
}

/// The five rows of `x` laid over each other: a field is set where it is
/// set in some row.
pub open spec fn folded(x: u32) -> u32 {
    (x & 31u32) | ((x >> 6u32) & 31u32) | ((x >> 12u32) & 31u32) | ((x >> 18u32) & 31u32) | ((x >> 24u32) & 31u32)
}

/// The `i`-th wall feature of player `p`: the five rows, then the five
/// columns, then the five colors, each a block of 31 starting at its pattern.
pub open spec fn wall_feature(wall: u32, p: int, i: int) -> int {
    let base = OFFSET_PLAYER_WALL + p * PLAYER_WALL_ENCODING_SIZE;
    if i < 5 {
        base + 31 * i + row_bits(wall, i as u32)
    } else if i < 10 {
        base + 155 + folded(wall & column_mask(i - 5)) + 31 * (i - 5)
    } else {
        base + 310 + folded(wall & color_mask(i - 10)) + 31 * (i - 10)
    }
}

proof fn lemma_pattern_bounds(x: u32)
    ensures
        folded(x) < 32,
        (x >> 0u32) & 31u32 < 32,
        (x >> 6u32) & 31u32 < 32,
        (x >> 12u32) & 31u32 < 32,
        (x >> 18u32) & 31u32 < 32,
        (x >> 24u32) & 31u32 < 32,
{
    assert(((x & 31u32) | ((x >> 6u32) & 31u32) | ((x >> 12u32) & 31u32) | ((x >> 18u32) & 31u32) | ((x >> 24u32)
        & 31u32)) < 32 && (x >> 0u32) & 31u32 < 32 && (x >> 6u32) & 31u32 < 32 && (x >> 12u32) & 31u32 < 32 && (x
        >> 18u32) & 31u32 < 32 && (x >> 24u32) & 31u32 < 32) by (bit_vector);
}

fn fold_rows(x: u32) -> (r: u32)
    ensures
        r == folded(x),
        r < 32,
{
    proof {
        lemma_pattern_bounds(x);
    }
    (x & 31) | ((x >> 6) & 31) | ((x >> 12) & 31) | ((x >> 18) & 31) | ((x >> 24) & 31)
}

/// The changes that switch on the wall features of player `player_index`.
pub fn add_wall_encoding(wall: u32, player_index: usize) -> (r: Vec<InputChange>)
    requires
        player_index < 2,
    ensures
        r@ == Seq::new(15, |i: int| InputChange::On(wall_feature(wall, player_index as int, i) as usize)),
{
    let base = OFFSET_PLAYER_WALL + player_index * PLAYER_WALL_ENCODING_SIZE;
    proof {
        lemma_pattern_bounds(wall);
    }
    let mut changes: Vec<InputChange> = Vec::new();
    let mut row: usize = 0;
    while row < 5
        invariant
            row <= 5,
            player_index < 2,
            base == OFFSET_PLAYER_WALL + player_index * PLAYER_WALL_ENCODING_SIZE,
            changes@ == Seq::new(row as nat, |i: int| InputChange::On(wall_feature(wall, player_index as int, i) as usize)),
        decreases 5 - row,
    {
        let shift: u32 = (row * 6) as u32;
        let index = (wall >> shift) & 31;
        proof {
            lemma_pattern_bounds(wall);
            assert(index == row_bits(wall, row as u32));
        }
        changes.push(InputChange::On(base + 31 * row + index as usize));
        row = row + 1;
        assert(changes@ =~= Seq::new(row as nat, |i: int| InputChange::On(wall_feature(wall, player_index as int, i) as usize)));
    }
    let mut col: usize = 0;
    while col < 5
        invariant
            col <= 5,
            player_index < 2,
            base == OFFSET_PLAYER_WALL + player_index * PLAYER_WALL_ENCODING_SIZE,
            changes@ == Seq::new((5 + col) as nat, |i: int| InputChange::On(wall_feature(wall, player_index as int, i) as usize)),
        decreases 5 - col,
    {
        let mask: u32 = 0x0104_1041u32 << (col as u32);
        let index = fold_rows(wall & mask);
        changes.push(InputChange::On(base + 155 + index as usize + 31 * col));
        col = col + 1;
        assert(changes@ =~= Seq::new((5 + col) as nat, |i: int| InputChange::On(wall_feature(wall, player_index as int, i) as usize)));
    }
    let mut color: usize = 0;
    while color < 5
        invariant
            color <= 5,
            player_index < 2,
            base == OFFSET_PLAYER_WALL + player_index * PLAYER_WALL_ENCODING_SIZE,
            changes@ == Seq::new((10 + color) as nat, |i: int| InputChange::On(wall_feature(wall, player_index as int, i) as usize)),
        decreases 5 - color,
    {
        let index = fold_rows(wall & wall_color_mask(color));
        changes.push(InputChange::On(base + 310 + index as usize + 31 * color));
        color = color + 1;
        assert(changes@ =~= Seq::new((10 + color) as nat, |i: int| InputChange::On(wall_feature(wall, player_index as int, i) as usize)));
    }
    changes
}

} // verus!
