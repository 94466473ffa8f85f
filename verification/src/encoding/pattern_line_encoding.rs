//! The first feature layout of the pattern lines: for each line, one feature
//! for the empty line and one for each count and color.
use vstd::prelude::*;
use crate::encoding::factory_encoding::FACTORY_ENCODING_SIZE;
use crate::tile_color::{TileColor, NUM_TILE_COLORS, color_index};
use crate::encoding::features::InputChange;

verus! {

/// Number of pattern line features of one player.
pub const PLAYER_PATTERN_LINE_ENCODING_SIZE: usize = 81;

/// Where the features of each line (and of the floor line) begin.
pub open spec fn pattern_line_offset(l: int) -> int {
    if l == 0 {
        0
    } else if l == 1 {
        1
    } else if l == 2 {
        7
    } else if l == 3 {
        18
    } else if l == 4 {
        34
    } else {
        55
    }
}

/// The feature of a line within a player's block.
pub open spec fn line_feature(pattern_line_index: int, num_tiles: int, color: Option<TileColor>) -> int {
    if num_tiles == 0 {
        pattern_line_offset(pattern_line_index)
    } else {
        pattern_line_offset(pattern_line_index) + 1 + (num_tiles - 1) * 5 + color_index(color->0)
    }
}

/// The feature for line `pattern_line_index` of player `player_index`
/// holding `num_tiles` tiles of `color`.
pub fn get_pattern_line_index(
    pattern_line_index: usize,
    num_tiles: usize,
    color: Option<TileColor>,
    player_index: usize,
) -> (r: usize)
    requires
        pattern_line_index < 6,
        num_tiles == 0 || color is Some,
        line_feature(pattern_line_index as int, num_tiles as int, color) + FACTORY_ENCODING_SIZE + player_index
            * PLAYER_PATTERN_LINE_ENCODING_SIZE <= usize::MAX,
    ensures
        r == line_feature(pattern_line_index as int, num_tiles as int, color) + FACTORY_ENCODING_SIZE
            + player_index * PLAYER_PATTERN_LINE_ENCODING_SIZE,
{
    let offsets: [usize; 6] = [0, 1, 7, 18, 34, 55];
    assert(offsets[pattern_line_index as int] == pattern_line_offset(pattern_line_index as int));
    let index = if num_tiles == 0 {
        offsets[pattern_line_index]
    } else {
        let c = match color {
            Some(c) => c.to_usize(),
            None => 0,
        };
        offsets[pattern_line_index] + 1 + (num_tiles - 1) * NUM_TILE_COLORS + c
    };
    index + FACTORY_ENCODING_SIZE + player_index * PLAYER_PATTERN_LINE_ENCODING_SIZE
}

/// Whether `(l, n, color)` is a state of a line: line `l` (5 for the floor
/// line) holds `n <= l` tiles, with a color exactly when it holds tiles.
pub open spec fn line_state_valid(l: int, n: int, color: Option<TileColor>) -> bool {
    0 <= l < 6 && 0 <= n <= l && (color is None <==> n == 0)
}

/// Each state of a line has a feature of its own below 81, and two states
/// share a feature only when they are the same.
pub proof fn lemma_line_features_distinct(
    l1: int,
    n1: int,
    c1: Option<TileColor>,
    l2: int,
    n2: int,
    c2: Option<TileColor>,
)
    requires
        line_state_valid(l1, n1, c1),
        line_state_valid(l2, n2, c2),
    ensures
        0 <= line_feature(l1, n1, c1) < 81,
        line_feature(l1, n1, c1) == line_feature(l2, n2, c2) ==> l1 == l2 && n1 == n2 && c1 == c2,
{
    if n1 > 0 {
        crate::tile_color::lemma_color_index_roundtrip(c1->0);
    }
    if n2 > 0 {
        crate::tile_color::lemma_color_index_roundtrip(c2->0);
    }
    if line_feature(l1, n1, c1) == line_feature(l2, n2, c2) {
        assert(l1 == l2);
        assert(n1 == n2);
        if n1 > 0 {
            assert(color_index(c1->0) == color_index(c2->0));
            crate::tile_color::lemma_color_index_roundtrip(c1->0);
            crate::tile_color::lemma_color_index_roundtrip(c2->0);
        }
    }
}


/// Law: every feature below 81 belongs to a state of a line, so that with
/// `lemma_line_features_distinct` the states of the lines (the floor line
/// among them) and the 81 features of a player are in one-to-one
/// correspondence.
pub proof fn lemma_line_features_onto(i: int)
    requires
        0 <= i < 81,
    ensures
        exists|l: int, n: int, c: Option<TileColor>| line_state_valid(l, n, c) && #[trigger] line_feature(l, n, c) == i,
{
    let l: int = if i < 1 {
        0
    } else if i < 7 {
        1
    } else if i < 18 {
        2
    } else if i < 34 {
        3
    } else if i < 55 {
        4
    } else {
        5
    };
    let v = i - pattern_line_offset(l);
    let st = crate::encoding::pattern_lines::lemma_line_of_state(v, l);
    let n = st.0 as int;
    let c = st.1;
    if n > 0 {
        crate::tile_color::lemma_color_index_roundtrip(c->0);
    }
    assert(line_state_valid(l, n, c));
    assert(line_feature(l, n, c) == i);
}

/// The change that switches on the feature of a pattern line.
pub fn add_pattern_line_encoding(
    pattern_line_index: usize,
    num_tiles: usize,
    color: Option<TileColor>,
    player_index: usize,
) -> (r: InputChange)
    requires
        pattern_line_index < 6,
        num_tiles == 0 || color is Some,
        line_feature(pattern_line_index as int, num_tiles as int, color) + FACTORY_ENCODING_SIZE + player_index
            * PLAYER_PATTERN_LINE_ENCODING_SIZE <= usize::MAX,
    ensures
        r == InputChange::On(
            (line_feature(pattern_line_index as int, num_tiles as int, color) + FACTORY_ENCODING_SIZE + player_index
                * PLAYER_PATTERN_LINE_ENCODING_SIZE) as usize,
        ),
{
    InputChange::On(get_pattern_line_index(pattern_line_index, num_tiles, color, player_index))
}

/// The change that switches off the feature of a pattern line.
pub fn remove_pattern_line_encoding(
    pattern_line_index: usize,
    num_tiles: usize,
    color: Option<TileColor>,
    player_index: usize,
) -> (r: InputChange)
    requires
        pattern_line_index < 6,
        num_tiles == 0 || color is Some,
        line_feature(pattern_line_index as int, num_tiles as int, color) + FACTORY_ENCODING_SIZE + player_index
            * PLAYER_PATTERN_LINE_ENCODING_SIZE <= usize::MAX,
    ensures
        r == InputChange::Off(
            (line_feature(pattern_line_index as int, num_tiles as int, color) + FACTORY_ENCODING_SIZE + player_index
                * PLAYER_PATTERN_LINE_ENCODING_SIZE) as usize,
        ),
{
    InputChange::Off(get_pattern_line_index(pattern_line_index, num_tiles, color, player_index))
}

} // verus!
