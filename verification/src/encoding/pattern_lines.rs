//! Feature indices of the pattern lines: the upper three lines in one index,
//! the lower two in another, each a mixed-radix number of the line states.
use vstd::prelude::*;
use crate::player::NUM_PLAYERS;
use crate::encoding::features::{InputChange, UPPER_PATTERN_LINES_START, LOWER_PATTERN_LINES_START, switch_changes,
    push_switch};
use crate::tile_color::{TileColor, NUM_TILE_COLORS, color_index};

verus! {

/// How many states the three upper lines can be in together.
pub const UPPER_PATTERN_LINES_ENCODING_SIZE: usize = 1056;

/// How many states the two lower lines can be in together.
pub const LOWER_PATTERN_LINES_ENCODING_SIZE: usize = 546;

/// The state of one pattern line: 0 when empty, else one of five colors for
/// each number of tiles.
pub open spec fn line_state(num_tiles: u8, color: Option<TileColor>) -> int {
    if num_tiles == 0 {
        0
    } else {
        1 + (num_tiles - 1) * 5 + color_index(color->0)
    }
}

/// Product of the first `i` radices.
pub open spec fn radix_product(states: Seq<usize>, i: int) -> int
    decreases i,
{
    if i <= 0 {
        1
    } else {
        radix_product(states, i - 1) * states[i - 1]
    }
}

/// The mixed-radix number of the states of lines `start .. start + i`, the
/// first line lowest.
pub open spec fn mixed_index(
    lines: [u8; 5],
    colors: [Option<TileColor>; 5],
    start: int,
    states: Seq<usize>,
    i: int,
) -> int
    decreases i,
{
    if i <= 0 {
        0
    } else {
        mixed_index(lines, colors, start, states, i - 1) + line_state(lines[start + i - 1], colors[start + i - 1])
            * radix_product(states, i - 1)
    }
}

/// Whether each line with tiles among lines `start .. start + count` has a color.
pub open spec fn colored_where_filled(lines: [u8; 5], colors: [Option<TileColor>; 5], start: int, count: int) -> bool {
    forall|i: int| start <= i < start + count ==> #[trigger] lines[i] == 0 || colors[i] is Some
}

fn base_index(num_tiles: u8, color: Option<TileColor>) -> (r: usize)
    requires
        num_tiles == 0 || color is Some,
    ensures
        r == line_state(num_tiles, color),
{
    if num_tiles == 0 {
        0
    } else {
        let c = match color {
            Some(c) => c.to_usize(),
            None => 0,
        };
        1 + ((num_tiles as usize - 1) * NUM_TILE_COLORS) + c
    }
}

proof fn lemma_mixed_mono(
    lines: [u8; 5],
    colors: [Option<TileColor>; 5],
    start: int,
    states: Seq<usize>,
    i: int,
    j: int,
)
    requires
        0 <= i <= j,
        forall|k: int| 0 <= k <= j ==> #[trigger] radix_product(states, k) >= 0,
    ensures
        0 <= mixed_index(lines, colors, start, states, i) <= mixed_index(lines, colors, start, states, j),
    decreases j,
{
    if j > i {
        lemma_mixed_mono(lines, colors, start, states, i, j - 1);
        assert(line_state(lines[start + j - 1], colors[start + j - 1]) >= 0);
        assert(line_state(lines[start + j - 1], colors[start + j - 1]) * radix_product(states, j - 1) >= 0)
            by (nonlinear_arith)
            requires
                line_state(lines[start + j - 1], colors[start + j - 1]) >= 0,
                radix_product(states, j - 1) >= 0,
        ;
    } else if i > 0 {
        lemma_mixed_mono(lines, colors, start, states, i - 1, i - 1);
        assert(line_state(lines[start + i - 1], colors[start + i - 1]) * radix_product(states, i - 1) >= 0)
            by (nonlinear_arith)
            requires
                line_state(lines[start + i - 1], colors[start + i - 1]) >= 0,
                radix_product(states, i - 1) >= 0,
        ;
    }
}

proof fn lemma_product_nonneg(states: Seq<usize>, i: int)
    ensures
        radix_product(states, i) >= 0,
    decreases i,
{
    if i > 0 {
        lemma_product_nonneg(states, i - 1);
        assert(radix_product(states, i - 1) * states[i - 1] >= 0) by (nonlinear_arith)
            requires
                radix_product(states, i - 1) >= 0,
                states[i - 1] >= 0,
        ;
    }
}

/// The mixed-radix index of the states of lines `start .. start + count`,
/// with radices `states`.
pub fn calculate_index(
    pattern_lines: [u8; 5],
    colors: [Option<TileColor>; 5],
    start: usize,
    count: usize,
    states: &[usize],
) -> (r: usize)
    requires
        start + count <= 5,
        count <= states@.len(),
        colored_where_filled(pattern_lines, colors, start as int, count as int),
        forall|i: int| 0 <= i <= count ==> #[trigger] radix_product(states@, i) <= usize::MAX,
        mixed_index(pattern_lines, colors, start as int, states@, count as int) <= usize::MAX,
    ensures
        r == mixed_index(pattern_lines, colors, start as int, states@, count as int),
{
    let mut index: usize = 0;
    let mut multiplier: usize = 1;
    let mut i: usize = 0;
    proof {
        assert forall|k: int| 0 <= k <= count implies #[trigger] radix_product(states@, k) >= 0 by {
            lemma_product_nonneg(states@, k);
        }
    }
    while i < count
        invariant
            i <= count,
            start + count <= 5,
            count <= states@.len(),
            colored_where_filled(pattern_lines, colors, start as int, count as int),
            forall|k: int| 0 <= k <= count ==> #[trigger] radix_product(states@, k) <= usize::MAX,
            forall|k: int| 0 <= k <= count ==> #[trigger] radix_product(states@, k) >= 0,
            mixed_index(pattern_lines, colors, start as int, states@, count as int) <= usize::MAX,
            index == mixed_index(pattern_lines, colors, start as int, states@, i as int),
            multiplier == radix_product(states@, i as int),
        decreases count - i,
    {
        assert(pattern_lines[start + i] == 0 || colors[start + i] is Some);
        let idx = base_index(pattern_lines[start + i], colors[start + i]);
        proof {
            lemma_mixed_mono(pattern_lines, colors, start as int, states@, i + 1, count as int);
            assert(radix_product(states@, i + 1) == multiplier * states@[i as int]);
        }
        index = index + idx * multiplier;
        multiplier = multiplier * states[i];
        i = i + 1;
    }
    index
}

/// The index of the upper three lines: radices 6, 11 and 16.
pub fn calculate_upper_index(pattern_lines: [u8; 5], colors: [Option<TileColor>; 5]) -> (r: usize)
    requires
        colored_where_filled(pattern_lines, colors, 0, 3),
    ensures
        r == line_state(pattern_lines[0], colors[0]) + 6 * line_state(pattern_lines[1], colors[1]) + 66
            * line_state(pattern_lines[2], colors[2]),
{
    let states: [usize; 3] = [6, 11, 16];
    let ghost st = states@;
    proof {
        assert(st =~= seq![6usize, 11usize, 16usize]);
        assert(radix_product(st, 0) == 1);
        assert(radix_product(st, 1) == 6);
        assert(radix_product(st, 2) == 66);
        assert(radix_product(st, 3) == 1056);
        assert forall|i: int| 0 <= i <= 3 implies #[trigger] radix_product(st, i) <= usize::MAX by {
            if i == 0 {
            } else if i == 1 {
            } else if i == 2 {
            } else {
            }
        }
        let s0 = line_state(pattern_lines[0], colors[0]);
        let s1 = line_state(pattern_lines[1], colors[1]);
        let s2 = line_state(pattern_lines[2], colors[2]);
        assert(0 <= s0 <= 1275 && 0 <= s1 <= 1275 && 0 <= s2 <= 1275);
        assert(mixed_index(pattern_lines, colors, 0, st, 0) == 0);
        assert(mixed_index(pattern_lines, colors, 0, st, 1) == s0);
        assert(mixed_index(pattern_lines, colors, 0, st, 2) == s0 + s1 * 6);
        assert(mixed_index(pattern_lines, colors, 0, st, 3) == s0 + s1 * 6 + s2 * 66);
    }
    calculate_index(pattern_lines, colors, 0, 3, &states)
}

/// The index of the lower two lines: radices 21 and 26.
pub fn calculate_lower_index(pattern_lines: [u8; 5], colors: [Option<TileColor>; 5]) -> (r: usize)
    requires
        colored_where_filled(pattern_lines, colors, 3, 2),
    ensures
        r == line_state(pattern_lines[3], colors[3]) + 21 * line_state(pattern_lines[4], colors[4]),
{
    let states: [usize; 2] = [21, 26];
    let ghost st = states@;
    proof {
        assert(st =~= seq![21usize, 26usize]);
        assert(radix_product(st, 0) == 1);
        assert(radix_product(st, 1) == 21);
        assert(radix_product(st, 2) == 546);
        assert forall|i: int| 0 <= i <= 2 implies #[trigger] radix_product(st, i) <= usize::MAX by {
            if i == 0 {
            } else if i == 1 {
            } else {
            }
        }
        let s3 = line_state(pattern_lines[3], colors[3]);
        let s4 = line_state(pattern_lines[4], colors[4]);
        assert(0 <= s3 <= 1275 && 0 <= s4 <= 1275);
        assert(mixed_index(pattern_lines, colors, 3, st, 0) == 0);
        assert(mixed_index(pattern_lines, colors, 3, st, 1) == s3);
        assert(mixed_index(pattern_lines, colors, 3, st, 2) == s3 + s4 * 21);
    }
    calculate_index(pattern_lines, colors, 3, 2, &states)
}


/// Whether line `i` (holding at most `i + 1` tiles) is in a state of the
/// game: it has a color exactly when it holds tiles.
pub open spec fn line_valid(lines: [u8; 5], colors: [Option<TileColor>; 5], i: int) -> bool {
    lines[i] <= i + 1 && (colors[i] is None <==> lines[i] == 0)
}

proof fn lemma_line_state_distinct(n1: u8, c1: Option<TileColor>, n2: u8, c2: Option<TileColor>, cap: int)
    requires
        n1 <= cap,
        n2 <= cap,
        c1 is None <==> n1 == 0,
        c2 is None <==> n2 == 0,
    ensures
        0 <= line_state(n1, c1) <= cap * 5,
        line_state(n1, c1) == line_state(n2, c2) ==> n1 == n2 && c1 == c2,
{
    if n1 > 0 {
        crate::tile_color::lemma_color_index_roundtrip(c1->0);
    }
    if n2 > 0 {
        crate::tile_color::lemma_color_index_roundtrip(c2->0);
    }
}

/// The upper index of states of the game lies below 1056, and two states
/// whose upper three lines differ have different upper indices.
pub proof fn lemma_upper_index_distinct(
    l1: [u8; 5],
    c1: [Option<TileColor>; 5],
    l2: [u8; 5],
    c2: [Option<TileColor>; 5],
)
    requires
        line_valid(l1, c1, 0) && line_valid(l1, c1, 1) && line_valid(l1, c1, 2),
        line_valid(l2, c2, 0) && line_valid(l2, c2, 1) && line_valid(l2, c2, 2),
    ensures
        line_state(l1[0], c1[0]) + 6 * line_state(l1[1], c1[1]) + 66 * line_state(l1[2], c1[2]) < 1056,
        line_state(l1[0], c1[0]) + 6 * line_state(l1[1], c1[1]) + 66 * line_state(l1[2], c1[2]) == line_state(
            l2[0],
            c2[0],
        ) + 6 * line_state(l2[1], c2[1]) + 66 * line_state(l2[2], c2[2]) ==> l1[0] == l2[0] && l1[1] == l2[1]
            && l1[2] == l2[2] && c1[0] == c2[0] && c1[1] == c2[1] && c1[2] == c2[2],
{
    lemma_line_state_distinct(l1[0], c1[0], l2[0], c2[0], 1);
    lemma_line_state_distinct(l1[1], c1[1], l2[1], c2[1], 2);
    lemma_line_state_distinct(l1[2], c1[2], l2[2], c2[2], 3);
}

/// The lower index of states of the game lies below 546, and two states
/// whose lower two lines differ have different lower indices.
pub proof fn lemma_lower_index_distinct(
    l1: [u8; 5],
    c1: [Option<TileColor>; 5],
    l2: [u8; 5],
    c2: [Option<TileColor>; 5],
)
    requires
        line_valid(l1, c1, 3) && line_valid(l1, c1, 4),
        line_valid(l2, c2, 3) && line_valid(l2, c2, 4),
    ensures
        line_state(l1[3], c1[3]) + 21 * line_state(l1[4], c1[4]) < 546,
        line_state(l1[3], c1[3]) + 21 * line_state(l1[4], c1[4]) == line_state(l2[3], c2[3]) + 21 * line_state(
            l2[4],
            c2[4],
        ) ==> l1[3] == l2[3] && l1[4] == l2[4] && c1[3] == c2[3] && c1[4] == c2[4],
{
    lemma_line_state_distinct(l1[3], c1[3], l2[3], c2[3], 4);
    lemma_line_state_distinct(l1[4], c1[4], l2[4], c2[4], 5);
}


/// The state of a line that has state number `v`, for a line of at most
/// `cap` tiles.
pub proof fn lemma_line_of_state(v: int, cap: int) -> (r: (u8, Option<TileColor>))
    requires
        0 <= cap <= 5,
        0 <= v <= cap * 5,
    ensures
        r.0 <= cap,
        r.1 is None <==> r.0 == 0,
        line_state(r.0, r.1) == v,
{
    if v == 0 {
        (0u8, None)
    } else {
        let c = (v - 1) % 5;
        crate::tile_color::lemma_color_of_index_roundtrip(c);
        (((v - 1) / 5 + 1) as u8, Some(crate::tile_color::color_of_index(c)))
    }
}

/// The upper index of the three upper lines.
pub open spec fn upper_index_value(lines: [u8; 5], colors: [Option<TileColor>; 5]) -> int {
    line_state(lines[0], colors[0]) + 6 * line_state(lines[1], colors[1]) + 66 * line_state(lines[2], colors[2])
}

/// The lower index of the two lower lines.
pub open spec fn lower_index_value(lines: [u8; 5], colors: [Option<TileColor>; 5]) -> int {
    line_state(lines[3], colors[3]) + 21 * line_state(lines[4], colors[4])
}

/// Law: every upper index below 1056 belongs to a state of the three upper
/// lines, so that with `lemma_upper_index_distinct` the states of the upper
/// lines and the indices below 1056 are in one-to-one correspondence.
pub proof fn lemma_upper_index_onto(i: int)
    requires
        0 <= i < 1056,
    ensures
        exists|lines: [u8; 5], colors: [Option<TileColor>; 5]|
            line_valid(lines, colors, 0) && line_valid(lines, colors, 1) && line_valid(lines, colors, 2)
                && #[trigger] upper_index_value(lines, colors) == i,
{
    let v0 = i % 6;
    let v1 = (i / 6) % 11;
    let v2 = i / 66;
    assert(i == v0 + 6 * v1 + 66 * v2) by (nonlinear_arith)
        requires
            v0 == i % 6,
            v1 == (i / 6) % 11,
            v2 == i / 66,
            0 <= i,
    ;
    let s0 = lemma_line_of_state(v0, 1);
    let s1 = lemma_line_of_state(v1, 2);
    let s2 = lemma_line_of_state(v2, 3);
    let lines: [u8; 5] = [s0.0, s1.0, s2.0, 0u8, 0u8];
    let colors: [Option<TileColor>; 5] = [s0.1, s1.1, s2.1, None, None];
    assert(line_valid(lines, colors, 0) && line_valid(lines, colors, 1) && line_valid(lines, colors, 2));
    assert(upper_index_value(lines, colors) == i);
}

/// Law: every lower index below 546 belongs to a state of the two lower
/// lines, so that with `lemma_lower_index_distinct` the states of the lower
/// lines and the indices below 546 are in one-to-one correspondence.
pub proof fn lemma_lower_index_onto(i: int)
    requires
        0 <= i < 546,
    ensures
        exists|lines: [u8; 5], colors: [Option<TileColor>; 5]|
            line_valid(lines, colors, 3) && line_valid(lines, colors, 4) && #[trigger] lower_index_value(lines, colors)
                == i,
{
    let v3 = i % 21;
    let v4 = i / 21;
    assert(i == v3 + 21 * v4) by (nonlinear_arith)
        requires
            v3 == i % 21,
            v4 == i / 21,
            0 <= i,
    ;
    let s3 = lemma_line_of_state(v3, 4);
    let s4 = lemma_line_of_state(v4, 5);
    let lines: [u8; 5] = [0u8, 0u8, 0u8, s3.0, s4.0];
    let colors: [Option<TileColor>; 5] = [None, None, None, s3.1, s4.1];
    assert(line_valid(lines, colors, 3) && line_valid(lines, colors, 4));
    assert(lower_index_value(lines, colors) == i);
}

/// The feature of the upper pattern lines of each player.
#[derive(Clone)]
pub struct UpperPatternLinesEncoding {
    pub index: [usize; NUM_PLAYERS],
}

/// The feature of the lower pattern lines of each player.
#[derive(Clone)]
pub struct LowerPatternLinesEncoding {
    pub index: [usize; NUM_PLAYERS],
}

/// The input of the upper pattern lines of player `p`.
pub open spec fn upper_lines_input(lines: [u8; 5], colors: [Option<TileColor>; 5], p: int) -> usize {
    ((line_state(lines[0], colors[0]) + 6 * line_state(lines[1], colors[1]) + 66 * line_state(lines[2], colors[2])) * 2
        + p + UPPER_PATTERN_LINES_START) as usize
}

/// The input of the lower pattern lines of player `p`.
pub open spec fn lower_lines_input(lines: [u8; 5], colors: [Option<TileColor>; 5], p: int) -> usize {
    ((line_state(lines[3], colors[3]) + 21 * line_state(lines[4], colors[4])) * 2 + p + LOWER_PATTERN_LINES_START)
        as usize
}

proof fn lemma_line_state_bound(n: u8, c: Option<TileColor>, cap: int)
    requires
        n <= cap,
        n == 0 || c is Some,
    ensures
        0 <= line_state(n, c) <= 5 * cap,
{
    if n > 0 {
        crate::tile_color::lemma_color_index_roundtrip(c->0);
    }
}

impl UpperPatternLinesEncoding {
    /// The inputs of both players for empty pattern lines, and the changes
    /// that switch them on.
    pub fn initialize() -> (r: (Self, Vec<InputChange>))
        ensures
            r.0.index@ == seq![UPPER_PATTERN_LINES_START, (UPPER_PATTERN_LINES_START + 1) as usize],
            r.1@ == seq![InputChange::On(UPPER_PATTERN_LINES_START), InputChange::On((UPPER_PATTERN_LINES_START + 1) as usize)],
    {
        let mut changes: Vec<InputChange> = Vec::new();
        changes.push(InputChange::On(UPPER_PATTERN_LINES_START));
        changes.push(InputChange::On(UPPER_PATTERN_LINES_START + 1));
        let r = UpperPatternLinesEncoding { index: [UPPER_PATTERN_LINES_START, UPPER_PATTERN_LINES_START + 1] };
        assert(r.index@ =~= seq![UPPER_PATTERN_LINES_START, (UPPER_PATTERN_LINES_START + 1) as usize]);
        assert(changes@ =~= seq![InputChange::On(UPPER_PATTERN_LINES_START), InputChange::On((UPPER_PATTERN_LINES_START + 1) as usize)]);
        (r, changes)
    }

    /// Records the upper pattern lines of player `player_index`, and returns
    /// the changes that switch their input.
    pub fn set(&mut self, pattern_lines: [u8; 5], colors: [Option<TileColor>; 5], player_index: usize) -> (r: Vec<
        InputChange,
    >)
        requires
            player_index < 2,
            colored_where_filled(pattern_lines, colors, 0, 3),
            pattern_lines[0] <= 1,
            pattern_lines[1] <= 2,
            pattern_lines[2] <= 3,
        ensures
            final(self).index@ == old(self).index@.update(
                player_index as int,
                upper_lines_input(pattern_lines, colors, player_index as int),
            ),
            r@ == switch_changes(old(self).index[player_index as int], upper_lines_input(pattern_lines, colors, player_index as int)),
    {
        proof {
            assert(pattern_lines[0] == 0 || colors[0] is Some);
            assert(pattern_lines[1] == 0 || colors[1] is Some);
            assert(pattern_lines[2] == 0 || colors[2] is Some);
            lemma_line_state_bound(pattern_lines[0], colors[0], 1);
            lemma_line_state_bound(pattern_lines[1], colors[1], 2);
            lemma_line_state_bound(pattern_lines[2], colors[2], 3);
        }
        let index = calculate_upper_index(pattern_lines, colors) * NUM_PLAYERS + player_index + UPPER_PATTERN_LINES_START;
        let mut changes: Vec<InputChange> = Vec::new();
        push_switch(&mut changes, self.index[player_index], index);
        self.index[player_index] = index;
        changes
    }
}

impl LowerPatternLinesEncoding {
    /// The inputs of both players for empty pattern lines, and the changes
    /// that switch them on.
    pub fn initialize() -> (r: (Self, Vec<InputChange>))
        ensures
            r.0.index@ == seq![LOWER_PATTERN_LINES_START, (LOWER_PATTERN_LINES_START + 1) as usize],
            r.1@ == seq![InputChange::On(LOWER_PATTERN_LINES_START), InputChange::On((LOWER_PATTERN_LINES_START + 1) as usize)],
    {
        let mut changes: Vec<InputChange> = Vec::new();
        changes.push(InputChange::On(LOWER_PATTERN_LINES_START));
        changes.push(InputChange::On(LOWER_PATTERN_LINES_START + 1));
        let r = LowerPatternLinesEncoding { index: [LOWER_PATTERN_LINES_START, LOWER_PATTERN_LINES_START + 1] };
        assert(r.index@ =~= seq![LOWER_PATTERN_LINES_START, (LOWER_PATTERN_LINES_START + 1) as usize]);
        assert(changes@ =~= seq![InputChange::On(LOWER_PATTERN_LINES_START), InputChange::On((LOWER_PATTERN_LINES_START + 1) as usize)]);
        (r, changes)
    }

    /// Records the lower pattern lines of player `player_index`, and returns
    /// the changes that switch their input.
    pub fn set(&mut self, pattern_lines: [u8; 5], colors: [Option<TileColor>; 5], player_index: usize) -> (r: Vec<
        InputChange,
    >)
        requires
            player_index < 2,
            colored_where_filled(pattern_lines, colors, 3, 2),
            pattern_lines[3] <= 4,
            pattern_lines[4] <= 5,
        ensures
            final(self).index@ == old(self).index@.update(
                player_index as int,
                lower_lines_input(pattern_lines, colors, player_index as int),
            ),
            r@ == switch_changes(old(self).index[player_index as int], lower_lines_input(pattern_lines, colors, player_index as int)),
    {
        proof {
            assert(pattern_lines[3] == 0 || colors[3] is Some);
            assert(pattern_lines[4] == 0 || colors[4] is Some);
            lemma_line_state_bound(pattern_lines[3], colors[3], 4);
            lemma_line_state_bound(pattern_lines[4], colors[4], 5);
        }
        let index = calculate_lower_index(pattern_lines, colors) * NUM_PLAYERS + player_index + LOWER_PATTERN_LINES_START;
        let mut changes: Vec<InputChange> = Vec::new();
        push_switch(&mut changes, self.index[player_index], index);
        self.index[player_index] = index;
        changes
    }
}

} // verus!
