//! A wall is a 5x5 grid stored in the low 30 bits of a `u32`: row `r`, column
//! `c` is bit `6 * r + c`; bit `6 * r + 5` of each row is always free.
use vstd::prelude::*;
use crate::bits::{bit, popcount, count_below, count_ones, lemma_count_below_ext, lemma_popcount_zero};
use crate::tile_color::NUM_TILE_COLORS;

verus! {

/// All bits that stand for a field of the wall.
pub const VALID_WALL_TILES: u32 = 0x1F7D_F7DF;

/// The five fields of the first row.
pub const ROW_MASK: u32 = 0b11111;

/// The fields of the wall whose background has color `c`: in row `r` the field
/// in column `(r + c) % 5`.
pub open spec fn color_mask(c: int) -> u32 {
    if c == 0 {
        0x1020_4081u32
    } else if c == 1 {
        0x0140_8102u32
    } else if c == 2 {
        0x0205_0204u32
    } else if c == 3 {
        0x0408_1408u32
    } else {
        0x0810_2050u32
    }
}

/// The bit of the field of color `color` in row `row`.
pub open spec fn wall_pos(row: int, color: int) -> int {
    6 * row + (row + color) % 5
}

/// The five fields of row `row`.
pub open spec fn row_mask(row: int) -> u32 {
    (ROW_MASK << ((6 * row) as u32)) as u32
}

/// Whether the field at bit `pos` is one of the 25 fields of a wall.
pub open spec fn valid_pos(pos: int) -> bool {
    0 <= pos < 30 && pos % 6 < 5
}

/// The background mask of color `color` (a number below 5).
pub fn wall_color_mask(color: usize) -> (m: u32)
    requires
        color < NUM_TILE_COLORS,
    ensures
        m == color_mask(color as int),
{
    match color {
        0 => 0x1020_4081u32,
        1 => 0x0140_8102u32,
        2 => 0x0205_0204u32,
        3 => 0x0408_1408u32,
        _ => 0x0810_2050u32,
    }
}

proof fn lemma_row_color_field_bits(r: u32, c: u32)
    by (bit_vector)
    requires
        r < 5,
        c < 5,
    ensures
        ((31u32 << ((6 * r) as u32)) & (if c == 0 {
            0x1020_4081u32
        } else if c == 1 {
            0x0140_8102u32
        } else if c == 2 {
            0x0205_0204u32
        } else if c == 3 {
            0x0408_1408u32
        } else {
            0x0810_2050u32
        })) == (1u32 << ((6 * r + (r + c) % 5) as u32)),
{
}

/// In each row a color has exactly one field: row mask and color mask meet in
/// the single bit `wall_pos(row, color)`.
pub proof fn lemma_row_color_field(row: u32, color: u32)
    requires
        row < 5,
        color < 5,
    ensures
        row_mask(row as int) & color_mask(color as int) == (1u32 << (wall_pos(row as int, color as int) as u32)),
        valid_pos(wall_pos(row as int, color as int)),
{
    lemma_row_color_field_bits(row, color);
}

/// The single bit of field `pos`.
pub fn field_at(row: usize, col: usize) -> (b: u32)
    requires
        row * 6 + col < 32,
    ensures
        b == (1u32 << ((row * 6 + col) as u32)),
{
    1u32 << ((row * 6 + col) as u32)
}

/// The five bits of row `row_index`.
pub fn get_row_mask(row_index: usize) -> (m: u32)
    requires
        row_index * 6 < 32,
    ensures
        m == row_mask(row_index as int),
{
    ROW_MASK << ((row_index * 6) as u32)
}

// ---------------------------------------------------------------------------
// Neighbours of a newly placed tile

/// The five bits of the row that holds field `pos`, as a number below 32.
pub open spec fn row_key(occupancy: u32, pos: int) -> u32 {
    (occupancy >> ((pos / 6 * 6) as u32)) & ROW_MASK
}

/// Length of the run of set bits of the 5-bit row `key` that starts at column
/// `c` and goes right (towards higher columns).
pub open spec fn run_right(key: u32, c: int) -> nat
    decreases 5 - c,
{
    if 0 <= c < 5 && bit(key, c) {
        1 + run_right(key, c + 1)
    } else {
        0
    }
}

/// Length of the run of set bits of the 5-bit row `key` that starts at column
/// `c` and goes left.
pub open spec fn run_left(key: u32, c: int) -> nat
    decreases c + 1,
{
    if 0 <= c < 5 && bit(key, c) {
        1 + run_left(key, c - 1)
    } else {
        0
    }
}

/// The number of tiles in the horizontal line through column `c` once a tile
/// stands at `c`; 0 where the whole row is already set.
pub open spec fn row_neighbors(key: u32, c: int) -> nat {
    if key == 31 {
        0
    } else {
        let k = key | (1u32 << (c as u32));
        (run_right(k, c) + run_left(k, c) - 1) as nat
    }
}

/// Length of the run of set bits from `p` upwards in steps of 6 (one column of
/// the wall, from row `p / 6` downwards on the board).
pub open spec fn run_up(x: u32, p: int) -> nat
    decreases 38 - p,
{
    if 0 <= p < 32 && bit(x, p) {
        1 + run_up(x, p + 6)
    } else {
        0
    }
}

/// Length of the run of set bits from `p` downwards in steps of 6.
pub open spec fn run_down(x: u32, p: int) -> nat
    decreases p + 6,
{
    if 0 <= p < 32 && bit(x, p) {
        1 + run_down(x, p - 6)
    } else {
        0
    }
}

/// The number of tiles in the vertical line through `pos` once a tile stands
/// at `pos`.
pub open spec fn column_neighbors(occupancy: u32, pos: int) -> nat {
    let x = occupancy | (1u32 << (pos as u32));
    (run_up(x, pos) + run_down(x, pos) - 1) as nat
}

/// The points that a tile placed at `pos` scores: the lengths of its
/// horizontal and vertical lines, or the one line's length where the other
/// holds the tile alone.
pub open spec fn placed_tile_score(occupancy: u32, pos: int) -> int {
    let h = row_neighbors(row_key(occupancy, pos), pos % 6);
    let v = column_neighbors(occupancy, pos);
    if h > 1 && v > 1 {
        (h + v) as int
    } else {
        h + v - 1
    }
}

pub(crate) proof fn lemma_or_bit(x: u32, c: u32, p: u32)
    requires
        c < 32,
        p < 32,
    ensures
        bit(x | (1u32 << c), p as int) == (p == c || bit(x, p as int)),
{
    assert((((x | (1u32 << c)) >> p) & 1u32 == 1u32) == (p == c || ((x >> p) & 1u32) == 1u32))
        by (bit_vector)
        requires
            c < 32,
            p < 32,
    ;
}

proof fn lemma_run_right_pos(k: u32, c: int)
    requires
        0 <= c < 5,
        bit(k, c),
    ensures
        run_right(k, c) >= 1,
        run_right(k, c) <= 5 - c,
    decreases 5 - c,
{
    reveal_with_fuel(run_right, 2);
    if c + 1 < 5 && bit(k, c + 1) {
        lemma_run_right_pos(k, c + 1);
    }
}

proof fn lemma_run_left_pos(k: u32, c: int)
    requires
        0 <= c < 5,
        bit(k, c),
    ensures
        run_left(k, c) >= 1,
        run_left(k, c) <= c + 1,
    decreases c + 1,
{
    reveal_with_fuel(run_left, 2);
    if c - 1 >= 0 && bit(k, c - 1) {
        lemma_run_left_pos(k, c - 1);
    }
}


/// Length of the run of set bits of the word `y` from bit `p` upwards.
pub open spec fn word_run_up(y: u32, p: int) -> nat
    decreases 32 - p,
{
    if 0 <= p < 32 && bit(y, p) {
        1 + word_run_up(y, p + 1)
    } else {
        0
    }
}

/// Length of the run of set bits of the word `y` from bit `p` downwards.
pub open spec fn word_run_down(y: u32, p: int) -> nat
    decreases p + 1,
{
    if 0 <= p < 32 && bit(y, p) {
        1 + word_run_down(y, p - 1)
    } else {
        0
    }
}

proof fn lemma_row_key_bits(x: u32, q: u32, c: u32, j: u32)
    by (bit_vector)
    requires
        x & !0x1F7D_F7DFu32 == 0,
        q == 0 || q == 6 || q == 12 || q == 18 || q == 24,
        c < 5,
        j < 5,
    ensures
        (((((x >> q) & 31u32) | (1u32 << c)) >> j) & 1u32 == 1u32) == (((x | (1u32 << (q + c))) >> (q + j)) & 1u32
            == 1u32),
        ((x | (1u32 << (q + c))) >> (q + 5)) & 1u32 == 0u32,
        q >= 6 ==> ((x | (1u32 << (q + c))) >> ((q - 1) as u32)) & 1u32 == 0u32,
        ((x >> (q + c)) & 1u32 == 0u32) ==> ((x >> q) & 31u32) != 31u32,
{
}

proof fn lemma_runs_match(x: u32, q: int, c: int, j: int)
    requires
        x & !VALID_WALL_TILES == 0,
        q == 0 || q == 6 || q == 12 || q == 18 || q == 24,
        0 <= c < 5,
        -1 <= j <= 5,
    ensures
        j >= 0 ==> run_right(((x >> (q as u32)) & 31u32) | (1u32 << (c as u32)), j) == word_run_up(
            x | (1u32 << ((q + c) as u32)),
            q + j,
        ),
        j < 5 ==> run_left(((x >> (q as u32)) & 31u32) | (1u32 << (c as u32)), j) == word_run_down(
            x | (1u32 << ((q + c) as u32)),
            q + j,
        ),
    decreases 5 - j,
{
    let k = ((x >> (q as u32)) & 31u32) | (1u32 << (c as u32));
    let y = x | (1u32 << ((q + c) as u32));
    lemma_row_key_bits(x, q as u32, c as u32, 0);
    if 0 <= j < 5 {
        lemma_row_key_bits(x, q as u32, c as u32, j as u32);
        assert(bit(k, j) == bit(y, q + j));
        lemma_runs_match(x, q, c, j + 1);
    }
    if j == 5 {
        assert(!bit(y, q + 5));
    }
    if j < 5 {
        lemma_runs_left(x, q, c, j);
    }
}

proof fn lemma_runs_left(x: u32, q: int, c: int, j: int)
    requires
        x & !VALID_WALL_TILES == 0,
        q == 0 || q == 6 || q == 12 || q == 18 || q == 24,
        0 <= c < 5,
        -1 <= j < 5,
    ensures
        run_left(((x >> (q as u32)) & 31u32) | (1u32 << (c as u32)), j) == word_run_down(
            x | (1u32 << ((q + c) as u32)),
            q + j,
        ),
    decreases j + 1,
{
    let k = ((x >> (q as u32)) & 31u32) | (1u32 << (c as u32));
    let y = x | (1u32 << ((q + c) as u32));
    lemma_row_key_bits(x, q as u32, c as u32, 0);
    if j >= 0 {
        lemma_row_key_bits(x, q as u32, c as u32, j as u32);
        assert(bit(k, j) == bit(y, q + j));
        lemma_runs_left(x, q, c, j - 1);
    } else if q >= 6 {
        assert(!bit(y, q - 1));
    }
}

/// Law: on a wall that uses only its 25 fields, a tile placed on a free
/// field `pos` belongs to a horizontal line as long as the run of set bits
/// of the wall with that tile that contains `pos`; `count_row_neighbors`
/// gives that length.
pub proof fn lemma_row_neighbors_run(occupancy: u32, pos: int)
    requires
        occupancy & !VALID_WALL_TILES == 0,
        valid_pos(pos),
        !bit(occupancy, pos),
    ensures
        row_neighbors(row_key(occupancy, pos), pos % 6) == word_run_up(occupancy | (1u32 << (pos as u32)), pos)
            + word_run_down(occupancy | (1u32 << (pos as u32)), pos) - 1,
{
    let q = pos / 6 * 6;
    let c = pos % 6;
    assert(q == 0 || q == 6 || q == 12 || q == 18 || q == 24);
    assert(q + c == pos);
    let pu = pos as u32;
    let qu = q as u32;
    let cu = c as u32;
    assert(qu + cu == pu);
    assert(((occupancy >> pu) & 1u32) == 0u32) by (bit_vector)
        requires
            ((occupancy >> pu) & 1u32) != 1u32,
    ;
    lemma_row_key_bits(occupancy, qu, cu, 0);
    assert(row_key(occupancy, pos) == (occupancy >> qu) & 31u32);
    assert(row_key(occupancy, pos) != 31u32);
    lemma_runs_match(occupancy, q, c, c);
    lemma_runs_left(occupancy, q, c, c);
    assert(((q + c) as u32) == pu);
    let k = row_key(occupancy, pos) | (1u32 << cu);
    lemma_or_bit(row_key(occupancy, pos), cu, cu);
    lemma_run_right_pos(k, c);
    assert(row_neighbors(row_key(occupancy, pos), c) == (run_right(k, c) + run_left(k, c) - 1) as nat);
}

/// Counts the tiles of the horizontal line that a tile placed at `new_tile_pos`
/// would belong to, itself included; 0 where its row is already full.
pub fn count_row_neighbors(occupancy: u32, new_tile_pos: u8) -> (r: u32)
    requires
        valid_pos(new_tile_pos as int),
    ensures
        r == row_neighbors(row_key(occupancy, new_tile_pos as int), new_tile_pos as int % 6),
        r <= 5,
{
    let row_index: u8 = new_tile_pos / 6;
    let col: u8 = new_tile_pos % 6;
    let lookup_key: u32 = (occupancy >> ((row_index * 6) as u32)) & ROW_MASK;
    assert(lookup_key == row_key(occupancy, new_tile_pos as int));
    if lookup_key == 31 {
        return 0;
    }
    let k: u32 = lookup_key | (1u32 << (col as u32));
    proof {
        lemma_or_bit(lookup_key, col as u32, col as u32);
        lemma_run_right_pos(k, col as int);
        lemma_run_left_pos(k, col as int);
    }
    // walk right
    let mut right: u32 = 0;
    let mut c: u32 = col as u32;
    while c < 5 && (k >> c) & 1 == 1
        invariant
            col <= c <= 5,
            right == c - col,
            run_right(k, col as int) == right + run_right(k, c as int),
        decreases 5 - c,
    {
        right = right + 1;
        c = c + 1;
    }
    // walk left
    let mut left: u32 = 0;
    let mut d: u32 = col as u32 + 1;
    while d > 0 && (k >> (d - 1)) & 1 == 1
        invariant
            0 <= d <= col + 1,
            col < 5,
            left == col + 1 - d,
            run_left(k, col as int) == left + run_left(k, d - 1),
        decreases d,
    {
        left = left + 1;
        d = d - 1;
    }
    right + left - 1
}

proof fn lemma_run_up_bound(x: u32, p: int)
    ensures
        0 <= p <= 38 ==> run_up(x, p) * 6 <= 38 - p,
        p >= 0 ==> run_up(x, p) <= 6,
    decreases 38 - p,
{
    if 0 <= p < 32 && bit(x, p) {
        lemma_run_up_bound(x, p + 6);
    }
}

proof fn lemma_run_down_bound(x: u32, p: int)
    ensures
        p >= -6 ==> run_down(x, p) * 6 <= p + 6,
        p < 32 ==> run_down(x, p) <= 6,
    decreases p + 6,
{
    if 0 <= p < 32 && bit(x, p) {
        lemma_run_down_bound(x, p - 6);
    }
}

/// Counts the tiles of the vertical line that a tile placed at `new_tile_pos`
/// would belong to, itself included.
pub fn count_column_neighbors(occupancy: u32, new_tile_pos: u8) -> (r: u32)
    requires
        new_tile_pos < 32,
    ensures
        r == column_neighbors(occupancy, new_tile_pos as int),
        1 <= r <= 11,
{
    let x: u32 = occupancy | (1u32 << (new_tile_pos as u32));
    proof {
        lemma_or_bit(occupancy, new_tile_pos as u32, new_tile_pos as u32);
        lemma_run_up_bound(x, new_tile_pos as int + 6);
        lemma_run_down_bound(x, new_tile_pos as int - 6);
    }
    let mut up: u32 = 0;
    let mut p: u32 = new_tile_pos as u32;
    while p < 32 && (x >> p) & 1 == 1
        invariant
            new_tile_pos <= p <= 37,
            (p - new_tile_pos) % 6 == 0,
            up == (p - new_tile_pos) / 6,
            up <= 6,
            run_up(x, new_tile_pos as int) == up + run_up(x, p as int),
        decreases 38 - p,
    {
        up = up + 1;
        p = p + 6;
    }
    let mut down: u32 = 0;
    let mut q: u32 = new_tile_pos as u32 + 6;
    while q >= 6 && (x >> (q - 6)) & 1 == 1
        invariant
            0 <= q <= new_tile_pos + 6,
            new_tile_pos < 32,
            (new_tile_pos + 6 - q) % 6 == 0,
            down == (new_tile_pos + 6 - q) / 6,
            run_down(x, new_tile_pos as int) == down + run_down(x, q - 6),
        decreases q,
    {
        down = down + 1;
        q = q - 6;
    }
    proof {
        lemma_run_up_bound(x, new_tile_pos as int);
        lemma_run_down_bound(x, new_tile_pos as int);
    }
    up + down - 1
}

/// The points scored by a tile placed at `new_tile_pos`.
pub fn get_placed_tile_score(occupancy: u32, new_tile_pos: u8) -> (r: u32)
    requires
        valid_pos(new_tile_pos as int),
        row_key(occupancy, new_tile_pos as int) != 31,
    ensures
        r == placed_tile_score(occupancy, new_tile_pos as int),
        r <= 16,
{
    let col = count_column_neighbors(occupancy, new_tile_pos) - 1;
    let ghost k = row_key(occupancy, new_tile_pos as int);
    proof {
        let c = new_tile_pos as int % 6;
        lemma_or_bit(k, c as u32, c as u32);
        lemma_run_right_pos(k | (1u32 << (c as u32)), c);
        lemma_run_left_pos(k | (1u32 << (c as u32)), c);
    }
    let row = count_row_neighbors(occupancy, new_tile_pos) - 1;
    if col > 0 && row > 0 {
        col + row + 2
    } else {
        col + row + 1
    }
}

} // verus!

verus! {

// ---------------------------------------------------------------------------
// Complete rows, columns and colors

/// Whether five consecutive bits from `p` are set: a complete row where `p`
/// is the first field of a row.
pub open spec fn row_run(x: u32, p: int) -> bool {
    bit(x, p) && bit(x, p + 1) && bit(x, p + 2) && bit(x, p + 3) && bit(x, p + 4)
}

/// Whether the five bits `p, p + 6, ..., p + 24` are set: a complete column
/// where `p` is a field of the first row.
pub open spec fn column_run(x: u32, p: int) -> bool {
    bit(x, p) && bit(x, p + 6) && bit(x, p + 12) && bit(x, p + 18) && bit(x, p + 24)
}

/// Number of positions at which a complete row starts.
pub open spec fn num_row_runs(x: u32) -> nat {
    count_below(|p: int| row_run(x, p), 32)
}

/// Number of positions at which a complete column starts.
pub open spec fn num_column_runs(x: u32) -> nat {
    count_below(|p: int| column_run(x, p), 32)
}

/// Whether all five fields of color `c` are set.
pub open spec fn color_full(x: u32, c: int) -> bool {
    x & color_mask(c) == color_mask(c)
}

/// Number of colors whose five fields are all set.
pub open spec fn num_full_colors(x: u32) -> nat {
    count_below(|c: int| color_full(x, c), 5)
}

proof fn lemma_row_run_bits(x: u32, p: u32)
    by (bit_vector)
    requires
        p < 32,
    ensures
        ((((x & (x >> 1u32)) & ((x & (x >> 1u32)) >> 2u32)) & (((x & (x >> 1u32)) & ((x & (x
            >> 1u32)) >> 2u32)) >> 1u32)) >> p) & 1u32 == 1u32 <==> (p + 4 < 32 && (x >> p) & 1u32
            == 1u32 && (x >> (p + 1) as u32) & 1u32 == 1u32 && (x >> (p + 2) as u32) & 1u32 == 1u32
            && (x >> (p + 3) as u32) & 1u32 == 1u32 && (x >> (p + 4) as u32) & 1u32 == 1u32),
{
}

proof fn lemma_column_run_bits(x: u32, p: u32)
    by (bit_vector)
    requires
        p < 32,
    ensures
        ((((x & (x >> 6u32)) & ((x & (x >> 6u32)) >> 12u32)) & (((x & (x >> 6u32)) & ((x & (x
            >> 6u32)) >> 12u32)) >> 6u32)) >> p) & 1u32 == 1u32 <==> (p + 24 < 32 && (x >> p) & 1u32
            == 1u32 && (x >> (p + 6) as u32) & 1u32 == 1u32 && (x >> (p + 12) as u32) & 1u32
            == 1u32 && (x >> (p + 18) as u32) & 1u32 == 1u32 && (x >> (p + 24) as u32) & 1u32
            == 1u32),
{
}

proof fn lemma_rows_folded(x: u32, o: u32)
    requires
        o == ((x & (x >> 1u32)) & ((x & (x >> 1u32)) >> 2u32)) & (((x & (x >> 1u32)) & ((x & (x
            >> 1u32)) >> 2u32)) >> 1u32),
    ensures
        popcount(o) == num_row_runs(x),
{
    assert forall|p: int| 0 <= p < 32 implies #[trigger] bit(o, p) == row_run(x, p) by {
        lemma_row_run_bits(x, p as u32);
    }
    lemma_count_below_ext(|p: int| bit(o, p), |p: int| row_run(x, p), 32);
}

proof fn lemma_columns_folded(x: u32, o: u32)
    requires
        o == ((x & (x >> 6u32)) & ((x & (x >> 6u32)) >> 12u32)) & (((x & (x >> 6u32)) & ((x & (x
            >> 6u32)) >> 12u32)) >> 6u32),
    ensures
        popcount(o) == num_column_runs(x),
{
    assert forall|p: int| 0 <= p < 32 implies #[trigger] bit(o, p) == column_run(x, p) by {
        lemma_column_run_bits(x, p as u32);
    }
    lemma_count_below_ext(|p: int| bit(o, p), |p: int| column_run(x, p), 32);
}


/// Whether row `r` of wall `x` is complete.
pub open spec fn row_complete(x: u32, r: int) -> bool {
    x & row_mask(r) == row_mask(r)
}

proof fn lemma_row_run_at(x: u32, p: int)
    requires
        x & !VALID_WALL_TILES == 0,
        0 <= p < 32,
    ensures
        row_run(x, p) == (p % 6 == 0 && p < 30 && row_complete(x, p / 6)),
{
    let q = p as u32;
    assert((((x >> q) & 1u32) == 1u32 && (q + 1 < 32 && ((x >> (q + 1)) & 1u32) == 1u32) && (q + 2 < 32 && ((x
        >> (q + 2)) & 1u32) == 1u32) && (q + 3 < 32 && ((x >> (q + 3)) & 1u32) == 1u32) && (q + 4 < 32 && ((x >> (
    q + 4)) & 1u32) == 1u32)) == (q % 6 == 0 && q < 30 && x & (31u32 << q) == (31u32 << q))) by (bit_vector)
        requires
            x & !0x1F7D_F7DFu32 == 0,
            q < 32,
    ;
    if p % 6 == 0 && p < 30 {
        assert(6 * (p / 6) == p);
        assert(row_mask(p / 6) == (31u32 << q));
    }
}

/// Law: on a wall that uses only its 25 fields, the complete rows that the
/// bit runs count are exactly the rows whose five fields are all set; so
/// `check_complete_row_exists` tells whether some row is complete, and
/// `count_complete_rows` counts the complete rows.
pub proof fn lemma_complete_rows(x: u32)
    requires
        x & !VALID_WALL_TILES == 0,
    ensures
        num_row_runs(x) == count_below(|r: int| row_complete(x, r), 5),
        num_row_runs(x) > 0 <==> exists|r: int| 0 <= r < 5 && #[trigger] row_complete(x, r),
{
    assert forall|p: int| 0 <= p < 32 implies #[trigger] row_run(x, p) == (p % 6 == 0 && p < 30 && row_complete(
        x,
        p / 6,
    )) by {
        lemma_row_run_at(x, p);
    }
    let f = |p: int| row_run(x, p);
    let g = |r: int| row_complete(x, r);
    reveal_with_fuel(count_below, 33);
    assert(count_below(f, 32) == count_below(g, 5)) by {
        reveal_with_fuel(count_below, 33);
        assert(f(0) == g(0));
        assert(f(6) == g(1));
        assert(f(12) == g(2));
        assert(f(18) == g(3));
        assert(f(24) == g(4));
    }
    if exists|r: int| 0 <= r < 5 && #[trigger] row_complete(x, r) {
        let r = choose|r: int| 0 <= r < 5 && #[trigger] row_complete(x, r);
        crate::bits::lemma_count_below_pos(g, 5, r);
    }
    if count_below(g, 5) > 0 {
        if !g(0) && !g(1) && !g(2) && !g(3) && !g(4) {
            assert(count_below(g, 5) == 0);
        }
    }
}

/// Whether some row is complete.
pub fn check_complete_row_exists(occupancy: u32) -> (r: bool)
    ensures
        r == (num_row_runs(occupancy) > 0),
{
    let mut o = occupancy;
    o = o & (o >> 1);
    o = o & (o >> 2);
    o = o & (o >> 1);
    proof {
        lemma_rows_folded(occupancy, o);
    }
    proof {
        lemma_popcount_zero(o);
    }
    o > 0
}

/// Number of complete rows.
pub fn count_complete_rows(occupancy: u32) -> (r: u32)
    ensures
        r == num_row_runs(occupancy),
        r <= 32,
{
    let mut o = occupancy;
    o = o & (o >> 1);
    o = o & (o >> 2);
    o = o & (o >> 1);
    proof {
        lemma_rows_folded(occupancy, o);
    }
    count_ones(o)
}

/// Number of complete columns.
pub fn count_complete_columns(occupancy: u32) -> (r: u32)
    ensures
        r == num_column_runs(occupancy),
        r <= 32,
{
    let mut o = occupancy;
    o = o & (o >> 6);
    o = o & (o >> 12);
    o = o & (o >> 6);
    proof {
        lemma_columns_folded(occupancy, o);
    }
    count_ones(o)
}

/// Number of colors of which all five tiles stand on the wall.
pub fn count_full_colors(occupancy: u32) -> (r: u32)
    ensures
        r == num_full_colors(occupancy),
        r <= 5,
{
    let mut num_full_colors: u32 = 0;
    let mut color: usize = 0;
    while color < NUM_TILE_COLORS
        invariant
            color <= 5,
            num_full_colors == count_below(|c: int| color_full(occupancy, c), color as int),
            num_full_colors <= color,
        decreases 5 - color,
    {
        let color_mask = wall_color_mask(color);
        if occupancy & color_mask == color_mask {
            num_full_colors = num_full_colors + 1;
        }
        color = color + 1;
    }
    num_full_colors
}


/// A tile placed where its row is not yet full scores between 1 and 16
/// points.
pub proof fn lemma_placed_tile_score_bound(occupancy: u32, pos: int)
    requires
        valid_pos(pos),
        row_key(occupancy, pos) != 31,
    ensures
        1 <= placed_tile_score(occupancy, pos) <= 16,
{
    let k = row_key(occupancy, pos);
    let c = pos % 6;
    lemma_or_bit(k, c as u32, c as u32);
    lemma_run_right_pos(k | (1u32 << (c as u32)), c);
    lemma_run_left_pos(k | (1u32 << (c as u32)), c);
    let x = occupancy | (1u32 << (pos as u32));
    lemma_or_bit(occupancy, pos as u32, pos as u32);
    lemma_run_up_bound(x, pos + 6);
    lemma_run_down_bound(x, pos - 6);
    lemma_run_up_bound(x, pos);
    lemma_run_down_bound(x, pos);
    assert(run_up(x, pos) == 1 + run_up(x, pos + 6));
    assert(run_down(x, pos) == 1 + run_down(x, pos - 6));
}

} // verus!
