//! What a client is shown of a player's board: the occupied wall fields with
//! their colors and the filled pattern lines, as plain entries in reading
//! order.
use vstd::prelude::*;
use crate::tile_color::{TileColor, color_of_index};
use crate::wall::{color_mask, field_at, wall_color_mask};
use crate::game_state::{floor_line_penalty, floor_penalty_at};

verus! {

/// The bit of wall field (`row`, `col`).
pub open spec fn field_bit(row: int, col: int) -> u32 {
    1u32 << ((row * 6 + col) as u32)
}

/// The color of wall field (`row`, `col`) among the boards `wall[c..]`, one
/// board per color: the first whose board holds the field, if any.
pub open spec fn field_color_from(wall: [u32; 5], row: int, col: int, c: int) -> Option<TileColor>
    decreases 5 - c,
{
    if c >= 5 {
        None
    } else if wall[c] & field_bit(row, col) > 0 {
        Some(color_of_index(c))
    } else {
        field_color_from(wall, row, col, c + 1)
    }
}

/// The shown color of wall field (`row`, `col`).
pub open spec fn field_color(wall: [u32; 5], row: int, col: int) -> Option<TileColor> {
    field_color_from(wall, row, col, 0)
}

/// The entries (row, column, color) of the occupied fields of row `row` left
/// of column `col`.
pub open spec fn row_tiles(wall: [u32; 5], row: int, col: int) -> Seq<(u8, u8, TileColor)>
    decreases col,
{
    if col <= 0 {
        Seq::empty()
    } else {
        row_tiles(wall, row, col - 1) + match field_color(wall, row, col - 1) {
            Some(c) => seq![(row as u8, (col - 1) as u8, c)],
            None => Seq::empty(),
        }
    }
}

/// The entries of the occupied fields of the rows above `row`.
pub open spec fn rows_tiles(wall: [u32; 5], row: int) -> Seq<(u8, u8, TileColor)>
    decreases row,
{
    if row <= 0 {
        Seq::empty()
    } else {
        rows_tiles(wall, row - 1) + row_tiles(wall, row - 1, 5)
    }
}

/// The occupied fields of a wall given as one board per color, row by row
/// and left to right, each with the color of the first board that holds it.
pub fn wall_tiles(wall: &[u32; 5]) -> (r: Vec<(u8, u8, TileColor)>)
    ensures
        r@ == rows_tiles(*wall, 5),
{
    let mut tiles: Vec<(u8, u8, TileColor)> = Vec::new();
    let mut row: usize = 0;
    while row < 5
        invariant
            row <= 5,
            tiles@ == rows_tiles(*wall, row as int),
        decreases 5 - row,
    {
        let ghost above = tiles@;
        let mut col: usize = 0;
        while col < 5
            invariant
                row < 5,
                col <= 5,
                tiles@ == above + row_tiles(*wall, row as int, col as int),
            decreases 5 - col,
        {
            let field = field_at(row, col);
            let mut c: usize = 0;
            let mut found: Option<TileColor> = None;
            while c < 5
                invariant_except_break
                    c <= 5,
                    found is None,
                    field_color(*wall, row as int, col as int) == field_color_from(
                        *wall,
                        row as int,
                        col as int,
                        c as int,
                    ),
                invariant
                    field == field_bit(row as int, col as int),
                ensures
                    found == field_color(*wall, row as int, col as int),
                decreases 5 - c,
            {
                if wall[c] & field > 0 {
                    assert(field_color_from(*wall, row as int, col as int, c as int) == Some(
                        color_of_index(c as int),
                    ));
                    found = Some(TileColor::from_usize(c));
                    break;
                }
                c = c + 1;
            }
            match found {
                Some(color) => {
                    tiles.push((row as u8, col as u8, color));
                },
                None => {},
            }
            col = col + 1;
            assert(tiles@ =~= above + row_tiles(*wall, row as int, col as int));
        }
        row = row + 1;
        assert(tiles@ =~= rows_tiles(*wall, row as int));
    }
    tiles
}

/// The boards of a wall split by color: board `c` holds the occupied fields
/// whose background has color `c`.
pub fn wall_by_color(wall: u32) -> (r: [u32; 5])
    ensures
        forall|c: int| 0 <= c < 5 ==> #[trigger] r[c] == wall & color_mask(c),
{
    [
        wall & wall_color_mask(0),
        wall & wall_color_mask(1),
        wall & wall_color_mask(2),
        wall & wall_color_mask(3),
        wall & wall_color_mask(4),
    ]
}

/// The entries (line, color, tiles) of the pattern lines below `i` that hold
/// a color.
pub open spec fn pattern_entries(occupancy: [u8; 5], colors: [Option<TileColor>; 5], i: int) -> Seq<
    (u8, TileColor, u8),
>
    decreases i,
{
    if i <= 0 {
        Seq::empty()
    } else {
        pattern_entries(occupancy, colors, i - 1) + match colors[i - 1] {
            Some(c) => seq![((i - 1) as u8, c, occupancy[i - 1])],
            None => Seq::empty(),
        }
    }
}

/// The pattern lines that hold a color, in order, each with its color and
/// its number of tiles.
pub fn pattern_line_entries(occupancy: &[u8; 5], colors: &[Option<TileColor>; 5]) -> (r: Vec<
    (u8, TileColor, u8),
>)
    ensures
        r@ == pattern_entries(*occupancy, *colors, 5),
{
    let mut entries: Vec<(u8, TileColor, u8)> = Vec::new();
    let mut i: usize = 0;
    while i < 5
        invariant
            i <= 5,
            entries@ == pattern_entries(*occupancy, *colors, i as int),
        decreases 5 - i,
    {
        match colors[i] {
            Some(c) => {
                entries.push((i as u8, c, occupancy[i]));
            },
            None => {},
        }
        i = i + 1;
        assert(entries@ =~= pattern_entries(*occupancy, *colors, i as int));
    }
    entries
}

/// The penalty shown beside a floor line with `progress` tiles: that of a
/// full floor line where it holds more than fit.
pub fn shown_floor_penalty(progress: u8) -> (p: u8)
    ensures
        p == floor_penalty_at(if progress < 7 { progress as int } else { 7 }),
{
    let i: u8 = if progress < 7 { progress } else { 7 };
    floor_line_penalty(i as usize)
}

} // verus!
