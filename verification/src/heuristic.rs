//! What the heuristic playouts know of a player: the wall after the round,
//! and for each field of the wall the points a tile there would bring and
//! the tiles still missing to put one there.
use vstd::prelude::*;
use crate::bits::{bit, count_below};
use crate::game_state::{GameState, wall_after_lines, evaluated};
use crate::tile_color::{TileColor, color_index, lemma_color_index_roundtrip};
use crate::wall::{wall_pos, row_key, placed_tile_score, num_row_runs, num_column_runs, num_full_colors,
    row_run, column_run, color_full, color_mask, valid_pos, get_row_mask, wall_color_mask, get_placed_tile_score,
    count_complete_rows, count_complete_columns, count_full_colors, lemma_row_color_field};

verus! {

/// The wall after the full pattern lines above `k` put a tile each on it.
pub open spec fn wall_after_round_below(w: u32, occ: [u8; 5], colors: [Option<TileColor>; 5], k: int) -> u32
    decreases k,
{
    if k <= 0 {
        w
    } else {
        let x = wall_after_round_below(w, occ, colors, k - 1);
        if occ[k - 1] == k {
            x | (1u32 << (wall_pos(k - 1, color_index(colors[k - 1]->0) as int) as u32))
        } else {
            x
        }
    }
}

/// Whether each full pattern line has a color.
pub open spec fn full_lines_colored(occ: [u8; 5], colors: [Option<TileColor>; 5]) -> bool {
    forall|l: int| 0 <= l < 5 && #[trigger] occ[l] == l + 1 ==> colors[l] is Some
}

/// The wall at the end of the round: each full pattern line puts a tile of
/// its color into its row.
pub fn calculate_wall_after_round(
    wall_occupancy: u32,
    pattern_lines_occupancy: &[u8; 5],
    pattern_line_colors: &[Option<TileColor>; 5],
) -> (r: u32)
    requires
        full_lines_colored(*pattern_lines_occupancy, *pattern_line_colors),
    ensures
        r == wall_after_round_below(wall_occupancy, *pattern_lines_occupancy, *pattern_line_colors, 5),
{
    let mut wall_after_round = wall_occupancy;
    let mut l: usize = 0;
    while l < 5
        invariant
            l <= 5,
            full_lines_colored(*pattern_lines_occupancy, *pattern_line_colors),
            wall_after_round == wall_after_round_below(wall_occupancy, *pattern_lines_occupancy, *pattern_line_colors, l as int),
        decreases 5 - l,
    {
        if pattern_lines_occupancy[l] as usize == l + 1 {
            let color = match pattern_line_colors[l] {
                Some(c) => c.to_usize(),
                None => 0,
            };
            proof {
                assert(pattern_line_colors[l as int] is Some);
                lemma_color_index_roundtrip(pattern_line_colors[l as int]->0);
                lemma_row_color_field(l as u32, color as u32);
            }
            let new_tile = get_row_mask(l) & wall_color_mask(color);
            wall_after_round = wall_after_round | new_tile;
        }
        l = l + 1;
    }
    wall_after_round
}

/// Whether the field of color `c` in row `r` is taken.
pub open spec fn field_taken(w: u32, r: int, c: int) -> bool {
    bit(w, wall_pos(r, c))
}

/// The tiles still missing before a tile of color `c` can go to row `r`:
/// none where the field is taken or the line holds another color, the
/// free places of the line where it holds color `c`, the whole line where
/// it is empty.
pub open spec fn missing_tiles_at(war: u32, colors: [Option<TileColor>; 5], occ: [u8; 5], r: int, c: int) -> int {
    if field_taken(war, r, c) {
        0
    } else {
        match colors[r] {
            Some(lc) => if color_index(lc) != c {
                0
            } else {
                r + 1 - occ[r]
            },
            None => r + 1,
        }
    }
}

/// What the heuristic counts as missing before a tile of color `c` reaches
/// row `r`: with the field free and line `r` empty, the line's capacity
/// `r + 1`; with the field free and line `r` holding color `c`, the free
/// places, so that the missing tiles and the tiles on the line make up the
/// capacity; nothing where the field is taken or the line holds another
/// color.
pub proof fn lemma_missing_tiles_fill_the_line(
    war: u32,
    colors: [Option<TileColor>; 5],
    occ: [u8; 5],
    r: int,
    c: int,
)
    requires
        0 <= r < 5,
        0 <= c < 5,
    ensures
        bit(war, 6 * r + (r + c) % 5) ==> missing_tiles_at(war, colors, occ, r, c) == 0,
        !bit(war, 6 * r + (r + c) % 5) && colors[r] is None ==> missing_tiles_at(war, colors, occ, r, c) == r + 1,
        !bit(war, 6 * r + (r + c) % 5) && colors[r] == Some(crate::tile_color::color_of_index(c))
            ==> missing_tiles_at(war, colors, occ, r, c) + occ[r] == r + 1,
        colors[r] is Some && colors[r] != Some(crate::tile_color::color_of_index(c)) ==> missing_tiles_at(
            war,
            colors,
            occ,
            r,
            c,
        ) == 0,
{
    crate::tile_color::lemma_color_of_index_roundtrip(c);
    if colors[r] is Some {
        lemma_color_index_roundtrip(colors[r]->0);
    }
}

/// The points that a tile of color `c` in row `r` would bring at the end of
/// the round: its placement score on the current wall and the bonuses for
/// the rows, columns and colors it would complete on the wall after the
/// round; none where the field is taken. Kept to eight bits.
pub open spec fn field_score_at(w: u32, war: u32, r: int, c: int) -> int {
    if field_taken(war, r, c) {
        0
    } else {
        let x = war | (1u32 << (wall_pos(r, c) as u32));
        ((placed_tile_score(w, wall_pos(r, c)) + (num_row_runs(x) - num_row_runs(war)) * 2 + (num_column_runs(x)
            - num_column_runs(war)) * 7 + (num_full_colors(x) - num_full_colors(war)) * 10) as u8) as int
    }
}

/// Whether the hypothetical points can be computed: a free field of the wall
/// after the round lies in a row of the current wall that is not full, and a
/// line whose color has a free field holds no more tiles than places.
pub open spec fn hypothetical_computable(w: u32, war: u32, colors: [Option<TileColor>; 5], occ: [u8; 5]) -> bool {
    &&& forall|r: int, c: int| 0 <= r < 5 && 0 <= c < 5 && !#[trigger] field_taken(war, r, c) ==> row_key(w, 6 * r) != 31
    &&& forall|r: int| 0 <= r < 5 && #[trigger] colors[r] is Some && !field_taken(war, r, color_index(colors[r]->0) as int)
        ==> occ[r] <= r + 1
}

proof fn lemma_count_mono(f: spec_fn(int) -> bool, g: spec_fn(int) -> bool, n: int)
    requires
        forall|p: int| 0 <= p < n && #[trigger] f(p) ==> g(p),
    ensures
        count_below(f, n) <= count_below(g, n),
    decreases n,
{
    if n > 0 {
        lemma_count_mono(f, g, n - 1);
    }
}

/// Setting a bit completes no fewer rows, columns and colors.
proof fn lemma_runs_grow(x: u32, q: u32)
    requires
        q < 32,
    ensures
        num_row_runs(x) <= num_row_runs(x | (1u32 << q)),
        num_column_runs(x) <= num_column_runs(x | (1u32 << q)),
        num_full_colors(x) <= num_full_colors(x | (1u32 << q)),
{
    let y = x | (1u32 << q);
    assert forall|p: int| 0 <= p < 32 && #[trigger] bit(x, p) implies bit(y, p) by {
        crate::wall::lemma_or_bit(x, q, p as u32);
    }
    assert forall|p: int| 0 <= p < 32 && #[trigger] row_run(x, p) implies row_run(y, p) by {
        assert(bit(y, p) && bit(y, p + 1) && bit(y, p + 2) && bit(y, p + 3) && bit(y, p + 4));
    }
    lemma_count_mono(|p: int| row_run(x, p), |p: int| row_run(y, p), 32);
    assert forall|p: int| 0 <= p < 32 && #[trigger] column_run(x, p) implies column_run(y, p) by {
        assert(bit(y, p) && bit(y, p + 6) && bit(y, p + 12) && bit(y, p + 18) && bit(y, p + 24));
    }
    lemma_count_mono(|p: int| column_run(x, p), |p: int| column_run(y, p), 32);
    assert forall|c: int| 0 <= c < 5 && #[trigger] color_full(x, c) implies color_full(y, c) by {
        let m = color_mask(c);
        assert((x & m) == m ==> ((x | (1u32 << q)) & m) == m) by (bit_vector);
    }
    lemma_count_mono(|c: int| color_full(x, c), |c: int| color_full(y, c), 5);
}

/// For each field of the wall, the points a tile there would bring and the
/// tiles still missing to put one there (indexed by row then color for the
/// points, by color then row for the missing tiles).
pub fn calculate_hypothetical_points_gained(
    wall_occupancy: u32,
    wall_after_round: u32,
    pattern_line_colors: &[Option<TileColor>; 5],
    pattern_lines_occupancy: &[u8; 5],
) -> (r: ([[u8; 5]; 5], [[u8; 6]; 5]))
    requires
        hypothetical_computable(wall_occupancy, wall_after_round, *pattern_line_colors, *pattern_lines_occupancy),
    ensures
        forall|row: int, c: int| 0 <= row < 5 && 0 <= c < 5 ==> #[trigger] r.0[row][c] == field_score_at(
            wall_occupancy,
            wall_after_round,
            row,
            c,
        ),
        forall|row: int, c: int| 0 <= row < 5 && 0 <= c < 5 ==> #[trigger] r.1[c][row] == missing_tiles_at(
            wall_after_round,
            *pattern_line_colors,
            *pattern_lines_occupancy,
            row,
            c,
        ),
        forall|c: int| 0 <= c < 5 ==> #[trigger] r.1[c][5] == 0,
{
    let mut wall_field_score: [[u8; 5]; 5] = [[0u8; 5]; 5];
    let mut missing_tiles: [[u8; 6]; 5] = [[0u8; 6]; 5];
    let current_complete_rows = count_complete_rows(wall_after_round);
    let current_complete_columns = count_complete_columns(wall_after_round);
    let current_full_colors = count_full_colors(wall_after_round);
    let mut color: usize = 0;
    while color < 5
        invariant
            color <= 5,
            hypothetical_computable(wall_occupancy, wall_after_round, *pattern_line_colors, *pattern_lines_occupancy),
            current_complete_rows == num_row_runs(wall_after_round),
            current_complete_columns == num_column_runs(wall_after_round),
            current_full_colors == num_full_colors(wall_after_round),
            forall|row: int, c: int| 0 <= row < 5 && 0 <= c < color ==> #[trigger] wall_field_score[row][c] == field_score_at(
                wall_occupancy,
                wall_after_round,
                row,
                c,
            ),
            forall|row: int, c: int| 0 <= row < 5 && 0 <= c < color ==> #[trigger] missing_tiles[c][row] == missing_tiles_at(
                wall_after_round,
                *pattern_line_colors,
                *pattern_lines_occupancy,
                row,
                c,
            ),
            forall|row: int, c: int| 0 <= row < 5 && color <= c < 5 ==> #[trigger] missing_tiles[c][row] == 0,
            forall|c: int| 0 <= c < 5 ==> #[trigger] missing_tiles[c][5] == 0,
        decreases 5 - color,
    {
        let mut row: usize = 0;
        while row < 5
            invariant
                color < 5,
                row <= 5,
                hypothetical_computable(wall_occupancy, wall_after_round, *pattern_line_colors, *pattern_lines_occupancy),
                current_complete_rows == num_row_runs(wall_after_round),
                current_complete_columns == num_column_runs(wall_after_round),
                current_full_colors == num_full_colors(wall_after_round),
                forall|rw: int, c: int| 0 <= rw < 5 && 0 <= c < color ==> #[trigger] wall_field_score[rw][c] == field_score_at(
                    wall_occupancy,
                    wall_after_round,
                    rw,
                    c,
                ),
                forall|rw: int, c: int| 0 <= rw < 5 && 0 <= c < color ==> #[trigger] missing_tiles[c][rw] == missing_tiles_at(
                    wall_after_round,
                    *pattern_line_colors,
                    *pattern_lines_occupancy,
                    rw,
                    c,
                ),
                forall|rw: int| 0 <= rw < row ==> #[trigger] wall_field_score[rw][color as int] == field_score_at(
                    wall_occupancy,
                    wall_after_round,
                    rw,
                    color as int,
                ),
                forall|rw: int| 0 <= rw < row ==> #[trigger] missing_tiles[color as int][rw] == missing_tiles_at(
                    wall_after_round,
                    *pattern_line_colors,
                    *pattern_lines_occupancy,
                    rw,
                    color as int,
                ),
                forall|rw: int, c: int| 0 <= rw < 5 && color < c < 5 ==> #[trigger] missing_tiles[c][rw] == 0,
                forall|c: int| 0 <= c < 5 ==> #[trigger] missing_tiles[c][5] == 0,
            decreases 5 - row,
        {
            proof {
                lemma_row_color_field(row as u32, color as u32);
            }
            let tile = get_row_mask(row) & wall_color_mask(color);
            let tile_pos: u8 = (row * 6 + (row + color) % 5) as u8;
            let already_occupied = wall_after_round & tile > 0;
            assert(already_occupied == field_taken(wall_after_round, row as int, color as int)) by {
                let q = tile_pos as u32;
                assert(((wall_after_round & (1u32 << q)) > 0) == (((wall_after_round >> q) & 1u32) == 1u32)) by (bit_vector)
                    requires
                        q < 32,
                ;
            }
            match pattern_line_colors[row] {
                Some(line_color) => {
                    if line_color.to_usize() != color || already_occupied {
                        wall_field_score[row][color] = 0;
                        missing_tiles[color][row] = 0;
                    } else {
                        missing_tiles[color][row] = row as u8 + 1 - pattern_lines_occupancy[row];
                    }
                },
                None => {
                    missing_tiles[color][row] = row as u8 + 1;
                },
            }
            if already_occupied {
                wall_field_score[row][color] = 0;
                missing_tiles[color][row] = 0;
            } else {
                assert(row_key(wall_occupancy, 6 * row) != 31);
                assert(tile_pos as int / 6 * 6 == 6 * row);
                let score = get_placed_tile_score(wall_occupancy, tile_pos);
                let wall_with_tile = wall_after_round | tile;
                proof {
                    lemma_runs_grow(wall_after_round, tile_pos as u32);
                }
                let new_complete_rows = count_complete_rows(wall_with_tile);
                let row_score = new_complete_rows - current_complete_rows;
                let new_complete_columns = count_complete_columns(wall_with_tile);
                let col_score = new_complete_columns - current_complete_columns;
                let new_full_colors = count_full_colors(wall_with_tile);
                let color_score = new_full_colors - current_full_colors;
                proof {
                    crate::bits::lemma_count_below_bound(|p: int| row_run(wall_with_tile, p), 32);
                    crate::bits::lemma_count_below_bound(|p: int| column_run(wall_with_tile, p), 32);
                    crate::bits::lemma_count_below_bound(|c: int| color_full(wall_with_tile, c), 5);
                }
                let final_score = score + row_score * 2 + col_score * 7 + color_score * 10;
                wall_field_score[row][color] = final_score as u8;
            }
            row = row + 1;
        }
        color = color + 1;
    }
    (wall_field_score, missing_tiles)
}


/// What the heuristic playouts know of one player.
pub struct HeuristicGameState {
    /// The free places of each pattern line.
    pub remaining_space: [u8; 5],
    /// The tiles on the floor line, at most 7.
    pub floor_line_progress: usize,
    /// The points a tile would bring, by row and color.
    pub wall_field_score: [[u8; 5]; 5],
    /// The tiles still missing, by color and row.
    pub missing_tiles: [[u8; 6]; 5],
}

/// The wall of player `p` at the end of the round.
pub open spec fn player_wall_after_round(g: GameState, p: int) -> u32 {
    wall_after_round_below(g.walls[p], g.pattern_lines_occupancy[p], g.pattern_lines_colors[p], 5)
}


/// Law: the wall that the heuristic expects after the round is the wall
/// that scoring the round leaves: for player `p` whose full pattern lines
/// have colors, the wall after the lines above `k` agree, and so the wall
/// of player `p` in the scored state is `player_wall_after_round`.
pub proof fn lemma_wall_after_round_matches_scoring(g: GameState, p: int, k: int)
    requires
        0 <= p < 2,
        0 <= k <= 5,
        full_lines_colored(g.pattern_lines_occupancy[p], g.pattern_lines_colors[p]),
    ensures
        wall_after_round_below(g.walls[p], g.pattern_lines_occupancy[p], g.pattern_lines_colors[p], k)
            == wall_after_lines(g, p, k),
        k == 5 ==> evaluated(g).walls[p] == player_wall_after_round(g, p),
    decreases k,
{
    if k > 0 {
        lemma_wall_after_round_matches_scoring(g, p, k - 1);
        if g.pattern_lines_occupancy[p][k - 1] == k {
            assert(g.pattern_lines_colors[p][k - 1] is Some);
        }
    }
}

/// Whether the heuristic view of player `p` can be computed.
pub open spec fn heuristic_view_computable(g: GameState, p: int) -> bool {
    &&& forall|l: int| 0 <= l < 5 ==> #[trigger] g.pattern_lines_occupancy[p][l] <= l + 1
    &&& full_lines_colored(g.pattern_lines_occupancy[p], g.pattern_lines_colors[p])
    &&& hypothetical_computable(
        g.walls[p],
        player_wall_after_round(g, p),
        g.pattern_lines_colors[p],
        g.pattern_lines_occupancy[p],
    )
}

impl HeuristicGameState {
    /// The heuristic view of player `player_index`.
    pub fn from_game_state(game_state: &GameState, player_index: usize) -> (r: Self)
        requires
            player_index < 2,
            heuristic_view_computable(*game_state, player_index as int),
        ensures
            forall|l: int| 0 <= l < 5 ==> #[trigger] r.remaining_space[l] == l + 1 - game_state.pattern_lines_occupancy[player_index as int][l],
            r.floor_line_progress == if game_state.floor_line_progress[player_index as int] > 7 {
                7
            } else {
                game_state.floor_line_progress[player_index as int] as int
            },
            forall|row: int, c: int| 0 <= row < 5 && 0 <= c < 5 ==> #[trigger] r.wall_field_score[row][c] == field_score_at(
                game_state.walls[player_index as int],
                player_wall_after_round(*game_state, player_index as int),
                row,
                c,
            ),
            forall|row: int, c: int| 0 <= row < 5 && 0 <= c < 5 ==> #[trigger] r.missing_tiles[c][row] == missing_tiles_at(
                player_wall_after_round(*game_state, player_index as int),
                game_state.pattern_lines_colors[player_index as int],
                game_state.pattern_lines_occupancy[player_index as int],
                row,
                c,
            ),
    {
        let player_pattern_lines: [u8; 5] = game_state.pattern_lines_occupancy[player_index];
        let player_pattern_line_colors: [Option<TileColor>; 5] = game_state.pattern_lines_colors[player_index];
        let wall = game_state.walls[player_index];
        let wall_after_round = calculate_wall_after_round(wall, &player_pattern_lines, &player_pattern_line_colors);
        let (wall_field_score, missing_tiles) = calculate_hypothetical_points_gained(
            wall,
            wall_after_round,
            &player_pattern_line_colors,
            &player_pattern_lines,
        );
        let mut remaining_space: [u8; 5] = [1, 2, 3, 4, 5];
        let mut l: usize = 0;
        while l < 5
            invariant
                l <= 5,
                forall|m: int| 0 <= m < 5 ==> #[trigger] player_pattern_lines[m] <= m + 1,
                forall|m: int| 0 <= m < l ==> #[trigger] remaining_space[m] == m + 1 - player_pattern_lines[m],
                forall|m: int| l <= m < 5 ==> #[trigger] remaining_space[m] == m + 1,
            decreases 5 - l,
        {
            remaining_space[l] = remaining_space[l] - player_pattern_lines[l];
            l = l + 1;
        }
        let progress = game_state.floor_line_progress[player_index] as usize;
        HeuristicGameState {
            remaining_space,
            floor_line_progress: if progress < 7 { progress } else { 7 },
            wall_field_score,
            missing_tiles,
        }
    }
}

} // verus!
