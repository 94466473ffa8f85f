//! The state of a game and the rules that change it: taking tiles, scoring a
//! round, the end of the game and the list of legal moves.
use vstd::prelude::*;
use rand::rngs::SmallRng;
use crate::bits::popcount;
use crate::factories::{Factories, Factory, Bag, NUM_FACTORIES, CENTER_FACTORY_INDEX, total,
    placed_below, placed_total_below, all_empty, deal_outcome, clamp4, count_nonempty_below};
use crate::move_::Move;
use crate::move_list::{MoveList, MAX_MOVES};
use crate::player::{PlayerMarker, NUM_PLAYERS};
use crate::tile_color::{TileColor, NUM_TILE_COLORS, color_index, color_of_index};
use crate::wall::{color_mask, row_mask, wall_pos, row_key, placed_tile_score, num_row_runs,
    num_column_runs, num_full_colors, wall_color_mask, get_row_mask, get_placed_tile_score,
    check_complete_row_exists, count_complete_rows, count_complete_columns, count_full_colors,
    lemma_row_color_field};

verus! {

/// Penalty points of the floor line after 0 to 7 tiles on it.
pub open spec fn floor_penalty_at(i: int) -> int {
    if i <= 0 {
        0
    } else if i == 1 {
        1
    } else if i == 2 {
        2
    } else if i == 3 {
        4
    } else if i == 4 {
        6
    } else if i == 5 {
        8
    } else if i == 6 {
        11
    } else {
        14
    }
}

/// Number of steps of the floor line.
pub const FLOOR_LINE_LENGTH: usize = 8;

/// The penalty of the floor line after `i` tiles (`i < 8`).
pub fn floor_line_penalty(i: usize) -> (p: u8)
    requires
        i < FLOOR_LINE_LENGTH,
    ensures
        p == floor_penalty_at(i as int),
{
    let table: [u8; 8] = [0, 1, 2, 4, 6, 8, 11, 14];
    assert(table@ =~= seq![0u8, 1u8, 2u8, 4u8, 6u8, 8u8, 11u8, 14u8]);
    table[i]
}

/// What move generation found: the game ended, a new round was dealt, or the
/// round goes on.
#[derive(Debug, Clone, Copy, PartialEq, Eq, Structural)]
pub enum MoveGenerationResult {
    GameOver,
    RoundOver,
    Continue,
}

impl MoveGenerationResult {
    /// Whether the game is over.
    pub fn is_game_over(&self) -> (r: bool)
        ensures
            r == (*self == MoveGenerationResult::GameOver),
    {
        match self {
            MoveGenerationResult::GameOver => true,
            _ => false,
        }
    }

    /// Whether a new round was dealt.
    pub fn is_round_over(&self) -> (r: bool)
        ensures
            r == (*self == MoveGenerationResult::RoundOver),
    {
        match self {
            MoveGenerationResult::RoundOver => true,
            _ => false,
        }
    }

    /// Whether the round goes on.
    pub fn is_continue(&self) -> (r: bool)
        ensures
            r == (*self == MoveGenerationResult::Continue),
    {
        match self {
            MoveGenerationResult::Continue => true,
            _ => false,
        }
    }
}

/// Errors of the game engine.
#[derive(Debug, Clone, PartialEq, Eq)]
pub enum GameError {
    IllegalMove,
    PlayerCountMismatch,
    InvalidGameState(String),
}

#[derive(Clone, Copy, Debug)]
pub struct GameState {
    /// For each color, how many tiles are left in the bag.
    pub bag: Bag,
    /// For each color, how many tiles lie in the lid, to refill the bag.
    pub out_of_bag: Bag,
    /// The tiles on each factory, the center last.
    pub factories: Factories,
    /// The score of each player.
    pub scores: [i16; NUM_PLAYERS],
    /// How many tiles each player has on the floor line.
    pub floor_line_progress: [u8; NUM_PLAYERS],
    /// The wall of each player.
    pub walls: [u32; NUM_PLAYERS],
    /// How many tiles lie on each pattern line of each player.
    pub pattern_lines_occupancy: [[u8; 5]; NUM_PLAYERS],
    /// The color of each pattern line of each player; `None` where it is empty.
    pub pattern_lines_colors: [[Option<TileColor>; 5]; NUM_PLAYERS],
    /// The player to move.
    pub current_player: PlayerMarker,
    /// The player who starts the next round.
    pub next_round_starting_player: PlayerMarker,
    /// Whether someone has taken tiles from the center in this round.
    pub tile_taken_from_center: bool,
}

// ---------------------------------------------------------------------------
// Helpers to build arrays in specifications

pub open spec fn arr5(f: spec_fn(int) -> u8) -> [u8; 5] {
    [f(0), f(1), f(2), f(3), f(4)]
}

pub open spec fn arr6(f: spec_fn(int) -> [u8; 5]) -> [[u8; 5]; 6] {
    [f(0), f(1), f(2), f(3), f(4), f(5)]
}

pub open spec fn arr2_u8(f: spec_fn(int) -> u8) -> [u8; 2] {
    [f(0), f(1)]
}

pub open spec fn arr2_lines(f: spec_fn(int) -> [u8; 5]) -> [[u8; 5]; 2] {
    [f(0), f(1)]
}

pub open spec fn arr5_color(f: spec_fn(int) -> Option<TileColor>) -> [Option<TileColor>; 5] {
    [f(0), f(1), f(2), f(3), f(4)]
}

pub open spec fn arr2_colors(f: spec_fn(int) -> [Option<TileColor>; 5]) -> [[Option<TileColor>; 5]; 2] {
    [f(0), f(1)]
}

pub open spec fn arr2_i16(f: spec_fn(int) -> i16) -> [i16; 2] {
    [f(0), f(1)]
}

pub open spec fn arr2_u32(f: spec_fn(int) -> u32) -> [u32; 2] {
    [f(0), f(1)]
}

// ---------------------------------------------------------------------------
// Taking tiles

/// Whether a move takes the first tiles of the round from the center (which
/// costs the first-player token's penalty).
pub open spec fn takes_first_from_center(s: GameState, m: Move) -> bool {
    m.factory_index == CENTER_FACTORY_INDEX && !s.tile_taken_from_center
}

/// The factories after a move: the chosen color leaves the chosen factory; a
/// display is emptied and its other tiles go to the center.
pub open spec fn factories_after_move(f: [Factory; NUM_FACTORIES], m: Move) -> [Factory; NUM_FACTORIES] {
    let fi = m.factory_index as int;
    let k = color_index(m.color) as int;
    arr6(
        |i: int|
            arr5(
                |c: int|
                    if fi == 5 {
                        if i == 5 && c == k {
                            0u8
                        } else {
                            f[i][c]
                        }
                    } else {
                        if i == fi {
                            0u8
                        } else if i == 5 && c != k {
                            (f[5][c] + f[fi][c]) as u8
                        } else {
                            f[i][c]
                        }
                    },
            ),
    )
}

/// The game state after the current player makes move `m`.
pub open spec fn do_move_spec(s: GameState, m: Move) -> GameState {
    let cp = s.current_player.0 as int;
    let pli = m.pattern_line_index as int;
    let k = color_index(m.color) as int;
    let first = takes_first_from_center(s, m);
    GameState {
        bag: s.bag,
        out_of_bag: arr5(
            |c: int|
                if c == k {
                    (s.out_of_bag[c] + m.discards) as u8
                } else {
                    s.out_of_bag[c]
                },
        ),
        factories: Factories { factories: factories_after_move(s.factories.factories, m) },
        scores: s.scores,
        floor_line_progress: arr2_u8(
            |p: int|
                if p == cp {
                    (s.floor_line_progress[p] + m.discards + if first {
                        1int
                    } else {
                        0int
                    }) as u8
                } else {
                    s.floor_line_progress[p]
                },
        ),
        walls: s.walls,
        pattern_lines_occupancy: arr2_lines(
            |p: int|
                arr5(
                    |l: int|
                        if p == cp && l == pli {
                            (s.pattern_lines_occupancy[p][l] + m.places) as u8
                        } else {
                            s.pattern_lines_occupancy[p][l]
                        },
                ),
        ),
        pattern_lines_colors: arr2_colors(
            |p: int|
                arr5_color(
                    |l: int|
                        if p == cp && l == pli {
                            Some(m.color)
                        } else {
                            s.pattern_lines_colors[p][l]
                        },
                ),
        ),
        current_player: PlayerMarker(((cp + 1) % 2) as u8),
        next_round_starting_player: if first {
            s.current_player
        } else {
            s.next_round_starting_player
        },
        tile_taken_from_center: s.tile_taken_from_center || m.factory_index == CENTER_FACTORY_INDEX,
    }
}

/// Whether making move `m` stays inside the arrays and the counters.
pub open spec fn move_in_bounds(s: GameState, m: Move) -> bool {
    let cp = s.current_player.0 as int;
    let fi = m.factory_index as int;
    let pli = m.pattern_line_index as int;
    let k = color_index(m.color) as int;
    let first = takes_first_from_center(s, m);
    &&& cp < NUM_PLAYERS
    &&& fi < NUM_FACTORIES
    &&& pli <= 5
    &&& fi != 5 ==> forall|c: int| 0 <= c < 5 && c != k ==> #[trigger] s.factories.factories[5][c]
        + s.factories.factories[fi][c] <= 255
    &&& pli < 5 ==> s.pattern_lines_occupancy[cp][pli] + m.places <= 255
    &&& s.floor_line_progress[cp] + m.discards + (if first {
        1int
    } else {
        0int
    }) <= 255
    &&& s.out_of_bag[k] + m.discards <= 255
}


// ---------------------------------------------------------------------------
// Counting the tiles of the game

/// Tiles of color `c` on the pattern lines of player `p` below line `l`.
pub open spec fn pattern_tiles_below(s: GameState, p: int, c: int, l: int) -> int
    decreases l,
{
    if l <= 0 {
        0
    } else {
        pattern_tiles_below(s, p, c, l - 1) + if s.pattern_lines_colors[p][l - 1] == Some(
            color_of_index(c),
        ) {
            s.pattern_lines_occupancy[p][l - 1] as int
        } else {
            0
        }
    }
}

/// Tiles of color `c` on the pattern lines of both players.
pub open spec fn pattern_tiles(s: GameState, c: int) -> int {
    pattern_tiles_below(s, 0, c, 5) + pattern_tiles_below(s, 1, c, 5)
}

/// Tiles of color `c` on the walls of both players.
pub open spec fn wall_tiles(s: GameState, c: int) -> int {
    (popcount(s.walls[0] & color_mask(c)) + popcount(s.walls[1] & color_mask(c))) as int
}

/// All tiles of color `c` in the game: bag, lid, factories, pattern lines and walls.
pub open spec fn tile_count(s: GameState, c: int) -> int {
    s.bag[c] + s.out_of_bag[c] + placed_below(s.factories.factories, c, 6) + pattern_tiles(s, c)
        + wall_tiles(s, c)
}

/// All tiles in the game.
pub open spec fn all_tiles(s: GameState) -> int {
    tile_count(s, 0) + tile_count(s, 1) + tile_count(s, 2) + tile_count(s, 3) + tile_count(s, 4)
}

/// What the integrity check accepts: at most 20 tiles of a color in the bag, at
/// most four tiles on a display, a color exactly on the pattern lines that hold
/// tiles, and exactly 20 tiles of each color in the game.
pub open spec fn integrity(s: GameState) -> bool {
    &&& forall|c: int| 0 <= c < 5 ==> #[trigger] s.bag[c] <= 20
    &&& forall|k: int| 0 <= k < 5 ==> #[trigger] total(s.factories.factories[k]) <= 4
    &&& forall|p: int, l: int|
        0 <= p < 2 && 0 <= l < 5 ==> (#[trigger] s.pattern_lines_colors[p][l] is None) == (
        s.pattern_lines_occupancy[p][l] == 0)
    &&& all_tiles(s) == 100
    &&& forall|c: int| 0 <= c < 5 ==> #[trigger] tile_count(s, c) <= 20
}

impl GameState {
    /// Makes move `mov` for the current player: takes the tiles, pushes the
    /// rest of a display to the center, fills the pattern line, drops the
    /// surplus on the floor line (and into the lid), hands the first-player
    /// token to whoever first takes from the center, and passes the turn.
    #[verifier::rlimit(80)]
    pub fn do_move(&mut self, mov: Move)
        requires
            move_in_bounds(*old(self), mov),
            integrity(do_move_spec(*old(self), mov)),
        ensures
            *final(self) == do_move_spec(*old(self), mov),
    {
        let ghost s0 = *self;
        let current_player: usize = self.current_player.to_usize();
        let color = mov.color.to_usize();
        let pattern_line_index = mov.pattern_line_index as usize;

        take_tiles(&mut self.factories.factories, mov);
        if mov.factory_index as usize == CENTER_FACTORY_INDEX && !self.tile_taken_from_center {
            self.next_round_starting_player = self.current_player;
            self.floor_line_progress[current_player] = self.floor_line_progress[current_player] + 1;
            self.tile_taken_from_center = true;
        }
        if mov.factory_index as usize == CENTER_FACTORY_INDEX {
            self.tile_taken_from_center = true;
        }

        if pattern_line_index != 5 {
            self.pattern_lines_colors[current_player][pattern_line_index] = Some(mov.color);
            self.pattern_lines_occupancy[current_player][pattern_line_index] = self.pattern_lines_occupancy[current_player][pattern_line_index]
                + mov.places;
        }

        self.floor_line_progress[current_player] = self.floor_line_progress[current_player] + mov.discards;
        self.out_of_bag[color] = self.out_of_bag[color] + mov.discards;

        self.current_player = self.current_player.next();

        let ghost t = do_move_spec(s0, mov);
        assert(self.bag == t.bag);
        assert(self.out_of_bag =~= t.out_of_bag);
        assert(self.floor_line_progress =~= t.floor_line_progress);
        assert forall|p: int| 0 <= p < 2 implies #[trigger] self.pattern_lines_occupancy[p] =~= t.pattern_lines_occupancy[p] by {}
        assert(self.pattern_lines_occupancy =~= t.pattern_lines_occupancy);
        assert forall|p: int| 0 <= p < 2 implies #[trigger] self.pattern_lines_colors[p] =~= t.pattern_lines_colors[p] by {}
        assert(self.pattern_lines_colors =~= t.pattern_lines_colors);
    }
}


/// Takes the tiles of a move from the factories.
fn take_tiles(f: &mut [Factory; NUM_FACTORIES], mov: Move)
    requires
        mov.factory_index < NUM_FACTORIES,
        mov.factory_index != 5 ==> forall|c: int| 0 <= c < 5 && c != color_index(mov.color) ==> #[trigger] old(f)[5][c]
            + old(f)[mov.factory_index as int][c] <= 255,
    ensures
        *final(f) == factories_after_move(*old(f), mov),
{
    let ghost f0 = *f;
    let factory_index = mov.factory_index as usize;
    let color = mov.color.to_usize();
    let factory: [u8; 5] = f[factory_index];
    if factory_index == CENTER_FACTORY_INDEX {
        f[factory_index][color] = 0;
    } else {
        let mut color_index: usize = 0;
        while color_index < NUM_TILE_COLORS
            invariant
                color_index <= 5,
                factory_index < 5,
                color < 5,
                color == crate::tile_color::color_index(mov.color),
                factory == f0[factory_index as int],
                forall|c: int| 0 <= c < 5 && c != color ==> #[trigger] f0[5][c] + f0[factory_index as int][c] <= 255,
                forall|i: int| 0 <= i < 5 ==> #[trigger] f[i] == f0[i],
                forall|c: int| 0 <= c < 5 ==> #[trigger] f[5][c] == if c < color_index && c != color {
                    (f0[5][c] + factory[c]) as u8
                } else {
                    f0[5][c]
                },
            decreases 5 - color_index,
        {
            if color_index != color {
                f[CENTER_FACTORY_INDEX][color_index] = f[CENTER_FACTORY_INDEX][color_index] + factory[color_index];
            }
            color_index = color_index + 1;
        }
        f[factory_index] = [0u8; NUM_TILE_COLORS];
    }
    let ghost t = factories_after_move(f0, mov);
    assert forall|i: int| 0 <= i < 6 implies #[trigger] f[i] =~= t[i] by {}
    assert(*f =~= t);
}


// ---------------------------------------------------------------------------
// Scoring a round

/// Whether pattern line `l` of player `p` holds all its tiles.
pub open spec fn line_full(s: GameState, p: int, l: int) -> bool {
    s.pattern_lines_occupancy[p][l] == l + 1
}

/// The color number of pattern line `l` of player `p` (meaningful where the
/// line has a color).
pub open spec fn line_color(s: GameState, p: int, l: int) -> int {
    match s.pattern_lines_colors[p][l] {
        Some(c) => color_index(c) as int,
        None => 0,
    }
}

/// The wall of player `p` after the full pattern lines above line `k` have
/// each put one tile onto it, top line first.
pub open spec fn wall_after_lines(s: GameState, p: int, k: int) -> u32
    decreases k,
{
    if k <= 0 {
        s.walls[p]
    } else {
        let w = wall_after_lines(s, p, k - 1);
        if line_full(s, p, k - 1) {
            w | (1u32 << (wall_pos(k - 1, line_color(s, p, k - 1)) as u32))
        } else {
            w
        }
    }
}

/// The points that player `p` earns for the tiles of the full pattern lines
/// above line `k`, each scored on the wall as it stands when the tile arrives.
pub open spec fn gain_below(s: GameState, p: int, k: int) -> int
    decreases k,
{
    if k <= 0 {
        0
    } else {
        gain_below(s, p, k - 1) + if line_full(s, p, k - 1) {
            placed_tile_score(wall_after_lines(s, p, k - 1), wall_pos(k - 1, line_color(s, p, k - 1)))
        } else {
            0
        }
    }
}

/// Tiles of color `c` that the full pattern lines of player `p` above line
/// `k` put into the lid (all but the one that goes to the wall).
pub open spec fn leftover_below(s: GameState, p: int, c: int, k: int) -> int
    decreases k,
{
    if k <= 0 {
        0
    } else {
        leftover_below(s, p, c, k - 1) + if line_full(s, p, k - 1) && line_color(s, p, k - 1) == c {
            k - 1
        } else {
            0
        }
    }
}

/// The penalty of player `p`'s floor line.
pub open spec fn floor_penalty(s: GameState, p: int) -> int {
    floor_penalty_at(if s.floor_line_progress[p] > 7 { 7 } else { s.floor_line_progress[p] as int })
}

/// The score of player `p` after the round, before it is cut off at zero.
pub open spec fn round_score_raw(s: GameState, p: int) -> int {
    s.scores[p] + gain_below(s, p, 5) - floor_penalty(s, p)
}

/// The score of player `p` after the round: never below zero.
pub open spec fn round_score(s: GameState, p: int) -> int {
    if round_score_raw(s, p) < 0 {
        0
    } else {
        round_score_raw(s, p)
    }
}

/// The state after the round is scored: full pattern lines move one tile to
/// the wall and the rest to the lid, floor lines are charged and cleared, and
/// the holder of the first-player token starts the next round.
pub open spec fn evaluated(s: GameState) -> GameState {
    GameState {
        bag: s.bag,
        out_of_bag: arr5(
            |c: int| (s.out_of_bag[c] + leftover_below(s, 0, c, 5) + leftover_below(s, 1, c, 5)) as u8,
        ),
        factories: s.factories,
        scores: arr2_i16(|p: int| round_score(s, p) as i16),
        floor_line_progress: arr2_u8(|p: int| 0u8),
        walls: arr2_u32(|p: int| wall_after_lines(s, p, 5)),
        pattern_lines_occupancy: arr2_lines(
            |p: int|
                arr5(
                    |l: int|
                        if line_full(s, p, l) {
                            0u8
                        } else {
                            s.pattern_lines_occupancy[p][l]
                        },
                ),
        ),
        pattern_lines_colors: arr2_colors(
            |p: int|
                arr5_color(
                    |l: int|
                        if line_full(s, p, l) {
                            None
                        } else {
                            s.pattern_lines_colors[p][l]
                        },
                ),
        ),
        current_player: s.next_round_starting_player,
        next_round_starting_player: s.next_round_starting_player,
        tile_taken_from_center: false,
    }
}

/// Whether the round ends the game: some wall has a complete row.
pub open spec fn ends_game(e: GameState) -> bool {
    num_row_runs(e.walls[0]) > 0 || num_row_runs(e.walls[1]) > 0
}

/// The end-of-game bonus of player `p`: 2 per complete row, 7 per complete
/// column, 10 per color of which all five tiles stand on the wall.
pub open spec fn bonus(e: GameState, p: int) -> int {
    (num_row_runs(e.walls[p]) * 2 + num_column_runs(e.walls[p]) * 7 + num_full_colors(e.walls[p]) * 10) as int
}

/// Score of player `p` after the bonus.
pub open spec fn score_with_bonus(e: GameState, p: int) -> int {
    e.scores[p] + bonus(e, p)
}

/// The point that breaks a tie: where both players have the same score, the
/// one with more complete rows gets one point (none if they have as many).
pub open spec fn tie_break_point(e: GameState, p: int) -> int {
    let q = 1 - p;
    if score_with_bonus(e, 0) == score_with_bonus(e, 1) && num_row_runs(e.walls[p]) > num_row_runs(
        e.walls[q],
    ) {
        1
    } else {
        0
    }
}

/// The final score of player `p`.
pub open spec fn final_score(e: GameState, p: int) -> int {
    score_with_bonus(e, p) + tie_break_point(e, p)
}

/// The state after the final scoring.
pub open spec fn end_of_game(e: GameState) -> GameState {
    GameState { scores: arr2_i16(|p: int| final_score(e, p) as i16), ..e }
}

/// The final scoring pays each player 2 points per complete row of the
/// wall, 7 per complete column and 10 per color with all five tiles on the
/// wall; where the totals are then level, the player with more complete
/// rows gets one point more. Nothing but the scores changes.
pub proof fn lemma_end_of_game_bonuses(e: GameState, p: int)
    requires
        0 <= p < 2,
        forall|q: int| 0 <= q < 2 ==> i16::MIN <= #[trigger] final_score(e, q) <= i16::MAX,
    ensures
        ({
            let total = |q: int|
                e.scores[q] + 2 * num_row_runs(e.walls[q]) + 7 * num_column_runs(e.walls[q]) + 10
                    * num_full_colors(e.walls[q]);
            let tie = if total(0) == total(1) && num_row_runs(e.walls[p]) > num_row_runs(e.walls[1 - p]) {
                1int
            } else {
                0int
            };
            end_of_game(e).scores[p] == total(p) + tie
        }),
        end_of_game(e).walls == e.walls,
        end_of_game(e).pattern_lines_occupancy == e.pattern_lines_occupancy,
        end_of_game(e).pattern_lines_colors == e.pattern_lines_colors,
        end_of_game(e).floor_line_progress == e.floor_line_progress,
        end_of_game(e).factories == e.factories,
        end_of_game(e).bag == e.bag,
        end_of_game(e).out_of_bag == e.out_of_bag,
{
    assert(0 <= 1 - p < 2);
    assert(i16::MIN <= final_score(e, p) <= i16::MAX);
}

/// Whether scoring the round is possible without panicking or overflowing:
/// each full line has a color, the wall row it goes to is not yet full, the
/// lid and the scores keep within their types.
pub open spec fn round_evaluable(s: GameState) -> bool {
    &&& forall|p: int, l: int|
        0 <= p < 2 && 0 <= l < 5 && #[trigger] line_full(s, p, l) ==> s.pattern_lines_colors[p][l] is Some
            && row_key(s.walls[p], 6 * l) != 31
    &&& forall|c: int|
        0 <= c < 5 ==> s.out_of_bag[c] + leftover_below(s, 0, c, 5) + #[trigger] leftover_below(s, 1, c, 5)
            <= 255
    &&& forall|p: int| 0 <= p < 2 ==> -32768 <= #[trigger] round_score_raw(s, p) <= 32767
    &&& ends_game(evaluated(s)) ==> forall|p: int| 0 <= p < 2 ==> #[trigger] final_score(evaluated(s), p) <= 32767
}


proof fn lemma_row_key_or_lower(w: u32, q: u32, r: u32)
    requires
        r < 5,
        q < 6 * r,
    ensures
        row_key(w | (1u32 << q), 6 * r as int) == row_key(w, 6 * r as int),
{
    assert(((6 * r as int) / 6 * 6) as u32 == 6 * r) by (nonlinear_arith)
        requires r < 5;
    let sh: u32 = (6 * r) as u32;
    assert(((w | (1u32 << q)) >> sh) & 31u32 == (w >> sh) & 31u32) by (bit_vector)
        requires q < sh, sh < 32;
}

pub(crate) proof fn lemma_row_key_after_lines(s: GameState, p: int, k: int, r: int)
    requires
        0 <= p < 2,
        0 <= k <= r < 5,
    ensures
        row_key(wall_after_lines(s, p, k), 6 * r) == row_key(s.walls[p], 6 * r),
    decreases k,
{
    if k > 0 {
        lemma_row_key_after_lines(s, p, k - 1, r);
        if line_full(s, p, k - 1) {
            let c = line_color(s, p, k - 1);
            assert(0 <= c < 5);
            let q = wall_pos(k - 1, c);
            assert(q < 6 * r);
            lemma_row_key_or_lower(wall_after_lines(s, p, k - 1), q as u32, r as u32);
        }
    }
}

pub(crate) proof fn lemma_leftover_mono(s: GameState, p: int, c: int, a: int, b: int)
    requires
        0 <= a <= b,
    ensures
        leftover_below(s, p, c, a) <= leftover_below(s, p, c, b),
    decreases b,
{
    if b > a {
        lemma_leftover_mono(s, p, c, a, b - 1);
    }
}

proof fn lemma_line_color_range(s: GameState, p: int, l: int)
    ensures
        0 <= line_color(s, p, l) < 5,
{
}

impl GameState {
    /// Puts the tile of pattern line `l` of player `p` on the wall if the
    /// line is full, and returns the points it scores.
    fn place_line(&mut self, p: usize, l: usize, Ghost(s0): Ghost<GameState>) -> (points: u32)
        requires
            p < 2,
            l < 5,
            line_full(s0, p as int, l as int) ==> s0.pattern_lines_colors[p as int][l as int] is Some
                && row_key(s0.walls[p as int], 6 * l) != 31,
            old(self).walls[p as int] == wall_after_lines(s0, p as int, l as int),
            old(self).pattern_lines_occupancy[p as int][l as int] == s0.pattern_lines_occupancy[p as int][l as int],
            old(self).pattern_lines_colors[p as int][l as int] == s0.pattern_lines_colors[p as int][l as int],
            forall|c: int| 0 <= c < 5 ==> #[trigger] old(self).out_of_bag[c] + leftover_below(s0, p as int, c, 5)
                - leftover_below(s0, p as int, c, l as int) <= 255,
        ensures
            final(self).walls[p as int] == wall_after_lines(s0, p as int, l + 1),
            final(self).walls[1 - p] == old(self).walls[1 - p],
            points == if line_full(s0, p as int, l as int) {
                placed_tile_score(wall_after_lines(s0, p as int, l as int), wall_pos(l as int, line_color(s0, p as int, l as int)))
            } else {
                0
            },
            points <= 16,
            forall|c: int| 0 <= c < 5 ==> #[trigger] final(self).out_of_bag[c] == old(self).out_of_bag[c] + (if line_full(s0, p as int, l as int) && line_color(s0, p as int, l as int) == c {
                l as int
            } else {
                0
            }),
            final(self).pattern_lines_occupancy[p as int][l as int] == if line_full(s0, p as int, l as int) { 0u8 } else { s0.pattern_lines_occupancy[p as int][l as int] },
            final(self).pattern_lines_colors[p as int][l as int] == if line_full(s0, p as int, l as int) { None } else { s0.pattern_lines_colors[p as int][l as int] },
            forall|q: int, m: int| 0 <= q < 2 && 0 <= m < 5 && (q != p || m != l) ==> #[trigger] final(self).pattern_lines_occupancy[q][m] == old(self).pattern_lines_occupancy[q][m],
            forall|q: int, m: int| 0 <= q < 2 && 0 <= m < 5 && (q != p || m != l) ==> #[trigger] final(self).pattern_lines_colors[q][m] == old(self).pattern_lines_colors[q][m],
            final(self).bag == old(self).bag,
            final(self).factories == old(self).factories,
            final(self).scores == old(self).scores,
            final(self).floor_line_progress == old(self).floor_line_progress,
            final(self).current_player == old(self).current_player,
            final(self).next_round_starting_player == old(self).next_round_starting_player,
            final(self).tile_taken_from_center == old(self).tile_taken_from_center,
    {
        let no_tiles = self.pattern_lines_occupancy[p][l];
        if no_tiles as usize != l + 1 {
            return 0;
        }
        proof {
            assert(line_full(s0, p as int, l as int));
            lemma_row_key_after_lines(s0, p as int, l as int, l as int);
        }
        let color = match self.pattern_lines_colors[p][l] {
            Some(c) => c.to_usize(),
            None => 0,
        };
        assert(color == line_color(s0, p as int, l as int));
        let row_mask = get_row_mask(l);
        let color_mask = wall_color_mask(color);
        let new_tile = row_mask & color_mask;
        proof {
            lemma_row_color_field(l as u32, color as u32);
        }
        let new_tile_pos: u8 = (l * 6 + (l + color) % 5) as u8;
        assert(new_tile_pos as int == wall_pos(l as int, color as int));
        assert(new_tile_pos as int / 6 * 6 == 6 * l);
        let points = get_placed_tile_score(self.walls[p], new_tile_pos);
        self.walls[p] = self.walls[p] | new_tile;
        assert(leftover_below(s0, p as int, color as int, l + 1) == leftover_below(s0, p as int, color as int, l as int) + l);
        proof {
            lemma_leftover_mono(s0, p as int, color as int, l + 1, 5);
        }
        self.out_of_bag[color] = self.out_of_bag[color] + (no_tiles - 1);
        self.pattern_lines_occupancy[p][l] = 0;
        self.pattern_lines_colors[p][l] = None;
        points
    }
}


impl GameState {
    /// Scores the round for player `p`.
    fn score_player_round(&mut self, p: usize, Ghost(s0): Ghost<GameState>) -> (complete_row: bool)
        requires
            p < 2,
            forall|l: int| 0 <= l < 5 && #[trigger] line_full(s0, p as int, l) ==> s0.pattern_lines_colors[p as int][l] is Some
                && row_key(s0.walls[p as int], 6 * l) != 31,
            forall|c: int| 0 <= c < 5 ==> old(self).out_of_bag[c] + #[trigger] leftover_below(s0, p as int, c, 5) <= 255,
            -32768 <= round_score_raw(s0, p as int) <= 32767,
            old(self).walls[p as int] == s0.walls[p as int],
            old(self).scores[p as int] == s0.scores[p as int],
            old(self).floor_line_progress[p as int] == s0.floor_line_progress[p as int],
            old(self).pattern_lines_occupancy[p as int] == s0.pattern_lines_occupancy[p as int],
            old(self).pattern_lines_colors[p as int] == s0.pattern_lines_colors[p as int],
        ensures
            final(self).walls[p as int] == wall_after_lines(s0, p as int, 5),
            final(self).scores[p as int] == round_score(s0, p as int),
            final(self).floor_line_progress[p as int] == 0,
            forall|l: int| 0 <= l < 5 ==> #[trigger] final(self).pattern_lines_occupancy[p as int][l] == if line_full(s0, p as int, l) { 0u8 } else { s0.pattern_lines_occupancy[p as int][l] },
            forall|l: int| 0 <= l < 5 ==> #[trigger] final(self).pattern_lines_colors[p as int][l] == if line_full(s0, p as int, l) { None } else { s0.pattern_lines_colors[p as int][l] },
            forall|c: int| 0 <= c < 5 ==> #[trigger] final(self).out_of_bag[c] == old(self).out_of_bag[c] + leftover_below(s0, p as int, c, 5),
            final(self).walls[1 - p] == old(self).walls[1 - p],
            final(self).scores[1 - p] == old(self).scores[1 - p],
            final(self).floor_line_progress[1 - p] == old(self).floor_line_progress[1 - p],
            final(self).pattern_lines_occupancy[1 - p] == old(self).pattern_lines_occupancy[1 - p],
            final(self).pattern_lines_colors[1 - p] == old(self).pattern_lines_colors[1 - p],
            final(self).bag == old(self).bag,
            final(self).factories == old(self).factories,
            final(self).current_player == old(self).current_player,
            final(self).next_round_starting_player == old(self).next_round_starting_player,
            final(self).tile_taken_from_center == old(self).tile_taken_from_center,
            complete_row == (num_row_runs(wall_after_lines(s0, p as int, 5)) > 0),
    {
        let ghost s1 = *self;
        let mut points: u32 = 0;
        let mut l: usize = 0;
        while l < 5
            invariant
                p < 2,
                l <= 5,
                forall|m: int| 0 <= m < 5 && #[trigger] line_full(s0, p as int, m) ==> s0.pattern_lines_colors[p as int][m] is Some
                    && row_key(s0.walls[p as int], 6 * m) != 31,
                self.walls[p as int] == wall_after_lines(s0, p as int, l as int),
                points == gain_below(s0, p as int, l as int),
                points <= 16 * l,
                forall|c: int| 0 <= c < 5 ==> #[trigger] self.out_of_bag[c] == s1.out_of_bag[c] + leftover_below(s0, p as int, c, l as int),
                forall|c: int| 0 <= c < 5 ==> s1.out_of_bag[c] + #[trigger] leftover_below(s0, p as int, c, 5) <= 255,
                forall|m: int| 0 <= m < l ==> #[trigger] self.pattern_lines_occupancy[p as int][m] == if line_full(s0, p as int, m) { 0u8 } else { s0.pattern_lines_occupancy[p as int][m] },
                forall|m: int| 0 <= m < l ==> #[trigger] self.pattern_lines_colors[p as int][m] == if line_full(s0, p as int, m) { None } else { s0.pattern_lines_colors[p as int][m] },
                forall|m: int| l <= m < 5 ==> #[trigger] self.pattern_lines_occupancy[p as int][m] == s0.pattern_lines_occupancy[p as int][m],
                forall|m: int| l <= m < 5 ==> #[trigger] self.pattern_lines_colors[p as int][m] == s0.pattern_lines_colors[p as int][m],
                self.walls[1 - p] == s1.walls[1 - p],
                self.pattern_lines_occupancy[1 - p] == s1.pattern_lines_occupancy[1 - p],
                self.pattern_lines_colors[1 - p] == s1.pattern_lines_colors[1 - p],
                self.scores == s1.scores,
                self.floor_line_progress == s1.floor_line_progress,
                self.bag == s1.bag,
                self.factories == s1.factories,
                self.current_player == s1.current_player,
                self.next_round_starting_player == s1.next_round_starting_player,
                self.tile_taken_from_center == s1.tile_taken_from_center,
            decreases 5 - l,
        {
            proof {
                lemma_leftover_mono(s0, p as int, 0, l as int, 5);
                lemma_leftover_mono(s0, p as int, 1, l as int, 5);
                lemma_leftover_mono(s0, p as int, 2, l as int, 5);
                lemma_leftover_mono(s0, p as int, 3, l as int, 5);
                lemma_leftover_mono(s0, p as int, 4, l as int, 5);
                assert(line_full(s0, p as int, l as int) ==> s0.pattern_lines_colors[p as int][l as int] is Some
                    && row_key(s0.walls[p as int], 6 * l) != 31);
            }
            let gained = self.place_line(p, l, Ghost(s0));
            points = points + gained;
            l = l + 1;
        }
        let progress: u8 = if self.floor_line_progress[p] > 7 { 7 } else { self.floor_line_progress[p] };
        let penalty = floor_line_penalty(progress as usize);
        let score: i16 = points as i16 - penalty as i16;
        let mut new_score: i16 = self.scores[p] + score;
        if new_score < 0 {
            new_score = 0;
        }
        self.scores[p] = new_score;
        self.floor_line_progress[p] = 0;
        proof {
            assert forall|l: int| 0 <= l < 5 implies #[trigger] self.pattern_lines_occupancy[p as int][l] == if line_full(s0, p as int, l) { 0u8 } else { s0.pattern_lines_occupancy[p as int][l] } by {}
        }
        check_complete_row_exists(self.walls[p])
    }

    /// Adds the end-of-game bonus to each score and breaks a tie in favour of
    /// the player with more complete rows.
    fn evaluate_end_of_game(&mut self)
        requires
            forall|p: int| 0 <= p < 2 ==> #[trigger] final_score(*old(self), p) <= 32767,
        ensures
            *final(self) == end_of_game(*old(self)),
    {
        let ghost e = *self;
        let rows0 = count_complete_rows(self.walls[0]);
        let cols0 = count_complete_columns(self.walls[0]);
        let colors0 = count_full_colors(self.walls[0]);
        let rows1 = count_complete_rows(self.walls[1]);
        let cols1 = count_complete_columns(self.walls[1]);
        let colors1 = count_full_colors(self.walls[1]);
        assert(final_score(e, 0) >= score_with_bonus(e, 0));
        assert(final_score(e, 1) >= score_with_bonus(e, 1));
        let s0: i16 = self.scores[0] + (rows0 as i16 * 2 + cols0 as i16 * 7 + colors0 as i16 * 10);
        let s1: i16 = self.scores[1] + (rows1 as i16 * 2 + cols1 as i16 * 7 + colors1 as i16 * 10);
        self.scores[0] = s0;
        self.scores[1] = s1;
        if s0 == s1 {
            if rows0 > rows1 {
                self.scores[0] = s0 + 1;
            } else if rows1 > rows0 {
                self.scores[1] = s1 + 1;
            }
        }
        assert(self.scores =~= end_of_game(e).scores);
    }

    /// Scores the round: full pattern lines move a tile to the wall and score
    /// it, the rest of their tiles go to the lid, floor lines cost their
    /// penalty (no score drops below zero) and are cleared, and the holder of
    /// the first-player token moves first. Returns whether a wall now has a
    /// complete row; then the game is over and the final scoring is done.
    pub fn evaluate_round(&mut self) -> (is_game_over: bool)
        requires
            round_evaluable(*old(self)),
        ensures
            is_game_over == ends_game(evaluated(*old(self))),
            *final(self) == if is_game_over {
                end_of_game(evaluated(*old(self)))
            } else {
                evaluated(*old(self))
            },
    {
        let ghost s0 = *self;
        proof {
            assert forall|l: int| 0 <= l < 5 && #[trigger] line_full(s0, 0, l) implies s0.pattern_lines_colors[0][l] is Some
                && row_key(s0.walls[0], 6 * l) != 31 by {
                assert(line_full(s0, 0, l));
            }
            assert forall|l: int| 0 <= l < 5 && #[trigger] line_full(s0, 1, l) implies s0.pattern_lines_colors[1][l] is Some
                && row_key(s0.walls[1], 6 * l) != 31 by {
                assert(line_full(s0, 1, l));
            }
            assert(-32768 <= round_score_raw(s0, 0) <= 32767);
            assert(-32768 <= round_score_raw(s0, 1) <= 32767);
            assert forall|c: int| 0 <= c < 5 implies s0.out_of_bag[c] + #[trigger] leftover_below(s0, 0, c, 5) <= 255 by {
                assert(s0.out_of_bag[c] + leftover_below(s0, 0, c, 5) + leftover_below(s0, 1, c, 5) <= 255);
                lemma_leftover_mono(s0, 1, c, 0, 5);
            }
        }
        let over0 = self.score_player_round(0, Ghost(s0));
        proof {
            assert forall|c: int| 0 <= c < 5 implies self.out_of_bag[c] + #[trigger] leftover_below(s0, 1, c, 5) <= 255 by {
                assert(s0.out_of_bag[c] + leftover_below(s0, 0, c, 5) + leftover_below(s0, 1, c, 5) <= 255);
            }
        }
        let over1 = self.score_player_round(1, Ghost(s0));
        self.current_player = self.next_round_starting_player;
        self.tile_taken_from_center = false;
        let ghost e = evaluated(s0);
        proof {
            assert(self.out_of_bag =~= e.out_of_bag);
            assert(self.scores =~= e.scores);
            assert(self.floor_line_progress =~= e.floor_line_progress);
            assert(self.walls =~= e.walls);
            assert(self.pattern_lines_occupancy[0] =~= e.pattern_lines_occupancy[0]);
            assert(self.pattern_lines_occupancy[1] =~= e.pattern_lines_occupancy[1]);
            assert(self.pattern_lines_occupancy =~= e.pattern_lines_occupancy);
            assert(self.pattern_lines_colors[0] =~= e.pattern_lines_colors[0]);
            assert(self.pattern_lines_colors[1] =~= e.pattern_lines_colors[1]);
            assert(self.pattern_lines_colors =~= e.pattern_lines_colors);
            assert(*self == e);
        }
        let is_game_over = over0 || over1;
        if is_game_over {
            self.evaluate_end_of_game();
        }
        is_game_over
    }
}


// ---------------------------------------------------------------------------
// Generating moves

/// The move that takes the `n` tiles of color `c` from factory `fi` and
/// places what fits on pattern line `l` of the current player, if that line
/// can take them: it has room, holds no other color, and the wall of that
/// row has no tile of that color yet.
pub open spec fn line_move(t: GameState, fi: int, c: int, l: int) -> Option<Move> {
    let cp = t.current_player.0 as int;
    let n = t.factories.factories[fi][c] as int;
    let space = l + 1 - t.pattern_lines_occupancy[cp][l];
    let can = if n < space { n } else { space };
    if can == 0 {
        None
    } else if t.pattern_lines_colors[cp][l] is Some && color_index(t.pattern_lines_colors[cp][l]->0) != c {
        None
    } else if t.walls[cp] & (1u32 << (wall_pos(l, c) as u32)) != 0 {
        None
    } else {
        Some(
            Move {
                factory_index: fi as u8,
                color: color_of_index(c),
                pattern_line_index: l as u8,
                discards: (n - can) as u8,
                places: can as u8,
            },
        )
    }
}

/// The moves onto pattern lines above `l`.
pub open spec fn line_moves_below(t: GameState, fi: int, c: int, l: int) -> Seq<Move>
    decreases l,
{
    if l <= 0 {
        Seq::empty()
    } else {
        line_moves_below(t, fi, c, l - 1) + match line_move(t, fi, c, l - 1) {
            Some(m) => seq![m],
            None => Seq::empty(),
        }
    }
}

/// The moves that take color `c` from factory `fi`: first the one that drops
/// all of them on the floor line, then one per pattern line that can take them.
pub open spec fn pair_moves(t: GameState, fi: int, c: int) -> Seq<Move> {
    let n = t.factories.factories[fi][c];
    if n == 0 {
        Seq::empty()
    } else {
        seq![
            Move {
                factory_index: fi as u8,
                color: color_of_index(c),
                pattern_line_index: 5,
                discards: n,
                places: 0,
            },
        ] + line_moves_below(t, fi, c, 5)
    }
}

/// The moves from factory `fi` with a color below `c`.
pub open spec fn factory_moves_below(t: GameState, fi: int, c: int) -> Seq<Move>
    decreases c,
{
    if c <= 0 {
        Seq::empty()
    } else {
        factory_moves_below(t, fi, c - 1) + pair_moves(t, fi, c - 1)
    }
}

/// The moves from the factories below `fi`.
pub open spec fn moves_below(t: GameState, fi: int) -> Seq<Move>
    decreases fi,
{
    if fi <= 0 {
        Seq::empty()
    } else {
        moves_below(t, fi - 1) + factory_moves_below(t, fi - 1, 5)
    }
}

/// All legal moves of the current player, in the order in which they are
/// generated: by factory, then by color, the floor-line move first.
pub open spec fn legal_moves(t: GameState) -> Seq<Move> {
    moves_below(t, 6)
}

/// Number of (factory, color) pairs with at least one tile, among factories
/// below `fi`.
pub open spec fn nonzero_pairs_below(f: [Factory; NUM_FACTORIES], fi: int) -> int
    decreases fi,
{
    if fi <= 0 {
        0
    } else {
        nonzero_pairs_below(f, fi - 1) + crate::factories::count_nonempty_below(f[fi - 1], 5)
    }
}

/// Whether the pattern lines of the player to move hold no more tiles than
/// they have places.
pub open spec fn lines_within_capacity(t: GameState) -> bool {
    t.current_player.0 < 2 && forall|l: int| 0 <= l < 5 ==> #[trigger] t.pattern_lines_occupancy[t.current_player.0 as int][l]
        <= l + 1
}

proof fn lemma_line_moves_len(t: GameState, fi: int, c: int, l: int)
    requires
        0 <= l <= 5,
    ensures
        line_moves_below(t, fi, c, l).len() <= l,
    decreases l,
{
    if l > 0 {
        lemma_line_moves_len(t, fi, c, l - 1);
    }
}

proof fn lemma_factory_moves_len(t: GameState, fi: int, c: int)
    requires
        0 <= c <= 5,
    ensures
        factory_moves_below(t, fi, c).len() <= 6 * crate::factories::count_nonempty_below(t.factories.factories[fi], c),
    decreases c,
{
    if c > 0 {
        lemma_factory_moves_len(t, fi, c - 1);
        lemma_line_moves_len(t, fi, c - 1, 5);
    }
}

proof fn lemma_moves_len(t: GameState, fi: int)
    requires
        0 <= fi <= 6,
    ensures
        moves_below(t, fi).len() <= 6 * nonzero_pairs_below(t.factories.factories, fi),
    decreases fi,
{
    if fi > 0 {
        lemma_moves_len(t, fi - 1);
        lemma_factory_moves_len(t, fi - 1, 5);
    }
}

proof fn lemma_line_moves_contain(t: GameState, fi: int, c: int, l: int, k: int, m: Move)
    requires
        0 <= l < k,
        line_move(t, fi, c, l) == Some(m),
    ensures
        line_moves_below(t, fi, c, k).contains(m),
    decreases k,
{
    if k - 1 == l {
        let s = line_moves_below(t, fi, c, k);
        assert(s[s.len() - 1] == m);
    } else {
        lemma_line_moves_contain(t, fi, c, l, k - 1, m);
        let prev = line_moves_below(t, fi, c, k - 1);
        let j = choose|j: int| 0 <= j < prev.len() && prev[j] == m;
        assert(line_moves_below(t, fi, c, k)[j] == m);
    }
}

proof fn lemma_factory_moves_contain(t: GameState, fi: int, c: int, k: int, m: Move)
    requires
        0 <= c < k,
        pair_moves(t, fi, c).contains(m),
    ensures
        factory_moves_below(t, fi, k).contains(m),
    decreases k,
{
    let s = factory_moves_below(t, fi, k);
    if k - 1 == c {
        let prev = factory_moves_below(t, fi, k - 1);
        let j = choose|j: int| 0 <= j < pair_moves(t, fi, c).len() && pair_moves(t, fi, c)[j] == m;
        assert(s[prev.len() + j] == m);
    } else {
        lemma_factory_moves_contain(t, fi, c, k - 1, m);
        let prev = factory_moves_below(t, fi, k - 1);
        let j = choose|j: int| 0 <= j < prev.len() && prev[j] == m;
        assert(s[j] == m);
    }
}

proof fn lemma_moves_contain(t: GameState, fi: int, k: int, m: Move)
    requires
        0 <= fi < k,
        factory_moves_below(t, fi, 5).contains(m),
    ensures
        moves_below(t, k).contains(m),
    decreases k,
{
    let s = moves_below(t, k);
    if k - 1 == fi {
        let prev = moves_below(t, k - 1);
        let f = factory_moves_below(t, fi, 5);
        let j = choose|j: int| 0 <= j < f.len() && f[j] == m;
        assert(s[prev.len() + j] == m);
    } else {
        lemma_moves_contain(t, fi, k - 1, m);
        let prev = moves_below(t, k - 1);
        let j = choose|j: int| 0 <= j < prev.len() && prev[j] == m;
        assert(s[j] == m);
    }
}

/// Every placement is generated: where factory `fi` holds `n > 0` tiles of
/// color `c`, and pattern line `l` of the player to move has free places,
/// holds no tiles of another color (it is empty or holds color `c`), and
/// the field of color `c` in row `l` of that player's wall (column
/// `(l + c) % 5`) is free, the legal moves include the move that puts as
/// many of the tiles on line `l` as it has free places and drops the rest
/// on the floor line.
pub proof fn lemma_legal_moves_complete(t: GameState, fi: int, c: int, l: int)
    requires
        0 <= fi < 6,
        0 <= c < 5,
        0 <= l < 5,
        t.current_player.0 < 2,
        t.factories.factories[fi][c] > 0,
        t.pattern_lines_occupancy[t.current_player.0 as int][l] < l + 1,
        t.pattern_lines_colors[t.current_player.0 as int][l] is None
            || t.pattern_lines_colors[t.current_player.0 as int][l] == Some(color_of_index(c)),
        t.walls[t.current_player.0 as int] & (1u32 << ((6 * l + (l + c) % 5) as u32)) == 0,
    ensures
        ({
            let n = t.factories.factories[fi][c] as int;
            let space = l + 1 - t.pattern_lines_occupancy[t.current_player.0 as int][l];
            let placed = if n < space { n } else { space };
            legal_moves(t).contains(
                Move {
                    factory_index: fi as u8,
                    color: color_of_index(c),
                    pattern_line_index: l as u8,
                    discards: (n - placed) as u8,
                    places: placed as u8,
                },
            )
        }),
{
    crate::tile_color::lemma_color_of_index_roundtrip(c);
    let m = line_move(t, fi, c, l)->0;
    assert(line_move(t, fi, c, l) is Some);
    lemma_line_moves_contain(t, fi, c, l, 5, m);
    let p = pair_moves(t, fi, c);
    let j = choose|j: int| 0 <= j < line_moves_below(t, fi, c, 5).len() && line_moves_below(t, fi, c, 5)[j] == m;
    assert(p[1 + j] == m);
    lemma_factory_moves_contain(t, fi, c, 5, m);
    lemma_moves_contain(t, fi, 6, m);
}

proof fn lemma_line_moves_member(t: GameState, fi: int, c: int, k: int, m: Move) -> (l: int)
    requires
        line_moves_below(t, fi, c, k).contains(m),
    ensures
        0 <= l < k,
        line_move(t, fi, c, l) == Some(m),
    decreases k,
{
    let s = line_moves_below(t, fi, c, k);
    let prev = line_moves_below(t, fi, c, k - 1);
    let j = choose|j: int| 0 <= j < s.len() && s[j] == m;
    if j < prev.len() {
        assert(prev[j] == m);
        lemma_line_moves_member(t, fi, c, k - 1, m)
    } else {
        k - 1
    }
}

proof fn lemma_factory_moves_member(t: GameState, fi: int, k: int, m: Move) -> (c: int)
    requires
        factory_moves_below(t, fi, k).contains(m),
    ensures
        0 <= c < k,
        pair_moves(t, fi, c).contains(m),
    decreases k,
{
    let s = factory_moves_below(t, fi, k);
    let prev = factory_moves_below(t, fi, k - 1);
    let j = choose|j: int| 0 <= j < s.len() && s[j] == m;
    if j < prev.len() {
        assert(prev[j] == m);
        lemma_factory_moves_member(t, fi, k - 1, m)
    } else {
        assert(pair_moves(t, fi, k - 1)[j - prev.len()] == m);
        k - 1
    }
}

proof fn lemma_moves_member(t: GameState, k: int, m: Move) -> (fi: int)
    requires
        moves_below(t, k).contains(m),
    ensures
        0 <= fi < k,
        factory_moves_below(t, fi, 5).contains(m),
    decreases k,
{
    let s = moves_below(t, k);
    let prev = moves_below(t, k - 1);
    let j = choose|j: int| 0 <= j < s.len() && s[j] == m;
    if j < prev.len() {
        assert(prev[j] == m);
        lemma_moves_member(t, k - 1, m)
    } else {
        assert(factory_moves_below(t, k - 1, 5)[j - prev.len()] == m);
        k - 1
    }
}

/// Every generated move is one the rules allow: it takes all `n > 0` tiles
/// of its color from a factory that holds them, and either drops them all on
/// the floor line, or goes to a pattern line of the player to move that has
/// free places, holds no tiles of another color and whose wall row has no
/// tile of that color yet, placing as many as the line has free places and
/// dropping the rest.
pub proof fn lemma_legal_moves_sound(t: GameState, m: Move)
    requires
        lines_within_capacity(t),
        legal_moves(t).contains(m),
    ensures
        m.factory_index < 6,
        m.pattern_line_index <= 5,
        ({
            let cp = t.current_player.0 as int;
            let fi = m.factory_index as int;
            let c = color_index(m.color) as int;
            let n = t.factories.factories[fi][c] as int;
            let l = m.pattern_line_index as int;
            let space = l + 1 - t.pattern_lines_occupancy[cp][l];
            &&& n > 0
            &&& l == 5 ==> m.discards == n && m.places == 0
            &&& l < 5 ==> {
                &&& t.pattern_lines_occupancy[cp][l] < l + 1
                &&& t.pattern_lines_colors[cp][l] is None || t.pattern_lines_colors[cp][l] == Some(m.color)
                &&& t.walls[cp] & (1u32 << ((6 * l + (l + c) % 5) as u32)) == 0
                &&& m.places == (if n < space { n } else { space })
                &&& m.discards == n - m.places
            }
        }),
{
    let fi = lemma_moves_member(t, 6, m);
    let c = lemma_factory_moves_member(t, fi, 5, m);
    crate::tile_color::lemma_color_of_index_roundtrip(c);
    let p = pair_moves(t, fi, c);
    let j = choose|j: int| 0 <= j < p.len() && p[j] == m;
    if j > 0 {
        assert(line_moves_below(t, fi, c, 5)[j - 1] == m);
        let l = lemma_line_moves_member(t, fi, c, 5, m);
        let cp = t.current_player.0 as int;
        assert(t.pattern_lines_occupancy[cp][l] <= l + 1);
        if t.pattern_lines_colors[cp][l] is Some {
            crate::tile_color::lemma_color_index_roundtrip(t.pattern_lines_colors[cp][l]->0);
        }
    }
}

/// Appends the moves that take color `color` from factory `factory_index`.
fn push_pair_moves(t: &GameState, factory_index: usize, color: usize, move_list: &mut MoveList)
    requires
        factory_index < 6,
        color < 5,
        lines_within_capacity(*t),
        t.factories.factories[factory_index as int][color as int] > 0 ==> old(move_list)@.len() + 6 <= MAX_MOVES,
    ensures
        final(move_list)@ == old(move_list)@ + pair_moves(*t, factory_index as int, color as int),
{
    let number = t.factories.factories[factory_index][color];
    if number == 0 {
        assert(move_list@ =~= old(move_list)@ + pair_moves(*t, factory_index as int, color as int));
        return;
    }
    let current_player = t.current_player.to_usize();
    move_list.push(
        Move {
            factory_index: factory_index as u8,
            color: TileColor::from_u8(color as u8),
            pattern_line_index: 5,
            discards: number,
            places: 0,
        },
    );
    let ghost start = move_list@;
    let wall = t.walls[current_player];
    let mut pattern_line_index: usize = 0;
    while pattern_line_index < 5
        invariant
            factory_index < 6,
            color < 5,
            lines_within_capacity(*t),
            current_player == t.current_player.0,
            wall == t.walls[current_player as int],
            number == t.factories.factories[factory_index as int][color as int],
            number > 0,
            pattern_line_index <= 5,
            start.len() <= old(move_list)@.len() + 1,
            old(move_list)@.len() + 6 <= MAX_MOVES,
            move_list@ == start + line_moves_below(*t, factory_index as int, color as int, pattern_line_index as int),
            start == old(move_list)@ + seq![
                Move {
                    factory_index: factory_index as u8,
                    color: color_of_index(color as int),
                    pattern_line_index: 5,
                    discards: number,
                    places: 0,
                },
            ],
        decreases 5 - pattern_line_index,
    {
        proof {
            lemma_line_moves_len(*t, factory_index as int, color as int, pattern_line_index as int);
        }
        let ghost before = move_list@;
        let l = pattern_line_index;
        let occupancy = t.pattern_lines_occupancy[current_player][l];
        let space: u8 = (l as u8 + 1) - occupancy;
        let can_place = if number < space { number } else { space };
        if can_place != 0 {
            let cannot_place = number - can_place;
            let color_ok = match t.pattern_lines_colors[current_player][l] {
                Some(existing) => existing.to_usize() == color,
                None => true,
            };
            if color_ok {
                let wall_mask = wall_color_mask(color);
                let row_mask = get_row_mask(l);
                proof {
                    lemma_row_color_field(l as u32, color as u32);
                }
                if wall & (row_mask & wall_mask) == 0 {
                    move_list.push(
                        Move {
                            factory_index: factory_index as u8,
                            color: TileColor::from_u8(color as u8),
                            pattern_line_index: l as u8,
                            discards: cannot_place,
                            places: can_place,
                        },
                    );
                }
            }
        }
        assert(move_list@ =~= start + line_moves_below(*t, factory_index as int, color as int, pattern_line_index + 1));
        pattern_line_index = pattern_line_index + 1;
    }
    assert(move_list@ =~= old(move_list)@ + pair_moves(*t, factory_index as int, color as int));
}

/// Appends all legal moves of the current player.
pub(crate) fn push_all_moves(t: &GameState, move_list: &mut MoveList)
    requires
        lines_within_capacity(*t),
        old(move_list)@.len() == 0,
        nonzero_pairs_below(t.factories.factories, 6) <= 21,
    ensures
        final(move_list)@ == legal_moves(*t),
{
    let mut factory_index: usize = 0;
    while factory_index < NUM_FACTORIES
        invariant
            factory_index <= 6,
            lines_within_capacity(*t),
            nonzero_pairs_below(t.factories.factories, 6) <= 21,
            move_list@ == moves_below(*t, factory_index as int),
        decreases 6 - factory_index,
    {
        let mut color: usize = 0;
        while color < NUM_TILE_COLORS
            invariant
                factory_index < 6,
                color <= 5,
                lines_within_capacity(*t),
                nonzero_pairs_below(t.factories.factories, 6) <= 21,
                move_list@ == moves_below(*t, factory_index as int) + factory_moves_below(*t, factory_index as int, color as int),
            decreases 5 - color,
        {
            proof {
                lemma_moves_len(*t, factory_index as int);
                lemma_factory_moves_len(*t, factory_index as int, color as int);
                lemma_nonzero_pairs_mono(t.factories.factories, factory_index as int + 1, 6);
                lemma_count_nonempty_step(t.factories.factories[factory_index as int], color as int);
            }
            push_pair_moves(t, factory_index, color, move_list);
            assert(move_list@ =~= moves_below(*t, factory_index as int) + factory_moves_below(*t, factory_index as int, color + 1));
            color = color + 1;
        }
        assert(move_list@ =~= moves_below(*t, factory_index + 1));
        factory_index = factory_index + 1;
    }
}

proof fn lemma_nonzero_pairs_mono(f: [Factory; NUM_FACTORIES], a: int, b: int)
    requires
        0 <= a <= b,
    ensures
        nonzero_pairs_below(f, a) <= nonzero_pairs_below(f, b),
    decreases b,
{
    if b > a {
        lemma_nonzero_pairs_mono(f, a, b - 1);
    }
}

proof fn lemma_count_nonempty_step(f: [u8; 5], c: int)
    requires
        0 <= c < 5,
    ensures
        crate::factories::count_nonempty_below(f, c) + (if f[c] > 0 { 1int } else { 0int }) <= crate::factories::count_nonempty_below(f, 5),
{
    lemma_count_nonempty_mono(f, c + 1, 5);
}

proof fn lemma_count_nonempty_mono(f: [u8; 5], a: int, b: int)
    requires
        0 <= a <= b,
    ensures
        crate::factories::count_nonempty_below(f, a) <= crate::factories::count_nonempty_below(f, b),
    decreases b,
{
    if b > a {
        lemma_count_nonempty_mono(f, a, b - 1);
    }
}


/// The state `t` is `e` with new bag, lid and factories dealt from those of `e`.
pub open spec fn dealt_from(e: GameState, t: GameState) -> bool {
    &&& all_empty(e.factories.factories)
    &&& deal_outcome(e.bag, e.out_of_bag, t.factories.factories, t.bag, t.out_of_bag)
    &&& t == GameState { bag: t.bag, out_of_bag: t.out_of_bag, factories: t.factories, ..e }
}

proof fn lemma_nonempty_le_total(f: [u8; 5], k: int)
    requires
        0 <= k <= 5,
    ensures
        count_nonempty_below(f, k) <= f@.subrange(0, k).len() && count_nonempty_below(f, k) <= partial_total(f, k),
    decreases k,
{
    if k > 0 {
        lemma_nonempty_le_total(f, k - 1);
    }
}

spec fn partial_total(f: [u8; 5], k: int) -> int
    decreases k,
{
    if k <= 0 {
        0
    } else {
        partial_total(f, k - 1) + f[k - 1]
    }
}

proof fn lemma_dealt_pairs(f: [Factory; NUM_FACTORIES], n: int)
    requires
        0 <= n <= 6,
        forall|c: int| 0 <= c < 5 ==> #[trigger] f[5][c] == 0,
        forall|k: int| 0 <= k < 5 ==> #[trigger] total(f[k]) <= 4,
    ensures
        nonzero_pairs_below(f, n) <= 4 * (if n > 5 { 5 } else { n }),
    decreases n,
{
    if n > 0 {
        lemma_dealt_pairs(f, n - 1);
        lemma_nonempty_le_total(f[n - 1], 5);
        reveal_with_fuel(partial_total, 6);
        if n == 6 {
            assert(partial_total(f[5], 5) == 0);
        } else {
            assert(partial_total(f[n - 1], 5) == total(f[n - 1]));
        }
    }
}

pub(crate) proof fn lemma_integrity_bounds(s: GameState)
    requires
        integrity(s),
    ensures
        total(s.bag) <= 100,
        total(s.out_of_bag) <= 100,
{
    assert forall|c: int| 0 <= c < 5 implies #[trigger] s.out_of_bag[c] <= 20 by {
        lemma_placed_nonneg(s.factories.factories, c, 6);
        lemma_pattern_nonneg(s, 0, c, 5);
        lemma_pattern_nonneg(s, 1, c, 5);
        assert(tile_count(s, c) <= 20);
    }
    assert(s.bag[0] <= 20 && s.bag[1] <= 20 && s.bag[2] <= 20 && s.bag[3] <= 20 && s.bag[4] <= 20);
    assert(s.out_of_bag[0] <= 20 && s.out_of_bag[1] <= 20 && s.out_of_bag[2] <= 20 && s.out_of_bag[3] <= 20 && s.out_of_bag[4] <= 20);
}

pub(crate) proof fn lemma_placed_nonneg(f: [Factory; NUM_FACTORIES], c: int, k: int)
    ensures
        placed_below(f, c, k) >= 0,
    decreases k,
{
    if k > 0 {
        lemma_placed_nonneg(f, c, k - 1);
    }
}

pub(crate) proof fn lemma_pattern_nonneg(s: GameState, p: int, c: int, l: int)
    ensures
        pattern_tiles_below(s, p, c, l) >= 0,
    decreases l,
{
    if l > 0 {
        lemma_pattern_nonneg(s, p, c, l - 1);
    }
}

/// Whether move generation can run on `s` without panicking: a finished round
/// must be scorable and leave a sound game, and the player to move must have
/// no overfull pattern line and there must be room for all moves.
pub open spec fn moves_generable(s: GameState) -> bool {
    if all_empty(s.factories.factories) {
        &&& round_evaluable(s)
        &&& integrity(evaluated(s))
        &&& !ends_game(evaluated(s)) ==> lines_within_capacity(evaluated(s))
    } else {
        &&& lines_within_capacity(s)
        &&& nonzero_pairs_below(s.factories.factories, 6) <= 21
    }
}

impl GameState {
    /// Deals new tiles from the bag to the factories.
    pub fn fill_factories(&mut self, rng: &mut SmallRng)
        requires
            all_empty(old(self).factories.factories),
            total(old(self).bag) <= 255,
            total(old(self).out_of_bag) <= 255,
        ensures
            dealt_from(*old(self), *final(self)),
    {
        self.factories.refill_by_drawing_from_bag(&mut self.bag, &mut self.out_of_bag, rng);
    }

    /// Fills `move_list` with the legal moves of the player to move. Where
    /// the factories are empty the round is scored first: if that ends the
    /// game the list stays empty and `GameOver` is returned; otherwise new
    /// tiles are dealt and `RoundOver` is returned. Else `Continue`.
    pub fn get_possible_moves(&mut self, move_list: &mut MoveList, rng: &mut SmallRng) -> (r: MoveGenerationResult)
        requires
            moves_generable(*old(self)),
        ensures
            (r == MoveGenerationResult::Continue) == !all_empty(old(self).factories.factories),
            r == MoveGenerationResult::GameOver <==> all_empty(old(self).factories.factories) && ends_game(evaluated(*old(self))),
            r == MoveGenerationResult::Continue ==> *final(self) == *old(self) && *final(rng) == *old(rng),
            r == MoveGenerationResult::GameOver ==> *final(self) == end_of_game(evaluated(*old(self))),
            r == MoveGenerationResult::RoundOver ==> dealt_from(evaluated(*old(self)), *final(self)),
            r == MoveGenerationResult::GameOver ==> final(move_list)@.len() == 0,
            r != MoveGenerationResult::GameOver ==> final(move_list)@ == legal_moves(*final(self)),
    {
        move_list.clear();
        let is_round_over = self.factories.is_empty();
        if is_round_over {
            let ghost s0 = *self;
            let is_game_over = self.evaluate_round();
            if is_game_over {
                return MoveGenerationResult::GameOver;
            }
            proof {
                lemma_integrity_bounds(*self);
            }
            self.fill_factories(rng);
            proof {
                let f = self.factories.factories;
                lemma_dealt_pairs(f, 6);
            }
        }
        push_all_moves(self, move_list);
        if is_round_over {
            MoveGenerationResult::RoundOver
        } else {
            MoveGenerationResult::Continue
        }
    }
}


// ---------------------------------------------------------------------------
// Checking a state

/// Tiles of color `c` on the factories below `k`, counted.
fn factory_tiles_of_color(f: &[Factory; NUM_FACTORIES], c: usize) -> (n: u32)
    requires
        c < 5,
    ensures
        n == placed_below(*f, c as int, 6),
        n <= 255 * 6,
{
    let mut n: u32 = 0;
    let mut k: usize = 0;
    while k < NUM_FACTORIES
        invariant
            k <= 6,
            c < 5,
            n == placed_below(*f, c as int, k as int),
            n <= 255 * k,
        decreases 6 - k,
    {
        n = n + f[k][c] as u32;
        k = k + 1;
    }
    n
}

/// Tiles of color `c` on the pattern lines of player `p`, counted.
fn pattern_tiles_of_color(s: &GameState, p: usize, c: usize) -> (n: u32)
    requires
        p < 2,
        c < 5,
    ensures
        n == pattern_tiles_below(*s, p as int, c as int, 5),
        n <= 255 * 5,
{
    let mut n: u32 = 0;
    let mut l: usize = 0;
    while l < 5
        invariant
            l <= 5,
            p < 2,
            c < 5,
            n == pattern_tiles_below(*s, p as int, c as int, l as int),
            n <= 255 * l,
        decreases 5 - l,
    {
        let same = match s.pattern_lines_colors[p][l] {
            Some(col) => col.to_usize() == c,
            None => false,
        };
        proof {
            match s.pattern_lines_colors[p as int][l as int] {
                Some(col) => {
                    crate::tile_color::lemma_color_index_roundtrip(col);
                },
                None => {},
            }
            assert(same == (s.pattern_lines_colors[p as int][l as int] == Some(color_of_index(c as int))));
        }
        if same {
            n = n + s.pattern_lines_occupancy[p][l] as u32;
        }
        l = l + 1;
    }
    n
}

impl GameState {
    /// Counts all tiles of color `c` in the game.
    pub(crate) fn tiles_of_color(&self, c: usize) -> (n: u32)
        requires
            c < 5,
        ensures
            n == tile_count(*self, c as int),
    {
        let in_factories = factory_tiles_of_color(&self.factories.factories, c);
        let in_lines = pattern_tiles_of_color(self, 0, c) + pattern_tiles_of_color(self, 1, c);
        let mask = wall_color_mask(c);
        let on_walls = crate::bits::count_ones(self.walls[0] & mask) + crate::bits::count_ones(self.walls[1] & mask);
        self.bag[c] as u32 + self.out_of_bag[c] as u32 + in_factories + in_lines + on_walls
    }

    /// Whether the state passes the integrity check: no color has more than
    /// 20 tiles in the bag, no display more than four tiles, a pattern line
    /// has a color exactly when it holds tiles, and there are 20 tiles of
    /// each color in the game, 100 in all.
    pub fn passes_integrity_check(&self) -> (r: bool)
        ensures
            r == integrity(*self),
    {
        let mut is_valid = true;

        let mut c: usize = 0;
        while c < NUM_TILE_COLORS
            invariant
                c <= 5,
                is_valid == forall|d: int| 0 <= d < c ==> #[trigger] self.bag[d] <= 20,
            decreases 5 - c,
        {
            if self.bag[c] > 20 {
                is_valid = false;
            }
            c = c + 1;
        }
        let bag_ok = is_valid;

        let mut factories_ok = true;
        let mut k: usize = 0;
        while k < CENTER_FACTORY_INDEX
            invariant
                k <= 5,
                factories_ok == forall|j: int| 0 <= j < k ==> #[trigger] total(self.factories.factories[j]) <= 4,
            decreases 5 - k,
        {
            let f = self.factories.factories[k];
            let tile_count: u32 = f[0] as u32 + f[1] as u32 + f[2] as u32 + f[3] as u32 + f[4] as u32;
            assert(tile_count == total(self.factories.factories[k as int]));
            if tile_count > 4 {
                factories_ok = false;
            }
            k = k + 1;
        }

        let mut lines_ok = true;
        let mut p: usize = 0;
        while p < NUM_PLAYERS
            invariant
                p <= 2,
                lines_ok == forall|q: int, l: int| 0 <= q < p && 0 <= l < 5 ==> (#[trigger] self.pattern_lines_colors[q][l] is None) == (
                    self.pattern_lines_occupancy[q][l] == 0),
            decreases 2 - p,
        {
            let mut l: usize = 0;
            let ghost before = lines_ok;
            while l < 5
                invariant
                    p < 2,
                    l <= 5,
                    before == forall|q: int, m: int| 0 <= q < p && 0 <= m < 5 ==> (#[trigger] self.pattern_lines_colors[q][m] is None) == (
                        self.pattern_lines_occupancy[q][m] == 0),
                    lines_ok == (before && forall|m: int| 0 <= m < l ==> (#[trigger] self.pattern_lines_colors[p as int][m] is None) == (
                        self.pattern_lines_occupancy[p as int][m] == 0)),
                decreases 5 - l,
            {
                let occupied = self.pattern_lines_occupancy[p][l] != 0;
                match self.pattern_lines_colors[p][l] {
                    None => {
                        if occupied {
                            lines_ok = false;
                        }
                    },
                    Some(_) => {
                        if !occupied {
                            lines_ok = false;
                        }
                    },
                }
                l = l + 1;
            }
            proof {
                assert(lines_ok == forall|q: int, m: int| 0 <= q < p + 1 && 0 <= m < 5 ==> (#[trigger] self.pattern_lines_colors[q][m] is None) == (
                    self.pattern_lines_occupancy[q][m] == 0)) by {
                    if lines_ok {
                        assert forall|q: int, m: int| 0 <= q < p + 1 && 0 <= m < 5 implies (#[trigger] self.pattern_lines_colors[q][m] is None) == (
                            self.pattern_lines_occupancy[q][m] == 0) by {
                            if q < p {
                            } else {
                                assert(q == p);
                            }
                        }
                    }
                }
            }
            p = p + 1;
        }

        let mut counts_ok = true;
        let mut sum: u32 = 0;
        let mut c: usize = 0;
        while c < NUM_TILE_COLORS
            invariant
                c <= 5,
                sum == if c == 0 { 0 } else if c == 1 { tile_count(*self, 0) } else if c == 2 { tile_count(*self, 0) + tile_count(*self, 1) } else if c == 3 {
                    tile_count(*self, 0) + tile_count(*self, 1) + tile_count(*self, 2)
                } else if c == 4 {
                    tile_count(*self, 0) + tile_count(*self, 1) + tile_count(*self, 2) + tile_count(*self, 3)
                } else {
                    all_tiles(*self)
                },
                sum <= c * 0x1_0000,
                counts_ok == forall|d: int| 0 <= d < c ==> #[trigger] tile_count(*self, d) <= 20,
            decreases 5 - c,
        {
            let n = self.tiles_of_color(c);
            proof {
                assert(n <= 0x1_0000) by {
                    lemma_tile_count_bound(*self, c as int);
                }
            }
            if n > 20 {
                counts_ok = false;
            }
            sum = sum + n;
            c = c + 1;
        }
        bag_ok && factories_ok && lines_ok && counts_ok && sum == 100
    }
}

pub(crate) proof fn lemma_tile_count_bound(s: GameState, c: int)
    requires
        0 <= c < 5,
    ensures
        0 <= tile_count(s, c) <= 0x1_0000,
{
    lemma_placed_bound(s.factories.factories, c, 6);
    lemma_pattern_bound(s, 0, c, 5);
    lemma_pattern_bound(s, 1, c, 5);
    crate::bits::lemma_count_below_bound(|p: int| crate::bits::bit(s.walls[0] & color_mask(c), p), 32);
    crate::bits::lemma_count_below_bound(|p: int| crate::bits::bit(s.walls[1] & color_mask(c), p), 32);
}

proof fn lemma_placed_bound(f: [Factory; NUM_FACTORIES], c: int, k: int)
    requires
        0 <= k,
    ensures
        0 <= placed_below(f, c, k) <= 255 * k,
    decreases k,
{
    if k > 0 {
        lemma_placed_bound(f, c, k - 1);
    }
}

proof fn lemma_pattern_bound(s: GameState, p: int, c: int, l: int)
    requires
        0 <= l,
    ensures
        0 <= pattern_tiles_below(s, p, c, l) <= 255 * l,
    decreases l,
{
    if l > 0 {
        lemma_pattern_bound(s, p, c, l - 1);
    }
}


/// The state before the first deal: 20 tiles of each color in the bag and
/// nothing anywhere else; the first player moves first.
pub open spec fn initial_state() -> GameState {
    let z: [u8; 5] = [0u8, 0u8, 0u8, 0u8, 0u8];
    let none: [Option<TileColor>; 5] = [None, None, None, None, None];
    GameState {
        bag: [20u8, 20u8, 20u8, 20u8, 20u8],
        out_of_bag: z,
        factories: Factories { factories: [z, z, z, z, z, z] },
        scores: [0i16, 0i16],
        floor_line_progress: [0u8, 0u8],
        walls: [0u32, 0u32],
        pattern_lines_occupancy: [z, z],
        pattern_lines_colors: [none, none],
        current_player: PlayerMarker(0),
        next_round_starting_player: PlayerMarker(0),
        tile_taken_from_center: false,
    }
}

impl GameState {
    /// A new game: the bag holds all 100 tiles and the first tiles are dealt.
    pub fn new(rng: &mut SmallRng) -> (s: GameState)
        ensures
            dealt_from(initial_state(), s),
    {
        let mut ret = GameState::empty();
        ret.fill_factories(rng);
        ret
    }

    /// The state before the first deal.
    pub fn empty() -> (s: GameState)
        ensures
            s == initial_state(),
    {
        let s = GameState {
            bag: [20u8; NUM_TILE_COLORS],
            out_of_bag: [0u8; NUM_TILE_COLORS],
            factories: Factories::empty(),
            scores: [0i16; NUM_PLAYERS],
            floor_line_progress: [0u8; NUM_PLAYERS],
            walls: [0u32; NUM_PLAYERS],
            pattern_lines_occupancy: [[0u8; 5]; NUM_PLAYERS],
            pattern_lines_colors: [[None; 5]; NUM_PLAYERS],
            current_player: PlayerMarker::new(0),
            next_round_starting_player: PlayerMarker::new(0),
            tile_taken_from_center: false,
        };
        let ghost t = initial_state();
        assert(s.bag =~= t.bag);
        assert(s.out_of_bag =~= t.out_of_bag);
        assert(s.scores =~= t.scores);
        assert(s.floor_line_progress =~= t.floor_line_progress);
        assert(s.walls =~= t.walls);
        assert forall|i: int| 0 <= i < 6 implies #[trigger] s.factories.factories[i] =~= t.factories.factories[i] by {
            assert(s.factories.factories[i][0] == 0);
        }
        assert(s.factories.factories =~= t.factories.factories);
        assert(s.pattern_lines_occupancy[0] =~= t.pattern_lines_occupancy[0]);
        assert(s.pattern_lines_occupancy =~= t.pattern_lines_occupancy);
        assert(s.pattern_lines_colors[0] =~= t.pattern_lines_colors[0]);
        assert(s.pattern_lines_colors =~= t.pattern_lines_colors);
        s
    }
}

} // verus!
