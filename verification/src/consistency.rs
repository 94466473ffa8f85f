//! What stays true of a game played by the rules: every legal move, every
//! scoring of a round and every deal keeps a state sound, so the integrity
//! check passes all through a game.
use vstd::prelude::*;
use crate::bits::popcount;
use crate::factories::{Factory, NUM_FACTORIES, total, placed_below, placed_total_below, all_empty,
    deal_outcome, clamp4, count_nonempty_below,
    lemma_placed_sum};
use crate::game_state::{GameState, integrity, dealt_from, moves_generable, lines_within_capacity,
    nonzero_pairs_below, initial_state, line_full, line_color, wall_after_lines, gain_below, leftover_below,
    evaluated, round_evaluable, round_score, round_score_raw, floor_penalty, ends_game, final_score, bonus,
    score_with_bonus, tie_break_point, lemma_leftover_mono, tile_count, all_tiles, pattern_tiles, pattern_tiles_below,
    wall_tiles, do_move_spec, move_in_bounds, legal_moves, line_move, pair_moves, line_moves_below,
    factory_moves_below, moves_below, factories_after_move, takes_first_from_center,
    lemma_integrity_bounds, lemma_placed_nonneg, lemma_pattern_nonneg};
use crate::move_::Move;
use crate::playout::{random_move_ok, floor_move};
use crate::tile_color::{TileColor, color_index, color_of_index, lemma_color_index_roundtrip};
use crate::wall::wall_pos;

verus! {

/// Whether the color on pattern line `l` of player `p`, if any, still has a
/// free field in row `l` of the wall.
pub open spec fn line_color_free(s: GameState, p: int, l: int) -> bool {
    match s.pattern_lines_colors[p][l] {
        Some(c) => s.walls[p] & (1u32 << (wall_pos(l, color_index(c) as int) as u32)) == 0,
        None => true,
    }
}

/// Whether a state can arise in a game played by the rules: it passes the
/// integrity check, both players exist, no pattern line holds more tiles than
/// it has places or a color already on its wall row, the factories hold at
/// most 20 tiles, the floor lines hold no more than the lid (and the first
/// player token), and no score is negative or larger than 16 points per tile
/// on the wall.
pub open spec fn consistent(s: GameState) -> bool {
    &&& integrity(s)
    &&& s.current_player.0 < 2
    &&& s.next_round_starting_player.0 < 2
    &&& forall|p: int, l: int| 0 <= p < 2 && 0 <= l < 5 ==> #[trigger] s.pattern_lines_occupancy[p][l] <= l + 1
    &&& forall|p: int, l: int| 0 <= p < 2 && 0 <= l < 5 ==> #[trigger] line_color_free(s, p, l)
    &&& placed_total_below(s.factories.factories, 6) <= 20
    &&& s.floor_line_progress[0] + s.floor_line_progress[1] <= total(s.out_of_bag) + (if s.tile_taken_from_center {
        1int
    } else {
        0int
    })
    &&& forall|p: int| 0 <= p < 2 ==> 0 <= #[trigger] s.scores[p] <= 16 * popcount(s.walls[p])
}

// ---------------------------------------------------------------------------
// The shape of a legal move

proof fn lemma_contains_split(a: Seq<Move>, b: Seq<Move>, x: Move)
    ensures
        (a + b).contains(x) ==> a.contains(x) || b.contains(x),
{
    if (a + b).contains(x) {
        let i = choose|i: int| 0 <= i < (a + b).len() && (a + b)[i] == x;
        if i < a.len() {
            assert(a[i] == x);
        } else {
            assert(b[i - a.len()] == x);
        }
    }
}

proof fn lemma_line_moves_shape(t: GameState, fi: int, c: int, l: int, m: Move)
    requires
        0 <= fi < 6,
        0 <= c < 5,
        l <= 5,
        t.factories.factories[fi][c] > 0,
        line_moves_below(t, fi, c, l).contains(m),
    ensures
        random_move_ok(t, m),
    decreases l,
{
    if l > 0 {
        let tail = match line_move(t, fi, c, l - 1) {
            Some(m2) => seq![m2],
            None => Seq::<Move>::empty(),
        };
        lemma_contains_split(line_moves_below(t, fi, c, l - 1), tail, m);
        if line_moves_below(t, fi, c, l - 1).contains(m) {
            lemma_line_moves_shape(t, fi, c, l - 1, m);
        } else {
            assert(tail[0] == m);
            lemma_color_index_roundtrip(color_of_index(c));
            assert(line_move(t, fi, c, l - 1) == Some(m));
        }
    }
}

proof fn lemma_pair_moves_shape(t: GameState, fi: int, c: int, m: Move)
    requires
        0 <= fi < 6,
        0 <= c < 5,
        pair_moves(t, fi, c).contains(m),
    ensures
        random_move_ok(t, m),
{
    let f = floor_move(t, fi, c);
    assert(t.factories.factories[fi][c] > 0);
    assert(pair_moves(t, fi, c) == seq![f] + line_moves_below(t, fi, c, 5));
    lemma_contains_split(seq![f], line_moves_below(t, fi, c, 5), m);
    lemma_color_index_roundtrip(color_of_index(c));
    if seq![f].contains(m) {
        assert(seq![f][0] == m);
    } else {
        lemma_line_moves_shape(t, fi, c, 5, m);
    }
}

proof fn lemma_factory_moves_shape(t: GameState, fi: int, c: int, m: Move)
    requires
        0 <= fi < 6,
        0 <= c <= 5,
        factory_moves_below(t, fi, c).contains(m),
    ensures
        random_move_ok(t, m),
    decreases c,
{
    if c > 0 {
        lemma_contains_split(factory_moves_below(t, fi, c - 1), pair_moves(t, fi, c - 1), m);
        if factory_moves_below(t, fi, c - 1).contains(m) {
            lemma_factory_moves_shape(t, fi, c - 1, m);
        } else {
            lemma_pair_moves_shape(t, fi, c - 1, m);
        }
    }
}

proof fn lemma_moves_shape(t: GameState, fi: int, m: Move)
    requires
        0 <= fi <= 6,
        moves_below(t, fi).contains(m),
    ensures
        random_move_ok(t, m),
    decreases fi,
{
    if fi > 0 {
        lemma_contains_split(moves_below(t, fi - 1), factory_moves_below(t, fi - 1, 5), m);
        if moves_below(t, fi - 1).contains(m) {
            lemma_moves_shape(t, fi - 1, m);
        } else {
            lemma_factory_moves_shape(t, fi - 1, 5, m);
        }
    }
}

/// Every legal move takes a color that a factory holds and places the tiles
/// on a pattern line that can take them, or drops them on the floor line.
pub proof fn lemma_legal_move_shape(t: GameState, m: Move)
    requires
        legal_moves(t).contains(m),
    ensures
        random_move_ok(t, m),
{
    lemma_moves_shape(t, 6, m);
}


// ---------------------------------------------------------------------------
// Counting tiles by position

/// The tiles of color `c` on pattern line `l` of player `p`.
pub open spec fn line_tiles(s: GameState, p: int, c: int, l: int) -> int {
    if s.pattern_lines_colors[p][l] == Some(color_of_index(c)) {
        s.pattern_lines_occupancy[p][l] as int
    } else {
        0
    }
}

proof fn lemma_pattern5(s: GameState, p: int, c: int)
    ensures
        pattern_tiles_below(s, p, c, 5) == line_tiles(s, p, c, 0) + line_tiles(s, p, c, 1) + line_tiles(s, p, c, 2)
            + line_tiles(s, p, c, 3) + line_tiles(s, p, c, 4),
{
    reveal_with_fuel(pattern_tiles_below, 6);
}

proof fn lemma_placed6(f: [Factory; NUM_FACTORIES], c: int)
    ensures
        placed_below(f, c, 6) == f[0][c] + f[1][c] + f[2][c] + f[3][c] + f[4][c] + f[5][c],
{
    reveal_with_fuel(placed_below, 7);
}

proof fn lemma_total6(f: [Factory; NUM_FACTORIES])
    ensures
        placed_total_below(f, 6) == total(f[0]) + total(f[1]) + total(f[2]) + total(f[3]) + total(f[4]) + total(
            f[5],
        ),
{
    reveal_with_fuel(placed_total_below, 7);
}

/// The entries of the factories after a move.
proof fn lemma_after_move_entry(f: [Factory; NUM_FACTORIES], m: Move, i: int, c: int)
    requires
        0 <= i < 6,
        0 <= c < 5,
        m.factory_index < 6,
    ensures
        factories_after_move(f, m)[i][c] == (if m.factory_index == 5 {
            if i == 5 && c == color_index(m.color) {
                0int
            } else {
                f[i][c] as int
            }
        } else {
            if i == m.factory_index {
                0int
            } else if i == 5 && c != color_index(m.color) {
                ((f[5][c] + f[m.factory_index as int][c]) as u8) as int
            } else {
                f[i][c] as int
            }
        }),
{
    let g = factories_after_move(f, m);
    if i == 0 {
        assert(g[0][c] == g[0][c]);
    }
}


/// What a legal move takes and puts: its color is a color number, the tiles
/// it places and drops add up to those it takes, and a placed tile goes to a
/// line with room, no other color and a free field on the wall.
proof fn lemma_move_facts(s: GameState, m: Move)
    requires
        integrity(s),
        lines_within_capacity(s),
        random_move_ok(s, m),
    ensures
        color_index(m.color) < 5,
        m.factory_index < 6,
        m.places + m.discards == s.factories.factories[m.factory_index as int][color_index(m.color) as int],
        m.pattern_line_index <= 5,
        m.pattern_line_index < 5 ==> m.places >= 1 && s.pattern_lines_occupancy[s.current_player.0 as int][m.pattern_line_index as int]
            + m.places <= m.pattern_line_index + 1,
        m.pattern_line_index < 5 ==> s.pattern_lines_colors[s.current_player.0 as int][m.pattern_line_index as int] is None
            || s.pattern_lines_colors[s.current_player.0 as int][m.pattern_line_index as int] == Some(m.color),
        m.pattern_line_index < 5 ==> s.walls[s.current_player.0 as int] & (1u32 << (wall_pos(
            m.pattern_line_index as int,
            color_index(m.color) as int,
        ) as u32)) == 0,
        m.pattern_line_index == 5 ==> m.places == 0,
{
    lemma_color_index_roundtrip(m.color);
    let cp = s.current_player.0 as int;
    let fi = m.factory_index as int;
    let k = color_index(m.color) as int;
    if m.pattern_line_index < 5 {
        let l = m.pattern_line_index as int;
        assert(s.pattern_lines_occupancy[cp][l] <= l + 1);
        match s.pattern_lines_colors[cp][l] {
            Some(e) => {
                lemma_color_index_roundtrip(e);
                assert(color_index(e) == k);
            },
            None => {},
        }
    }
}

/// Every tile count of a sound state is at most 20 wherever it lies.
proof fn lemma_counts_bounded(s: GameState, c: int)
    requires
        integrity(s),
        0 <= c < 5,
    ensures
        placed_below(s.factories.factories, c, 6) <= 20,
        s.out_of_bag[c] + pattern_tiles(s, c) <= 20,
        pattern_tiles(s, c) >= 0,
        placed_below(s.factories.factories, c, 6) >= 0,
{
    lemma_pattern_nonneg(s, 0, c, 5);
    lemma_pattern_nonneg(s, 1, c, 5);
    lemma_placed_nonneg(s.factories.factories, c, 6);
    assert(tile_count(s, c) <= 20);
}

proof fn lemma_do_move_placed(f: [Factory; NUM_FACTORIES], m: Move, c: int)
    requires
        m.factory_index < 6,
        color_index(m.color) < 5,
        0 <= c < 5,
        m.places + m.discards == f[m.factory_index as int][color_index(m.color) as int],
        m.factory_index != 5 && c != color_index(m.color) ==> f[5][c] + f[m.factory_index as int][c] <= 255,
    ensures
        placed_below(factories_after_move(f, m), c, 6) == placed_below(f, c, 6) - (if c == color_index(m.color) {
            m.places + m.discards
        } else {
            0
        }),
{
    let g = factories_after_move(f, m);
    lemma_placed6(f, c);
    lemma_placed6(g, c);
    lemma_after_move_entry(f, m, 0, c);
    lemma_after_move_entry(f, m, 1, c);
    lemma_after_move_entry(f, m, 2, c);
    lemma_after_move_entry(f, m, 3, c);
    lemma_after_move_entry(f, m, 4, c);
    lemma_after_move_entry(f, m, 5, c);
}

#[verifier::spinoff_prover]
proof fn lemma_do_move_pattern(s: GameState, m: Move, c: int)
    requires
        s.current_player.0 < 2,
        m.pattern_line_index <= 5,
        color_index(m.color) < 5,
        0 <= c < 5,
        m.pattern_line_index < 5 ==> s.pattern_lines_colors[s.current_player.0 as int][m.pattern_line_index as int] is None
            || s.pattern_lines_colors[s.current_player.0 as int][m.pattern_line_index as int] == Some(m.color),
        m.pattern_line_index < 5 && s.pattern_lines_colors[s.current_player.0 as int][m.pattern_line_index as int] is None
            ==> s.pattern_lines_occupancy[s.current_player.0 as int][m.pattern_line_index as int] == 0,
        m.pattern_line_index < 5 ==> s.pattern_lines_occupancy[s.current_player.0 as int][m.pattern_line_index as int]
            + m.places <= 255,
    ensures
        pattern_tiles(do_move_spec(s, m), c) == pattern_tiles(s, c) + (if c == color_index(m.color)
            && m.pattern_line_index < 5 {
            m.places as int
        } else {
            0
        }),
{
    let t = do_move_spec(s, m);
    let cp = s.current_player.0 as int;
    let k = color_index(m.color) as int;
    lemma_pattern5(s, 0, c);
    lemma_pattern5(s, 1, c);
    lemma_pattern5(t, 0, c);
    lemma_pattern5(t, 1, c);
    lemma_color_index_roundtrip(m.color);
    crate::tile_color::lemma_color_of_index_roundtrip(c);
    assert forall|p: int, l: int| 0 <= p < 2 && 0 <= l < 5 implies #[trigger] line_tiles(t, p, c, l) == line_tiles(s, p, c, l)
        + (if p == cp && l == m.pattern_line_index && c == k { m.places as int } else { 0 }) by {
        if p == cp && l == m.pattern_line_index {
            assert(t.pattern_lines_colors[p][l] == Some(m.color));
            assert(t.pattern_lines_occupancy[p][l] == s.pattern_lines_occupancy[p][l] + m.places);
        } else {
            assert(t.pattern_lines_colors[p][l] == s.pattern_lines_colors[p][l]);
            assert(t.pattern_lines_occupancy[p][l] == s.pattern_lines_occupancy[p][l]);
        }
    }
}

/// A legal move keeps the tile count of every color.
proof fn lemma_do_move_tiles(s: GameState, m: Move, c: int)
    requires
        integrity(s),
        s.current_player.0 < 2,
        random_move_ok(s, m),
        move_in_bounds(s, m),
        0 <= c < 5,
        m.places + m.discards == s.factories.factories[m.factory_index as int][color_index(m.color) as int],
        m.pattern_line_index < 5 ==> s.pattern_lines_colors[s.current_player.0 as int][m.pattern_line_index as int] is None
            || s.pattern_lines_colors[s.current_player.0 as int][m.pattern_line_index as int] == Some(m.color),
        m.pattern_line_index == 5 ==> m.places == 0,
    ensures
        tile_count(do_move_spec(s, m), c) == tile_count(s, c),
        placed_below(do_move_spec(s, m).factories.factories, c, 6) == placed_below(s.factories.factories, c, 6)
            - (if c == color_index(m.color) { m.places + m.discards } else { 0 }),
{
    lemma_color_index_roundtrip(m.color);
    let k = color_index(m.color) as int;
    let fi = m.factory_index as int;
    if fi != 5 && c != k {
        assert(s.factories.factories[5][c] + s.factories.factories[fi][c] <= 255);
    }
    lemma_do_move_placed(s.factories.factories, m, c);
    if m.pattern_line_index < 5 {
        let cp = s.current_player.0 as int;
        let l = m.pattern_line_index as int;
        assert((s.pattern_lines_colors[cp][l] is None) == (s.pattern_lines_occupancy[cp][l] == 0));
    }
    lemma_do_move_pattern(s, m, c);
    let t = do_move_spec(s, m);
    assert(t.out_of_bag[c] == s.out_of_bag[c] + (if c == k { m.discards as int } else { 0 }));
}


proof fn lemma_do_move_in_bounds(s: GameState, m: Move)
    requires
        integrity(s),
        lines_within_capacity(s),
        random_move_ok(s, m),
        s.floor_line_progress[s.current_player.0 as int] + m.discards + (if takes_first_from_center(s, m) {
            1int
        } else {
            0int
        }) <= 255,
    ensures
        move_in_bounds(s, m),
{
    lemma_move_facts(s, m);
    lemma_integrity_bounds(s);
    let cp = s.current_player.0 as int;
    let fi = m.factory_index as int;
    let k = color_index(m.color) as int;
    let f = s.factories.factories;
    lemma_counts_bounded(s, k);
    lemma_placed6(f, k);
    if fi != 5 {
        assert forall|c: int| 0 <= c < 5 && c != k implies #[trigger] f[5][c] + f[fi][c] <= 255 by {
            lemma_counts_bounded(s, c);
            lemma_placed6(f, c);
        }
    }
    assert(m.discards <= 20);
    assert(s.out_of_bag[k] <= 20);
}

proof fn lemma_do_move_integrity(s: GameState, m: Move)
    requires
        integrity(s),
        lines_within_capacity(s),
        random_move_ok(s, m),
        move_in_bounds(s, m),
    ensures
        integrity(do_move_spec(s, m)),
        forall|c: int| 0 <= c < 5 ==> #[trigger] placed_below(do_move_spec(s, m).factories.factories, c, 6)
            <= placed_below(s.factories.factories, c, 6),
{
    lemma_move_facts(s, m);
    let t = do_move_spec(s, m);
    let f = s.factories.factories;
    let g = t.factories.factories;
    let cp = s.current_player.0 as int;
    assert forall|c: int| 0 <= c < 5 implies #[trigger] tile_count(t, c) == tile_count(s, c) && placed_below(g, c, 6)
        <= placed_below(f, c, 6) by {
        lemma_do_move_tiles(s, m, c);
    }
    assert(all_tiles(t) == all_tiles(s)) by {
        assert(tile_count(t, 0) == tile_count(s, 0));
        assert(tile_count(t, 1) == tile_count(s, 1));
        assert(tile_count(t, 2) == tile_count(s, 2));
        assert(tile_count(t, 3) == tile_count(s, 3));
        assert(tile_count(t, 4) == tile_count(s, 4));
    }
    assert forall|j: int| 0 <= j < 5 implies #[trigger] total(g[j]) <= 4 by {
        lemma_after_move_entry(f, m, j, 0);
        lemma_after_move_entry(f, m, j, 1);
        lemma_after_move_entry(f, m, j, 2);
        lemma_after_move_entry(f, m, j, 3);
        lemma_after_move_entry(f, m, j, 4);
        assert(total(f[j]) <= 4);
    }
    assert forall|p: int, l: int| 0 <= p < 2 && 0 <= l < 5 implies (#[trigger] t.pattern_lines_colors[p][l] is None) == (
        t.pattern_lines_occupancy[p][l] == 0) by {
        if !(p == cp && l == m.pattern_line_index) {
            assert(t.pattern_lines_colors[p][l] == s.pattern_lines_colors[p][l]);
            assert(t.pattern_lines_occupancy[p][l] == s.pattern_lines_occupancy[p][l]);
        }
    }
    assert forall|c: int| 0 <= c < 5 implies #[trigger] t.bag[c] <= 20 by {}
}


/// Law: a legal move keeps the integrity check passing, and can be made. The
/// state need only pass the check and have no overfull pattern line of the
/// player to move (as every state does whose moves are generated by
/// `get_possible_moves`); the integrity check bounds every other counter,
/// but not the floor line's, so a move whose tiles would overflow the byte
/// the floor line is kept in (where the move cannot be made) is left out.
pub proof fn lemma_do_move_keeps_integrity(s: GameState, m: Move)
    requires
        integrity(s),
        lines_within_capacity(s),
        legal_moves(s).contains(m),
        s.floor_line_progress[s.current_player.0 as int] + m.discards + (if takes_first_from_center(s, m) {
            1int
        } else {
            0int
        }) <= 255,
    ensures
        move_in_bounds(s, m),
        integrity(do_move_spec(s, m)),
{
    lemma_legal_move_shape(s, m);
    lemma_do_move_in_bounds(s, m);
    lemma_do_move_integrity(s, m);
}

/// A legal move made in a sound state stays within the counters and leads
/// to a sound state.
pub proof fn lemma_do_move_consistent(s: GameState, m: Move)
    requires
        consistent(s),
        legal_moves(s).contains(m),
    ensures
        move_in_bounds(s, m),
        consistent(do_move_spec(s, m)),
{
    lemma_legal_move_shape(s, m);
    assert(lines_within_capacity(s));
    lemma_move_facts(s, m);
    lemma_counts_bounded(s, 0);
    lemma_counts_bounded(s, 1);
    lemma_counts_bounded(s, 2);
    lemma_counts_bounded(s, 3);
    lemma_counts_bounded(s, 4);
    assert(s.floor_line_progress[s.current_player.0 as int] <= 101);
    lemma_counts_bounded(s, color_index(m.color) as int);
    lemma_placed6(s.factories.factories, color_index(m.color) as int);
    lemma_do_move_in_bounds(s, m);
    lemma_do_move_integrity(s, m);
    let t = do_move_spec(s, m);
    let f = s.factories.factories;
    let g = t.factories.factories;
    let cp = s.current_player.0 as int;
    lemma_placed_sum(f, 6);
    lemma_placed_sum(g, 6);
    assert(placed_below(g, 0, 6) <= placed_below(f, 0, 6));
    assert(placed_below(g, 1, 6) <= placed_below(f, 1, 6));
    assert(placed_below(g, 2, 6) <= placed_below(f, 2, 6));
    assert(placed_below(g, 3, 6) <= placed_below(f, 3, 6));
    assert(placed_below(g, 4, 6) <= placed_below(f, 4, 6));
    assert forall|p: int, l: int| 0 <= p < 2 && 0 <= l < 5 implies #[trigger] t.pattern_lines_occupancy[p][l] <= l + 1
        && line_color_free(t, p, l) by {
        assert(s.pattern_lines_occupancy[p][l] <= l + 1);
        assert(line_color_free(s, p, l));
        if !(p == cp && l == m.pattern_line_index) {
            assert(t.pattern_lines_colors[p][l] == s.pattern_lines_colors[p][l]);
            assert(t.pattern_lines_occupancy[p][l] == s.pattern_lines_occupancy[p][l]);
        } else {
            lemma_color_index_roundtrip(m.color);
        }
    }
    assert(total(t.out_of_bag) == total(s.out_of_bag) + m.discards);
    assert forall|p: int| 0 <= p < 2 implies 0 <= #[trigger] t.scores[p] <= 16 * popcount(t.walls[p]) by {
        assert(0 <= s.scores[p] <= 16 * popcount(s.walls[p]));
    }
}


// ---------------------------------------------------------------------------
// Bits of a wall

proof fn lemma_count_one_more(f: spec_fn(int) -> bool, g: spec_fn(int) -> bool, q: int, n: int)
    requires
        forall|p: int| 0 <= p < n && p != q ==> #[trigger] g(p) == f(p),
        0 <= q < n ==> g(q) && !f(q),
    ensures
        crate::bits::count_below(g, n) == crate::bits::count_below(f, n) + (if 0 <= q < n { 1int } else { 0int }),
    decreases n,
{
    if n > 0 {
        lemma_count_one_more(f, g, q, n - 1);
    }
}

/// Setting a free bit of `x` adds one to the count of the bits under mask
/// `m` where the mask has that bit.
proof fn lemma_popcount_set(x: u32, q: int, m: u32)
    requires
        0 <= q < 32,
        !crate::bits::bit(x, q),
    ensures
        popcount((x | (1u32 << (q as u32))) & m) == popcount(x & m) + (if crate::bits::bit(m, q) { 1int } else { 0int }),
        popcount(x | (1u32 << (q as u32))) == popcount(x) + 1,
{
    let y = x | (1u32 << (q as u32));
    assert forall|p: int| 0 <= p < 32 implies #[trigger] crate::bits::bit(y, p) == (p == q || crate::bits::bit(x, p)) by {
        crate::wall::lemma_or_bit(x, q as u32, p as u32);
    }
    assert forall|p: int| 0 <= p < 32 implies #[trigger] crate::bits::bit(y & m, p) == (crate::bits::bit(y, p)
        && crate::bits::bit(m, p)) && crate::bits::bit(x & m, p) == (crate::bits::bit(x, p) && crate::bits::bit(m, p)) by {
        crate::bits::lemma_bit_and(y, m, p);
        crate::bits::lemma_bit_and(x, m, p);
    }
    if crate::bits::bit(m, q) {
        lemma_count_one_more(|p: int| crate::bits::bit(x & m, p), |p: int| crate::bits::bit(y & m, p), q, 32);
    } else {
        crate::bits::lemma_count_below_ext(|p: int| crate::bits::bit(x & m, p), |p: int| crate::bits::bit(y & m, p), 32);
    }
    lemma_count_one_more(|p: int| crate::bits::bit(x, p), |p: int| crate::bits::bit(y, p), q, 32);
}

proof fn lemma_color_mask_bit_bits(l: u32, c: u32, d: u32)
    by (bit_vector)
    requires
        l < 5,
        c < 5,
        d < 5,
    ensures
        (((if c == 0 {
            0x1020_4081u32
        } else if c == 1 {
            0x0140_8102u32
        } else if c == 2 {
            0x0205_0204u32
        } else if c == 3 {
            0x0408_1408u32
        } else {
            0x0810_2050u32
        }) >> (6 * l + (l + d) % 5)) & 1u32 == 1u32) == (c == d),
{
}

/// The field of color `d` in row `l` belongs to the fields of color `c`
/// exactly when `c` is `d`.
proof fn lemma_color_mask_bit(l: int, c: int, d: int)
    requires
        0 <= l < 5,
        0 <= c < 5,
        0 <= d < 5,
    ensures
        crate::bits::bit(crate::wall::color_mask(c), wall_pos(l, d)) == (c == d),
        0 <= wall_pos(l, d) < 30,
{
    lemma_color_mask_bit_bits(l as u32, c as u32, d as u32);
    assert((6 * (l as u32) + ((l as u32) + (d as u32)) % 5) as int == wall_pos(l, d));
}

proof fn lemma_free_bit(w: u32, l: int, c: int)
    requires
        0 <= l < 5,
        0 <= c < 5,
    ensures
        (w & (1u32 << (wall_pos(l, c) as u32)) == 0) == !crate::bits::bit(w, wall_pos(l, c)),
{
    let q = wall_pos(l, c) as u32;
    assert(q < 30);
    assert(((w & (1u32 << q)) == 0) == !(((w >> q) & 1u32) == 1u32)) by (bit_vector)
        requires
            q < 32,
    ;
}

proof fn lemma_row_key_free_bits(w: u32, l: u32, j: u32)
    by (bit_vector)
    requires
        l < 5,
        j < 5,
        ((w >> (6 * l + j)) & 1u32) != 1u32,
    ensures
        ((w >> (6 * l)) & 31u32) != 31u32,
{
}

/// A row with a free field is not full.
proof fn lemma_row_key_free(w: u32, l: int, c: int)
    requires
        0 <= l < 5,
        0 <= c < 5,
        !crate::bits::bit(w, wall_pos(l, c)),
    ensures
        crate::wall::row_key(w, 6 * l) != 31,
{
    let j = ((l + c) % 5) as u32;
    lemma_row_key_free_bits(w, l as u32, j);
    assert((6 * l) / 6 * 6 == 6 * l);
}


// ---------------------------------------------------------------------------
// Scoring a round

/// Number of full pattern lines above `k` of player `p` whose color is `c`.
pub open spec fn full_of_color(s: GameState, p: int, c: int, k: int) -> int
    decreases k,
{
    if k <= 0 {
        0
    } else {
        full_of_color(s, p, c, k - 1) + (if line_full(s, p, k - 1) && line_color(s, p, k - 1) == c {
            1int
        } else {
            0int
        })
    }
}

/// Number of full pattern lines above `k` of player `p`.
pub open spec fn full_lines(s: GameState, p: int, k: int) -> int
    decreases k,
{
    if k <= 0 {
        0
    } else {
        full_lines(s, p, k - 1) + (if line_full(s, p, k - 1) { 1int } else { 0int })
    }
}

/// The round's new tiles go to fields of rows above `k` only: the other
/// fields of the wall keep their bits.
proof fn lemma_wall_after_bit(s: GameState, p: int, k: int, q: int)
    requires
        0 <= p < 2,
        0 <= k <= 5,
        0 <= q < 32,
        forall|r: int| 0 <= r < k && #[trigger] line_full(s, p, r) ==> q != wall_pos(r, line_color(s, p, r)),
    ensures
        crate::bits::bit(wall_after_lines(s, p, k), q) == crate::bits::bit(s.walls[p], q),
    decreases k,
{
    if k > 0 {
        lemma_wall_after_bit(s, p, k - 1, q);
        if line_full(s, p, k - 1) {
            let w = wall_after_lines(s, p, k - 1);
            let b = wall_pos(k - 1, line_color(s, p, k - 1));
            assert(0 <= line_color(s, p, k - 1) < 5) by {
                match s.pattern_lines_colors[p][k - 1] {
                    Some(c) => lemma_color_index_roundtrip(c),
                    None => {},
                }
            }
            assert(0 <= b < 30);
            crate::wall::lemma_or_bit(w, b as u32, q as u32);
        }
    }
}

/// Whether every full line of player `p` has a color whose wall field is free.
pub open spec fn full_lines_placeable(s: GameState, p: int) -> bool {
    forall|l: int| 0 <= l < 5 && #[trigger] line_full(s, p, l) ==> s.pattern_lines_colors[p][l] is Some
        && !crate::bits::bit(s.walls[p], wall_pos(l, line_color(s, p, l)))
}

proof fn lemma_line_color_range(s: GameState, p: int, l: int)
    ensures
        0 <= line_color(s, p, l) < 5,
{
    match s.pattern_lines_colors[p][l] {
        Some(c) => lemma_color_index_roundtrip(c),
        None => {},
    }
}

/// Each full line puts one new tile on the wall: the wall gains one tile of
/// its color for each full line.
proof fn lemma_wall_after_counts(s: GameState, p: int, c: int, k: int)
    requires
        0 <= p < 2,
        0 <= c < 5,
        0 <= k <= 5,
        full_lines_placeable(s, p),
    ensures
        popcount(wall_after_lines(s, p, k) & crate::wall::color_mask(c)) == popcount(s.walls[p] & crate::wall::color_mask(c))
            + full_of_color(s, p, c, k),
        popcount(wall_after_lines(s, p, k)) == popcount(s.walls[p]) + full_lines(s, p, k),
    decreases k,
{
    if k > 0 {
        lemma_wall_after_counts(s, p, c, k - 1);
        if line_full(s, p, k - 1) {
            let lc = line_color(s, p, k - 1);
            lemma_line_color_range(s, p, k - 1);
            let b = wall_pos(k - 1, lc);
            lemma_color_mask_bit(k - 1, c, lc);
            assert forall|r: int| 0 <= r < k - 1 && #[trigger] line_full(s, p, r) implies b != wall_pos(r, line_color(s, p, r)) by {
                lemma_line_color_range(s, p, r);
            }
            lemma_wall_after_bit(s, p, k - 1, b);
            lemma_popcount_set(wall_after_lines(s, p, k - 1), b, crate::wall::color_mask(c));
        }
    }
}

/// Each full line scores at most 16 points.
proof fn lemma_gain_bound(s: GameState, p: int, k: int)
    requires
        0 <= p < 2,
        0 <= k <= 5,
        full_lines_placeable(s, p),
    ensures
        0 <= gain_below(s, p, k) <= 16 * full_lines(s, p, k),
    decreases k,
{
    if k > 0 {
        lemma_gain_bound(s, p, k - 1);
        if line_full(s, p, k - 1) {
            let lc = line_color(s, p, k - 1);
            lemma_line_color_range(s, p, k - 1);
            let w = wall_after_lines(s, p, k - 1);
            let b = wall_pos(k - 1, lc);
            lemma_row_key_free(s.walls[p], k - 1, lc);
            crate::game_state::lemma_row_key_after_lines(s, p, k - 1, k - 1);
            assert(b / 6 * 6 == 6 * (k - 1));
            crate::wall::lemma_placed_tile_score_bound(w, b);
        }
    }
}

/// Clearing the full lines moves their tiles to the wall (one each) and to
/// the lid (the rest): the pattern lines lose exactly those tiles.
proof fn lemma_cleared_lines(s: GameState, p: int, c: int, k: int)
    requires
        0 <= p < 2,
        0 <= c < 5,
        0 <= k <= 5,
        integrity(s),
    ensures
        pattern_tiles_below(evaluated(s), p, c, k) + leftover_below(s, p, c, k) + full_of_color(s, p, c, k)
            == pattern_tiles_below(s, p, c, k),
    decreases k,
{
    if k > 0 {
        lemma_cleared_lines(s, p, c, k - 1);
        let l = k - 1;
        let e = evaluated(s);
        crate::tile_color::lemma_color_of_index_roundtrip(c);
        if line_full(s, p, l) {
            assert(e.pattern_lines_colors[p][l] is None);
            assert(s.pattern_lines_colors[p][l] is Some);
            let col = s.pattern_lines_colors[p][l]->0;
            lemma_color_index_roundtrip(col);
            assert((s.pattern_lines_colors[p][l] == Some(color_of_index(c))) == (line_color(s, p, l) == c));
        } else {
            assert(e.pattern_lines_colors[p][l] == s.pattern_lines_colors[p][l]);
            assert(e.pattern_lines_occupancy[p][l] == s.pattern_lines_occupancy[p][l]);
        }
    }
}


proof fn lemma_full_counts_bound(s: GameState, p: int, c: int, k: int)
    requires
        0 <= k,
    ensures
        0 <= full_of_color(s, p, c, k) <= k,
        0 <= full_lines(s, p, k) <= k,
    decreases k,
{
    if k > 0 {
        lemma_full_counts_bound(s, p, c, k - 1);
    }
}

proof fn lemma_placeable(s: GameState, p: int)
    requires
        consistent(s),
        0 <= p < 2,
    ensures
        full_lines_placeable(s, p),
{
    assert forall|l: int| 0 <= l < 5 && #[trigger] line_full(s, p, l) implies s.pattern_lines_colors[p][l] is Some
        && !crate::bits::bit(s.walls[p], wall_pos(l, line_color(s, p, l))) by {
        assert(line_color_free(s, p, l));
        assert((s.pattern_lines_colors[p][l] is None) == (s.pattern_lines_occupancy[p][l] == 0));
        let col = s.pattern_lines_colors[p][l]->0;
        lemma_color_index_roundtrip(col);
        lemma_free_bit(s.walls[p], l, color_index(col) as int);
    }
}

proof fn lemma_popcount_bound(x: u32)
    ensures
        popcount(x) <= 32,
{
    crate::bits::lemma_count_below_bound(|p: int| crate::bits::bit(x, p), 32);
}

/// In a sound state the round can be scored, and each player's new score
/// lies between 0 and 16 points per tile of the new wall.
proof fn lemma_round_scores(s: GameState, p: int)
    requires
        consistent(s),
        0 <= p < 2,
    ensures
        -32768 <= round_score_raw(s, p) <= 32767,
        0 <= round_score(s, p) <= 16 * popcount(wall_after_lines(s, p, 5)),
        round_score(s, p) <= 592,
{
    lemma_placeable(s, p);
    lemma_gain_bound(s, p, 5);
    lemma_full_counts_bound(s, p, 0, 5);
    lemma_wall_after_counts(s, p, 0, 5);
    lemma_popcount_bound(s.walls[p]);
    assert(0 <= s.scores[p] <= 16 * popcount(s.walls[p]));
    assert(0 <= floor_penalty(s, p) <= 14);
}

proof fn lemma_round_tiles(s: GameState, c: int)
    requires
        consistent(s),
        0 <= c < 5,
    ensures
        s.out_of_bag[c] + leftover_below(s, 0, c, 5) + leftover_below(s, 1, c, 5) <= 20,
        tile_count(evaluated(s), c) == tile_count(s, c),
{
    let e = evaluated(s);
    lemma_placeable(s, 0);
    lemma_placeable(s, 1);
    lemma_cleared_lines(s, 0, c, 5);
    lemma_cleared_lines(s, 1, c, 5);
    lemma_wall_after_counts(s, 0, c, 5);
    lemma_wall_after_counts(s, 1, c, 5);
    lemma_full_counts_bound(s, 0, c, 5);
    lemma_full_counts_bound(s, 1, c, 5);
    lemma_pattern_nonneg(e, 0, c, 5);
    lemma_pattern_nonneg(e, 1, c, 5);
    lemma_counts_bounded(s, c);
    crate::game_state::lemma_leftover_mono(s, 0, c, 0, 5);
    crate::game_state::lemma_leftover_mono(s, 1, c, 0, 5);
    assert(e.walls[0] == wall_after_lines(s, 0, 5));
    assert(e.walls[1] == wall_after_lines(s, 1, 5));
    assert(e.out_of_bag[c] == s.out_of_bag[c] + leftover_below(s, 0, c, 5) + leftover_below(s, 1, c, 5));
}

/// In a sound state whose factories are empty the round can be scored, and
/// scoring it leads to a sound state.
pub proof fn lemma_round_consistent(s: GameState)
    requires
        consistent(s),
        all_empty(s.factories.factories),
    ensures
        round_evaluable(s),
        consistent(evaluated(s)),
{
    let e = evaluated(s);
    lemma_placeable(s, 0);
    lemma_placeable(s, 1);
    assert forall|p: int, l: int| 0 <= p < 2 && 0 <= l < 5 && #[trigger] line_full(s, p, l) implies s.pattern_lines_colors[p][l] is Some
        && crate::wall::row_key(s.walls[p], 6 * l) != 31 by {
        assert(full_lines_placeable(s, p));
        lemma_line_color_range(s, p, l);
        lemma_row_key_free(s.walls[p], l, line_color(s, p, l));
    }
    assert forall|c: int| 0 <= c < 5 implies s.out_of_bag[c] + leftover_below(s, 0, c, 5) + #[trigger] leftover_below(s, 1, c, 5)
        <= 255 && tile_count(e, c) == tile_count(s, c) by {
        lemma_round_tiles(s, c);
    }
    lemma_round_scores(s, 0);
    lemma_round_scores(s, 1);
    assert forall|p: int| 0 <= p < 2 implies -32768 <= #[trigger] round_score_raw(s, p) <= 32767 by {
        lemma_round_scores(s, p);
    }
    assert(e.scores[0] == round_score(s, 0));
    assert(e.scores[1] == round_score(s, 1));
    assert forall|p: int| 0 <= p < 2 implies #[trigger] final_score(e, p) <= 32767 by {
        crate::bits::lemma_count_below_bound(|q: int| crate::wall::row_run(e.walls[p], q), 32);
        crate::bits::lemma_count_below_bound(|q: int| crate::wall::column_run(e.walls[p], q), 32);
        crate::bits::lemma_count_below_bound(|c: int| crate::wall::color_full(e.walls[p], c), 5);
    }
    // the state after scoring
    assert(all_tiles(e) == all_tiles(s)) by {
        assert(tile_count(e, 0) == tile_count(s, 0));
        assert(tile_count(e, 1) == tile_count(s, 1));
        assert(tile_count(e, 2) == tile_count(s, 2));
        assert(tile_count(e, 3) == tile_count(s, 3));
        assert(tile_count(e, 4) == tile_count(s, 4));
    }
    assert forall|j: int| 0 <= j < 5 implies #[trigger] total(e.factories.factories[j]) <= 4 by {
        assert(e.factories.factories[j][0] == 0);
        assert(e.factories.factories[j][1] == 0);
        assert(e.factories.factories[j][2] == 0);
        assert(e.factories.factories[j][3] == 0);
        assert(e.factories.factories[j][4] == 0);
    }
    assert forall|c: int| 0 <= c < 5 implies #[trigger] e.bag[c] <= 20 by {}
    assert forall|p: int, l: int| 0 <= p < 2 && 0 <= l < 5 implies (#[trigger] e.pattern_lines_colors[p][l] is None) == (
        e.pattern_lines_occupancy[p][l] == 0) && e.pattern_lines_occupancy[p][l] <= l + 1 && line_color_free(e, p, l) by {
        assert((s.pattern_lines_colors[p][l] is None) == (s.pattern_lines_occupancy[p][l] == 0));
        assert(s.pattern_lines_occupancy[p][l] <= l + 1);
        assert(line_color_free(s, p, l));
        if !line_full(s, p, l) {
            assert(e.pattern_lines_colors[p][l] == s.pattern_lines_colors[p][l]);
            assert(e.pattern_lines_occupancy[p][l] == s.pattern_lines_occupancy[p][l]);
            match s.pattern_lines_colors[p][l] {
                Some(col) => {
                    lemma_color_index_roundtrip(col);
                    let q = wall_pos(l, color_index(col) as int);
                    lemma_free_bit(s.walls[p], l, color_index(col) as int);
                    assert forall|r: int| 0 <= r < 5 && #[trigger] line_full(s, p, r) implies q != wall_pos(r, line_color(s, p, r)) by {
                        lemma_line_color_range(s, p, r);
                    }
                    lemma_wall_after_bit(s, p, 5, q);
                    assert(e.walls[p] == wall_after_lines(s, p, 5));
                    lemma_free_bit(e.walls[p], l, color_index(col) as int);
                },
                None => {},
            }
        }
    }
    lemma_total6(e.factories.factories);
    assert forall|p: int| 0 <= p < 2 implies 0 <= #[trigger] e.scores[p] <= 16 * popcount(e.walls[p]) by {
        lemma_round_scores(s, p);
        assert(e.walls[p] == wall_after_lines(s, p, 5));
    }
}


// ---------------------------------------------------------------------------
// Dealing and generating moves

/// Dealing new tiles after a round keeps a sound state sound.
pub proof fn lemma_deal_consistent(e: GameState, t: GameState)
    requires
        consistent(e),
        e.floor_line_progress[0] == 0,
        e.floor_line_progress[1] == 0,
        dealt_from(e, t),
    ensures
        consistent(t),
{
    let f = t.factories.factories;
    assert forall|c: int| 0 <= c < 5 implies #[trigger] tile_count(t, c) == tile_count(e, c) && t.bag[c] <= 20 by {
        lemma_placed_nonneg(f, c, 5);
        lemma_placed6(e.factories.factories, c);
        assert(placed_below(e.factories.factories, c, 6) == 0);
        assert(placed_below(f, c, 6) == placed_below(f, c, 5) + f[5][c]);
        assert(f[5][c] == 0);
        lemma_counts_bounded(e, c);
        assert(tile_count(e, c) <= 20);
        assert(e.bag[c] <= 20);
        assert(deal_outcome(e.bag, e.out_of_bag, f, t.bag, t.out_of_bag));
        assert(placed_below(f, c, 5) + t.bag[c] + t.out_of_bag[c] == e.bag[c] + e.out_of_bag[c]);
        assert(t.pattern_lines_colors == e.pattern_lines_colors);
        assert(t.pattern_lines_occupancy == e.pattern_lines_occupancy);
        lemma_pattern5(t, 0, c);
        lemma_pattern5(t, 1, c);
        lemma_pattern5(e, 0, c);
        lemma_pattern5(e, 1, c);
        assert(pattern_tiles(t, c) == pattern_tiles(e, c));
        assert(wall_tiles(t, c) == wall_tiles(e, c));
        if total(e.bag) > 20 {
            assert(placed_below(f, c, 5) + t.bag[c] == e.bag[c]);
        } else {
            assert(t.out_of_bag[c] == 0);
        }
    }
    assert(all_tiles(t) == all_tiles(e)) by {
        assert(tile_count(t, 0) == tile_count(e, 0));
        assert(tile_count(t, 1) == tile_count(e, 1));
        assert(tile_count(t, 2) == tile_count(e, 2));
        assert(tile_count(t, 3) == tile_count(e, 3));
        assert(tile_count(t, 4) == tile_count(e, 4));
    }
    assert forall|j: int| 0 <= j < 5 implies #[trigger] total(f[j]) <= 4 by {
        assert(total(f[j]) == clamp4(placed_total_below(f, 5) - 4 * j));
    }
    assert(placed_total_below(f, 6) == placed_total_below(f, 5) + total(f[5]));
    assert(total(f[5]) == 0) by {
        assert(f[5][0] == 0 && f[5][1] == 0 && f[5][2] == 0 && f[5][3] == 0 && f[5][4] == 0);
    }
    assert forall|p: int, l: int| 0 <= p < 2 && 0 <= l < 5 implies (#[trigger] t.pattern_lines_colors[p][l] is None) == (
        t.pattern_lines_occupancy[p][l] == 0) && t.pattern_lines_occupancy[p][l] <= l + 1 && line_color_free(t, p, l) by {
        assert((e.pattern_lines_colors[p][l] is None) == (e.pattern_lines_occupancy[p][l] == 0));
        assert(e.pattern_lines_occupancy[p][l] <= l + 1);
        assert(line_color_free(e, p, l));
    }
    assert forall|p: int| 0 <= p < 2 implies 0 <= #[trigger] t.scores[p] <= 16 * popcount(t.walls[p]) by {
        assert(0 <= e.scores[p] <= 16 * popcount(e.walls[p]));
    }
}

proof fn lemma_nonzero_pairs_bound(f: [Factory; NUM_FACTORIES], k: int)
    requires
        0 <= k <= 6,
    ensures
        nonzero_pairs_below(f, k) <= placed_total_below(f, k),
    decreases k,
{
    if k > 0 {
        lemma_nonzero_pairs_bound(f, k - 1);
        reveal_with_fuel(count_nonempty_below, 6);
    }
}

/// Move generation can run in every sound state.
pub proof fn lemma_consistent_generable(s: GameState)
    requires
        consistent(s),
    ensures
        moves_generable(s),
{
    if all_empty(s.factories.factories) {
        lemma_round_consistent(s);
    } else {
        lemma_nonzero_pairs_bound(s.factories.factories, 6);
    }
}

/// Move generation keeps a sound state sound, unless it ends the game: the
/// round goes on unchanged, or the round is scored and new tiles are dealt.
pub proof fn lemma_generation_consistent(s: GameState, t: GameState)
    requires
        consistent(s),
        !all_empty(s.factories.factories) ==> t == s,
        all_empty(s.factories.factories) ==> dealt_from(evaluated(s), t),
    ensures
        consistent(t),
{
    if all_empty(s.factories.factories) {
        lemma_round_consistent(s);
        lemma_deal_consistent(evaluated(s), t);
    }
}

/// The pattern lines of a player hold at most 15 tiles, all colors together.
proof fn lemma_pattern_sum(s: GameState, p: int)
    requires
        consistent(s),
        0 <= p < 2,
    ensures
        pattern_tiles_below(s, p, 0, 5) + pattern_tiles_below(s, p, 1, 5) + pattern_tiles_below(s, p, 2, 5)
            + pattern_tiles_below(s, p, 3, 5) + pattern_tiles_below(s, p, 4, 5) <= 15,
{
    lemma_pattern5(s, p, 0);
    lemma_pattern5(s, p, 1);
    lemma_pattern5(s, p, 2);
    lemma_pattern5(s, p, 3);
    lemma_pattern5(s, p, 4);
    assert forall|l: int| 0 <= l < 5 implies line_tiles(s, p, 0, l) + line_tiles(s, p, 1, l) + line_tiles(s, p, 2, l)
        + line_tiles(s, p, 3, l) + #[trigger] line_tiles(s, p, 4, l) <= l + 1 by {
        assert(s.pattern_lines_occupancy[p][l] <= l + 1);
    }
    assert(line_tiles(s, p, 4, 0) >= 0);
    assert(line_tiles(s, p, 4, 1) >= 0);
    assert(line_tiles(s, p, 4, 2) >= 0);
    assert(line_tiles(s, p, 4, 3) >= 0);
    assert(line_tiles(s, p, 4, 4) >= 0);
}

/// Two color masks share no field.
proof fn lemma_masks_disjoint(p: int)
    requires
        0 <= p < 32,
    ensures
        forall|i: int, j: int|
            0 <= i < j < 5 ==> !(crate::bits::bit(#[trigger] crate::wall::color_mask(i), p) && crate::bits::bit(
                #[trigger] crate::wall::color_mask(j),
                p,
            )),
{
    let q = p as u32;
    assert(0x1020_4081u32 & 0x0140_8102u32 == 0 && 0x1020_4081u32 & 0x0205_0204u32 == 0 && 0x1020_4081u32
        & 0x0408_1408u32 == 0 && 0x1020_4081u32 & 0x0810_2050u32 == 0 && 0x0140_8102u32 & 0x0205_0204u32 == 0
        && 0x0140_8102u32 & 0x0408_1408u32 == 0 && 0x0140_8102u32 & 0x0810_2050u32 == 0 && 0x0205_0204u32
        & 0x0408_1408u32 == 0 && 0x0205_0204u32 & 0x0810_2050u32 == 0 && 0x0408_1408u32 & 0x0810_2050u32 == 0)
        by (bit_vector);
    assert(((0u32 >> q) & 1u32) == 0u32) by (bit_vector);
    assert forall|i: int, j: int| 0 <= i < j < 5 implies !(crate::bits::bit(
        #[trigger] crate::wall::color_mask(i),
        p,
    ) && crate::bits::bit(#[trigger] crate::wall::color_mask(j), p)) by {
        crate::bits::lemma_bit_and(crate::wall::color_mask(i), crate::wall::color_mask(j), p);
    }
}

/// The fields of the five colors of a wall, counted below position `n`,
/// are no more than the fields of the wall.
proof fn lemma_color_counts_below(w: u32, n: int)
    requires
        0 <= n <= 32,
    ensures
        crate::bits::count_below(|p: int| crate::bits::bit(w & crate::wall::color_mask(0), p), n)
            + crate::bits::count_below(|p: int| crate::bits::bit(w & crate::wall::color_mask(1), p), n)
            + crate::bits::count_below(|p: int| crate::bits::bit(w & crate::wall::color_mask(2), p), n)
            + crate::bits::count_below(|p: int| crate::bits::bit(w & crate::wall::color_mask(3), p), n)
            + crate::bits::count_below(|p: int| crate::bits::bit(w & crate::wall::color_mask(4), p), n)
            <= crate::bits::count_below(|p: int| crate::bits::bit(w, p), n),
    decreases n,
{
    if n > 0 {
        lemma_color_counts_below(w, n - 1);
        let p = n - 1;
        lemma_masks_disjoint(p);
        crate::bits::lemma_bit_and(w, crate::wall::color_mask(0), p);
        crate::bits::lemma_bit_and(w, crate::wall::color_mask(1), p);
        crate::bits::lemma_bit_and(w, crate::wall::color_mask(2), p);
        crate::bits::lemma_bit_and(w, crate::wall::color_mask(3), p);
        crate::bits::lemma_bit_and(w, crate::wall::color_mask(4), p);
        assert(!(crate::bits::bit(crate::wall::color_mask(0), p) && crate::bits::bit(crate::wall::color_mask(1), p)));
        assert(!(crate::bits::bit(crate::wall::color_mask(0), p) && crate::bits::bit(crate::wall::color_mask(2), p)));
        assert(!(crate::bits::bit(crate::wall::color_mask(0), p) && crate::bits::bit(crate::wall::color_mask(3), p)));
        assert(!(crate::bits::bit(crate::wall::color_mask(0), p) && crate::bits::bit(crate::wall::color_mask(4), p)));
        assert(!(crate::bits::bit(crate::wall::color_mask(1), p) && crate::bits::bit(crate::wall::color_mask(2), p)));
        assert(!(crate::bits::bit(crate::wall::color_mask(1), p) && crate::bits::bit(crate::wall::color_mask(3), p)));
        assert(!(crate::bits::bit(crate::wall::color_mask(1), p) && crate::bits::bit(crate::wall::color_mask(4), p)));
        assert(!(crate::bits::bit(crate::wall::color_mask(2), p) && crate::bits::bit(crate::wall::color_mask(3), p)));
        assert(!(crate::bits::bit(crate::wall::color_mask(2), p) && crate::bits::bit(crate::wall::color_mask(4), p)));
        assert(!(crate::bits::bit(crate::wall::color_mask(3), p) && crate::bits::bit(crate::wall::color_mask(4), p)));
    }
}

/// After the round of a sound state is scored, tiles are left in the bag or
/// the lid: the walls hold at most 64 tiles and the pattern lines at most 30.
pub proof fn lemma_tiles_left_after_round(s: GameState)
    requires
        consistent(s),
        all_empty(s.factories.factories),
    ensures
        total(evaluated(s).bag) + total(evaluated(s).out_of_bag) > 0,
{
    lemma_round_consistent(s);
    let e = evaluated(s);
    assert(integrity(e));
    assert(e.factories == s.factories);
    lemma_placed6(e.factories.factories, 0);
    lemma_placed6(e.factories.factories, 1);
    lemma_placed6(e.factories.factories, 2);
    lemma_placed6(e.factories.factories, 3);
    lemma_placed6(e.factories.factories, 4);
    lemma_pattern_sum(e, 0);
    lemma_pattern_sum(e, 1);
    lemma_color_counts_below(e.walls[0], 32);
    lemma_color_counts_below(e.walls[1], 32);
    lemma_popcount_bound(e.walls[0]);
    lemma_popcount_bound(e.walls[1]);
    assert(all_tiles(e) == 100);
}

/// The state before the first deal is sound, and so is every first deal.
pub proof fn lemma_new_game_consistent(t: GameState)
    requires
        dealt_from(initial_state(), t),
    ensures
        consistent(initial_state()),
        consistent(t),
{
    let s = initial_state();
    assert forall|c: int| 0 <= c < 5 implies #[trigger] tile_count(s, c) == 20 by {
        lemma_placed6(s.factories.factories, c);
        lemma_pattern5(s, 0, c);
        lemma_pattern5(s, 1, c);
        crate::bits::lemma_popcount_zero(0u32 & crate::wall::color_mask(c));
        assert(0u32 & crate::wall::color_mask(c) == 0u32) by (bit_vector);
    }
    lemma_total6(s.factories.factories);
    crate::bits::lemma_popcount_zero(0u32);
    lemma_deal_consistent(s, t);
}


fn line_color_free_exec(s: &GameState, p: usize, l: usize) -> (r: bool)
    requires
        p < 2,
        l < 5,
    ensures
        r == line_color_free(*s, p as int, l as int),
{
    match s.pattern_lines_colors[p][l] {
        Some(c) => {
            let pos: u32 = (6 * l + (l + c.to_usize()) % 5) as u32;
            assert(pos == wall_pos(l as int, color_index(c) as int) as u32);
            s.walls[p] & (1u32 << pos) == 0
        },
        None => true,
    }
}

impl GameState {
    /// Whether the state is sound in the sense of `consistent`: the
    /// integrity check passes, both player markers are in range, no pattern
    /// line overflows or repeats a color of its wall row, the factories hold
    /// at most 20 tiles, the floor lines hold no more than the lid and the
    /// first player token, and each score lies between 0 and 16 points per
    /// wall tile.
    pub fn is_consistent(&self) -> (r: bool)
        ensures
            r == consistent(*self),
    {
        if !self.passes_integrity_check() {
            return false;
        }
        if !(self.current_player.0 < 2 && self.next_round_starting_player.0 < 2) {
            return false;
        }
        let mut p: usize = 0;
        while p < 2
            invariant
                p <= 2,
                forall|q: int, l: int| 0 <= q < p && 0 <= l < 5 ==>
                    #[trigger] self.pattern_lines_occupancy[q][l] <= l + 1 && line_color_free(*self, q, l),
            decreases 2 - p,
        {
            let mut l: usize = 0;
            while l < 5
                invariant
                    p < 2,
                    l <= 5,
                    forall|q: int, k: int| 0 <= q < p && 0 <= k < 5 ==>
                        #[trigger] self.pattern_lines_occupancy[q][k] <= k + 1 && line_color_free(*self, q, k),
                    forall|k: int| 0 <= k < l ==>
                        #[trigger] self.pattern_lines_occupancy[p as int][k] <= k + 1 && line_color_free(*self, p as int, k),
                decreases 5 - l,
            {
                if self.pattern_lines_occupancy[p][l] as usize > l + 1 {
                    return false;
                }
                if !line_color_free_exec(self, p, l) {
                    return false;
                }
                l = l + 1;
            }
            p = p + 1;
        }
        let mut placed: u32 = 0;
        let mut k: usize = 0;
        while k < 6
            invariant
                k <= 6,
                placed == placed_total_below(self.factories.factories, k as int),
                placed <= 1275 * k,
            decreases 6 - k,
        {
            let f = self.factories.factories[k];
            placed = placed + f[0] as u32 + f[1] as u32 + f[2] as u32 + f[3] as u32 + f[4] as u32;
            k = k + 1;
        }
        if placed > 20 {
            return false;
        }
        let lid = self.out_of_bag;
        let allowance: u32 = lid[0] as u32 + lid[1] as u32 + lid[2] as u32 + lid[3] as u32 + lid[4] as u32
            + if self.tile_taken_from_center { 1 } else { 0 };
        if self.floor_line_progress[0] as u32 + self.floor_line_progress[1] as u32 > allowance {
            return false;
        }
        let mut q: usize = 0;
        while q < 2
            invariant
                q <= 2,
                forall|j: int| 0 <= j < q ==> 0 <= #[trigger] self.scores[j] <= 16 * popcount(self.walls[j]),
            decreases 2 - q,
        {
            let tiles: u32 = crate::bits::count_ones(self.walls[q]);
            if self.scores[q] < 0 || self.scores[q] as u32 > 16 * tiles {
                return false;
            }
            q = q + 1;
        }
        true
    }
}


impl GameState {
    /// Whether `m` is a legal move in this sound state, whose factories hold
    /// tiles; making such a move keeps the state sound.
    pub fn is_legal_move(&self, m: Move) -> (r: bool)
        requires
            consistent(*self),
        ensures
            r == (!all_empty(self.factories.factories) && legal_moves(*self).contains(m)),
            r ==> move_in_bounds(*self, m) && consistent(do_move_spec(*self, m)),
    {
        if self.factories.is_empty() {
            return false;
        }
        proof {
            lemma_consistent_generable(*self);
        }
        let mut move_list = crate::move_list::MoveList::new();
        crate::game_state::push_all_moves(self, &mut move_list);
        let r = move_list.contains(m);
        proof {
            if r {
                lemma_do_move_consistent(*self, m);
            }
        }
        r
    }
}

} // verus!
