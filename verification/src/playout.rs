//! Random play: a move drawn at random among the moves of a position, as the
//! playouts of the tree search use it.
use vstd::prelude::*;
use rand::rngs::SmallRng;
use crate::factories::{Factory, NUM_FACTORIES, all_empty, total, count_nonempty_below,
    nth_nonempty_color, lemma_nonempty_count};
use crate::game_state::{GameState, line_move, pair_moves, line_moves_below, factory_moves_below,
    moves_below, legal_moves, lines_within_capacity, round_evaluable, evaluated, ends_game,
    end_of_game, dealt_from, integrity};
use crate::move_::Move;
use crate::rng::random_below;
use crate::tile_color::{TileColor, color_index, color_of_index};
use crate::wall::{wall_color_mask, get_row_mask, lemma_row_color_field};

verus! {

/// The 120 orders in which the five pattern lines can be tried.
pub const PERMUTATIONS: [[u8; 5]; 120] = [
    [0u8, 1, 2, 3, 4],
    [0u8, 1, 2, 4, 3],
    [0u8, 1, 3, 2, 4],
    [0u8, 1, 3, 4, 2],
    [0u8, 1, 4, 2, 3],
    [0u8, 1, 4, 3, 2],
    [0u8, 2, 1, 3, 4],
    [0u8, 2, 1, 4, 3],
    [0u8, 2, 3, 1, 4],
    [0u8, 2, 3, 4, 1],
    [0u8, 2, 4, 1, 3],
    [0u8, 2, 4, 3, 1],
    [0u8, 3, 1, 2, 4],
    [0u8, 3, 1, 4, 2],
    [0u8, 3, 2, 1, 4],
    [0u8, 3, 2, 4, 1],
    [0u8, 3, 4, 1, 2],
    [0u8, 3, 4, 2, 1],
    [0u8, 4, 1, 2, 3],
    [0u8, 4, 1, 3, 2],
    [0u8, 4, 2, 1, 3],
    [0u8, 4, 2, 3, 1],
    [0u8, 4, 3, 1, 2],
    [0u8, 4, 3, 2, 1],
    [1u8, 0, 2, 3, 4],
    [1u8, 0, 2, 4, 3],
    [1u8, 0, 3, 2, 4],
    [1u8, 0, 3, 4, 2],
    [1u8, 0, 4, 2, 3],
    [1u8, 0, 4, 3, 2],
    [1u8, 2, 0, 3, 4],
    [1u8, 2, 0, 4, 3],
    [1u8, 2, 3, 0, 4],
    [1u8, 2, 3, 4, 0],
    [1u8, 2, 4, 0, 3],
    [1u8, 2, 4, 3, 0],
    [1u8, 3, 0, 2, 4],
    [1u8, 3, 0, 4, 2],
    [1u8, 3, 2, 0, 4],
    [1u8, 3, 2, 4, 0],
    [1u8, 3, 4, 0, 2],
    [1u8, 3, 4, 2, 0],
    [1u8, 4, 0, 2, 3],
    [1u8, 4, 0, 3, 2],
    [1u8, 4, 2, 0, 3],
    [1u8, 4, 2, 3, 0],
    [1u8, 4, 3, 0, 2],
    [1u8, 4, 3, 2, 0],
    [2u8, 0, 1, 3, 4],
    [2u8, 0, 1, 4, 3],
    [2u8, 0, 3, 1, 4],
    [2u8, 0, 3, 4, 1],
    [2u8, 0, 4, 1, 3],
    [2u8, 0, 4, 3, 1],
    [2u8, 1, 0, 3, 4],
    [2u8, 1, 0, 4, 3],
    [2u8, 1, 3, 0, 4],
    [2u8, 1, 3, 4, 0],
    [2u8, 1, 4, 0, 3],
    [2u8, 1, 4, 3, 0],
    [2u8, 3, 0, 1, 4],
    [2u8, 3, 0, 4, 1],
    [2u8, 3, 1, 0, 4],
    [2u8, 3, 1, 4, 0],
    [2u8, 3, 4, 0, 1],
    [2u8, 3, 4, 1, 0],
    [2u8, 4, 0, 1, 3],
    [2u8, 4, 0, 3, 1],
    [2u8, 4, 1, 0, 3],
    [2u8, 4, 1, 3, 0],
    [2u8, 4, 3, 0, 1],
    [2u8, 4, 3, 1, 0],
    [3u8, 0, 1, 2, 4],
    [3u8, 0, 1, 4, 2],
    [3u8, 0, 2, 1, 4],
    [3u8, 0, 2, 4, 1],
    [3u8, 0, 4, 1, 2],
    [3u8, 0, 4, 2, 1],
    [3u8, 1, 0, 2, 4],
    [3u8, 1, 0, 4, 2],
    [3u8, 1, 2, 0, 4],
    [3u8, 1, 2, 4, 0],
    [3u8, 1, 4, 0, 2],
    [3u8, 1, 4, 2, 0],
    [3u8, 2, 0, 1, 4],
    [3u8, 2, 0, 4, 1],
    [3u8, 2, 1, 0, 4],
    [3u8, 2, 1, 4, 0],
    [3u8, 2, 4, 0, 1],
    [3u8, 2, 4, 1, 0],
    [3u8, 4, 0, 1, 2],
    [3u8, 4, 0, 2, 1],
    [3u8, 4, 1, 0, 2],
    [3u8, 4, 1, 2, 0],
    [3u8, 4, 2, 0, 1],
    [3u8, 4, 2, 1, 0],
    [4u8, 0, 1, 2, 3],
    [4u8, 0, 1, 3, 2],
    [4u8, 0, 2, 1, 3],
    [4u8, 0, 2, 3, 1],
    [4u8, 0, 3, 1, 2],
    [4u8, 0, 3, 2, 1],
    [4u8, 1, 0, 2, 3],
    [4u8, 1, 0, 3, 2],
    [4u8, 1, 2, 0, 3],
    [4u8, 1, 2, 3, 0],
    [4u8, 1, 3, 0, 2],
    [4u8, 1, 3, 2, 0],
    [4u8, 2, 0, 1, 3],
    [4u8, 2, 0, 3, 1],
    [4u8, 2, 1, 0, 3],
    [4u8, 2, 1, 3, 0],
    [4u8, 2, 3, 0, 1],
    [4u8, 2, 3, 1, 0],
    [4u8, 3, 0, 1, 2],
    [4u8, 3, 0, 2, 1],
    [4u8, 3, 1, 0, 2],
    [4u8, 3, 1, 2, 0],
    [4u8, 3, 2, 0, 1],
    [4u8, 3, 2, 1, 0]
];


/// Whether factory `k` holds a tile.
pub open spec fn factory_nonempty(f: [Factory; NUM_FACTORIES], k: int) -> bool {
    exists|c: int| 0 <= c < 5 && #[trigger] f[k][c] > 0
}

/// Number of factories below `k` that hold a tile.
pub open spec fn count_nonempty_factories(f: [Factory; NUM_FACTORIES], k: int) -> nat
    decreases k,
{
    if k <= 0 {
        0
    } else {
        count_nonempty_factories(f, k - 1) + (if factory_nonempty(f, k - 1) { 1nat } else { 0nat })
    }
}

proof fn lemma_nonempty_factories_count(f: [Factory; NUM_FACTORIES], k: int)
    requires
        0 <= k <= 6,
    ensures
        count_nonempty_factories(f, k) <= k,
        (count_nonempty_factories(f, k) == 0) == (forall|i: int| 0 <= i < k ==> !#[trigger] factory_nonempty(f, i)),
    decreases k,
{
    if k > 0 {
        lemma_nonempty_factories_count(f, k - 1);
    }
}

/// Whether factory `k` holds a tile, computed.
fn is_factory_nonempty(f: &[Factory; NUM_FACTORIES], k: usize) -> (r: bool)
    requires
        k < 6,
    ensures
        r == factory_nonempty(*f, k as int),
{
    let mut c: usize = 0;
    while c < 5
        invariant
            k < 6,
            c <= 5,
            forall|d: int| 0 <= d < c ==> #[trigger] f[k as int][d] == 0,
        decreases 5 - c,
    {
        if f[k][c] > 0 {
            return true;
        }
        c = c + 1;
    }
    false
}

/// The `j`-th factory (counted from 0) that holds a tile: the one that a
/// random move takes its tiles from where `j` was drawn.
pub fn nth_nonempty_factory(f: &[Factory; NUM_FACTORIES], j: usize) -> (k: usize)
    requires
        j < count_nonempty_factories(*f, 6),
    ensures
        k < 6,
        factory_nonempty(*f, k as int),
        count_nonempty_factories(*f, k as int) == j,
{
    let mut seen: usize = 0;
    let mut k: usize = 0;
    while k < NUM_FACTORIES
        invariant
            k <= 6,
            seen == count_nonempty_factories(*f, k as int),
            seen <= j,
            j < count_nonempty_factories(*f, 6),
        decreases 6 - k,
    {
        if is_factory_nonempty(f, k) {
            if seen == j {
                return k;
            }
            seen = seen + 1;
        }
        k = k + 1;
    }
    proof {
        assert(false);
    }
    0
}

/// Counts the factories that hold a tile.
fn count_nonempty_factories_exec(f: &[Factory; NUM_FACTORIES]) -> (n: usize)
    ensures
        n == count_nonempty_factories(*f, 6),
{
    let mut n: usize = 0;
    let mut k: usize = 0;
    while k < NUM_FACTORIES
        invariant
            k <= 6,
            n == count_nonempty_factories(*f, k as int),
            n <= k,
        decreases 6 - k,
    {
        if is_factory_nonempty(f, k) {
            n = n + 1;
        }
        k = k + 1;
    }
    n
}

/// Counts the colors of which a factory holds tiles.
fn count_nonempty_colors(f: &Factory) -> (n: usize)
    ensures
        n == count_nonempty_below(*f, 5),
{
    let mut n: usize = 0;
    let mut c: usize = 0;
    while c < 5
        invariant
            c <= 5,
            n == count_nonempty_below(*f, c as int),
            n <= c,
        decreases 5 - c,
    {
        if f[c] > 0 {
            n = n + 1;
        }
        c = c + 1;
    }
    n
}

/// The move that drops all `n` tiles of color `c` from factory `fi` on the
/// floor line.
pub open spec fn floor_move(t: GameState, fi: int, c: int) -> Move {
    Move {
        factory_index: fi as u8,
        color: color_of_index(c),
        pattern_line_index: 5,
        discards: t.factories.factories[fi][c],
        places: 0,
    }
}

/// What a random move can be in position `t`: it takes a color that a
/// factory holds, and either places the tiles on a pattern line that can take
/// them (the rest on the floor line) or drops them all on the floor line.
pub open spec fn random_move_ok(t: GameState, m: Move) -> bool {
    let fi = m.factory_index as int;
    let c = color_index(m.color) as int;
    &&& fi < 6
    &&& t.factories.factories[fi][c] > 0
    &&& if m.pattern_line_index < 5 {
        line_move(t, fi, c, m.pattern_line_index as int) == Some(m)
    } else {
        m == floor_move(t, fi, c)
    }
}

/// Whether a random move can be drawn in `s` without a crash or an endless
/// search: a finished round must be scorable and, unless it ends the game,
/// leave tiles to deal; the player to move has no overfull pattern line.
pub open spec fn random_move_possible(s: GameState) -> bool {
    if all_empty(s.factories.factories) {
        &&& round_evaluable(s)
        &&& integrity(evaluated(s))
        &&& !ends_game(evaluated(s)) ==> lines_within_capacity(evaluated(s)) && total(evaluated(s).bag) + total(
            evaluated(s).out_of_bag) > 0
    } else {
        lines_within_capacity(s)
    }
}

/// Draws a random move for the player to move. Where the factories are
/// empty the round is scored first; if that ends the game there is no move,
/// else new tiles are dealt. The move takes all tiles of a color from a
/// factory that holds tiles (factory and then color drawn uniformly among
/// those that hold tiles) and puts them on the first pattern line, in a
/// random order of the lines, that can take them; where none can, all go to
/// the floor line.
pub fn get_random_move(game_state: &mut GameState, rng: &mut SmallRng) -> (r: Option<Move>)
    requires
        random_move_possible(*old(game_state)),
    ensures
        r is None <==> all_empty(old(game_state).factories.factories) && ends_game(evaluated(*old(game_state))),
        r is None ==> *final(game_state) == end_of_game(evaluated(*old(game_state))),
        !all_empty(old(game_state).factories.factories) ==> *final(game_state) == *old(game_state),
        all_empty(old(game_state).factories.factories) && r is Some ==> dealt_from(
            evaluated(*old(game_state)),
            *final(game_state),
        ),
        r matches Some(m) ==> random_move_ok(*final(game_state), m) && legal_moves(*final(game_state)).contains(m),
        r matches Some(m) ==> exists|k: int|
            0 <= k < 120 && m == #[trigger] first_accepting(
                *final(game_state),
                m.factory_index as int,
                color_index(m.color) as int,
                PERMUTATIONS[k],
                0,
            ),
        r matches Some(m) ==> (m.pattern_line_index == 5 <==> forall|l: int|
            0 <= l < 5 ==> #[trigger] line_move(
                *final(game_state),
                m.factory_index as int,
                color_index(m.color) as int,
                l,
            ) is None),
{
    let is_round_over = game_state.factories.is_empty();
    if is_round_over {
        let is_game_over = game_state.evaluate_round();
        if is_game_over {
            return None;
        }
        let ghost e0 = *game_state;
        proof {
            crate::game_state::lemma_integrity_bounds(*game_state);
        }
        game_state.fill_factories(rng);
        proof {
            lemma_dealt_not_empty(e0, *game_state);
        }
    }
    let ghost t = *game_state;
    let factories = &game_state.factories.factories;
    proof {
        lemma_nonempty_factories_count(*factories, 6);
        let (i, d) = choose|i: int, d: int| 0 <= i < 6 && 0 <= d < 5 && factories[i][d] != 0;
        assert(factory_nonempty(*factories, i));
    }
    let n_factories = count_nonempty_factories_exec(factories);
    let random_factory_index = nth_nonempty_factory(factories, random_below(rng, n_factories));
    let factory = factories[random_factory_index];
    proof {
        lemma_nonempty_count(factory, 5);
    }
    let n_colors = count_nonempty_colors(&factory);
    let random_tile_color = nth_nonempty_color(&factory, random_below(rng, n_colors));
    let drawn_order = random_below(rng, 120);
    let try_ordering = PERMUTATIONS[drawn_order];
    assert(covers_all_lines(try_ordering));
    let m = move_from_draws(game_state, random_factory_index, random_tile_color, try_ordering);
    assert(m == first_accepting(*game_state, m.factory_index as int, color_index(m.color) as int, PERMUTATIONS[drawn_order as int], 0));
    Some(m)
}

/// The move that the draws select: of the lines in `order`, the first that
/// can take the tiles of color `c` from factory `fi`, or the floor line
/// where none of them can.
pub open spec fn first_accepting(t: GameState, fi: int, c: int, order: [u8; 5], j: int) -> Move
    decreases 5 - j,
{
    if j >= 5 {
        floor_move(t, fi, c)
    } else {
        match line_move(t, fi, c, order[j] as int) {
            Some(m) => m,
            None => first_accepting(t, fi, c, order, j + 1),
        }
    }
}

/// The move of a random move's draws: the tiles of color `c` from factory
/// `fi` go onto the first line of `order` that can take them (the rest on
/// the floor line), or all onto the floor line where none can. The move is
/// legal, and where `order` tries every line it is a full discard exactly
/// when no line can take the tiles.
pub fn move_from_draws(t: &GameState, fi: usize, c: usize, order: [u8; 5]) -> (m: Move)
    requires
        fi < 6,
        c < 5,
        t.factories.factories[fi as int][c as int] > 0,
        lines_within_capacity(*t),
        forall|i: int| 0 <= i < 5 ==> #[trigger] order[i] < 5,
    ensures
        m == first_accepting(*t, fi as int, c as int, order, 0),
        m.factory_index == fi,
        color_index(m.color) == c,
        random_move_ok(*t, m),
        legal_moves(*t).contains(m),
        covers_all_lines(order) ==> (m.pattern_line_index == 5 <==> forall|l: int|
            0 <= l < 5 ==> #[trigger] line_move(*t, fi as int, c as int, l) is None),
{
    let current_player: usize = t.current_player.to_usize();
    let pattern_line_colors = t.pattern_lines_colors[current_player];
    let pattern_lines_occupancy = t.pattern_lines_occupancy[current_player];
    let wall_occupancy = t.walls[current_player];
    let tile_number = t.factories.factories[fi][c];
    proof {
        crate::tile_color::lemma_color_index_roundtrip(color_of_index(c as int));
    }
    let color_mask = wall_color_mask(c);
    let mut j: usize = 0;
    while j < 5
        invariant
            j <= 5,
            lines_within_capacity(*t),
            current_player == t.current_player.0,
            fi < 6,
            c < 5,
            tile_number == t.factories.factories[fi as int][c as int],
            tile_number > 0,
            pattern_line_colors == t.pattern_lines_colors[current_player as int],
            pattern_lines_occupancy == t.pattern_lines_occupancy[current_player as int],
            wall_occupancy == t.walls[current_player as int],
            color_mask == crate::wall::color_mask(c as int),
            forall|i: int| 0 <= i < 5 ==> #[trigger] order[i] < 5,
            forall|k: int| 0 <= k < j ==> #[trigger] line_move(*t, fi as int, c as int, order[k] as int) is None,
            first_accepting(*t, fi as int, c as int, order, 0) == first_accepting(
                *t,
                fi as int,
                c as int,
                order,
                j as int,
            ),
        decreases 5 - j,
    {
        let pattern_line_index = order[j];
        let l = pattern_line_index as usize;
        let color_ok = match pattern_line_colors[l] {
            Some(existing) => existing.to_usize() == c,
            None => true,
        };
        if color_ok {
            let row_mask = get_row_mask(l);
            proof {
                lemma_row_color_field(l as u32, c as u32);
            }
            let tile = row_mask & color_mask;
            let already_occupied = wall_occupancy & tile > 0;
            if !already_occupied {
                let pattern_line_space: u8 = 1 + pattern_line_index - pattern_lines_occupancy[l];
                if pattern_line_space != 0 {
                    let can_place = if tile_number < pattern_line_space { tile_number } else { pattern_line_space };
                    let cannot_place = tile_number - can_place;
                    let m = Move {
                        factory_index: fi as u8,
                        color: TileColor::from_usize(c),
                        pattern_line_index,
                        discards: cannot_place,
                        places: can_place,
                    };
                    proof {
                        assert(line_move(*t, fi as int, c as int, l as int) == Some(m));
                        lemma_line_move_legal(*t, fi as int, c as int, l as int);
                    }
                    return m;
                }
            }
        }
        j = j + 1;
    }
    let m = Move {
        factory_index: fi as u8,
        color: TileColor::from_usize(c),
        pattern_line_index: 5,
        discards: tile_number,
        places: 0,
    };
    proof {
        lemma_floor_move_legal(*t, fi as int, c as int);
        if covers_all_lines(order) {
            assert forall|l: int| 0 <= l < 5 implies #[trigger] line_move(*t, fi as int, c as int, l) is None by {
                assert(tries_line(order, l));
                if order[0] == l {
                    assert(line_move(*t, fi as int, c as int, order[0] as int) is None);
                } else if order[1] == l {
                    assert(line_move(*t, fi as int, c as int, order[1] as int) is None);
                } else if order[2] == l {
                    assert(line_move(*t, fi as int, c as int, order[2] as int) is None);
                } else if order[3] == l {
                    assert(line_move(*t, fi as int, c as int, order[3] as int) is None);
                } else {
                    assert(line_move(*t, fi as int, c as int, order[4] as int) is None);
                }
            }
        }
    }
    m
}

/// Whether the order `p` tries each of the five pattern lines.
pub open spec fn covers_all_lines(p: [u8; 5]) -> bool {
    &&& tries_line(p, 0)
    &&& tries_line(p, 1)
    &&& tries_line(p, 2)
    &&& tries_line(p, 3)
    &&& tries_line(p, 4)
}

/// Whether the order `p` tries pattern line `l`.
pub open spec fn tries_line(p: [u8; 5], l: int) -> bool {
    p[0] == l || p[1] == l || p[2] == l || p[3] == l || p[4] == l
}


proof fn lemma_placed_total_pos(f: [Factory; NUM_FACTORIES], k: int)
    requires
        0 <= k <= 5,
        crate::factories::placed_total_below(f, k) > 0,
    ensures
        exists|i: int, c: int| 0 <= i < k && 0 <= c < 5 && #[trigger] f[i][c] > 0,
    decreases k,
{
    if k > 0 {
        if crate::factories::placed_total_below(f, k - 1) > 0 {
            lemma_placed_total_pos(f, k - 1);
        } else {
            assert(total(f[k - 1]) > 0);
            if f[k - 1][0] > 0 {
                assert(f[k - 1][0] > 0);
            } else if f[k - 1][1] > 0 {
                assert(f[k - 1][1] > 0);
            } else if f[k - 1][2] > 0 {
                assert(f[k - 1][2] > 0);
            } else if f[k - 1][3] > 0 {
                assert(f[k - 1][3] > 0);
            } else {
                assert(f[k - 1][4] > 0);
            }
        }
    }
}

pub(crate) proof fn lemma_dealt_not_empty(e: GameState, t: GameState)
    requires
        dealt_from(e, t),
        total(e.bag) + total(e.out_of_bag) > 0,
    ensures
        !all_empty(t.factories.factories),
{
    lemma_placed_total_pos(t.factories.factories, 5);
}

proof fn lemma_contains_concat(a: Seq<Move>, b: Seq<Move>, x: Move)
    ensures
        (a.contains(x) || b.contains(x)) ==> (a + b).contains(x),
{
    if a.contains(x) {
        let i = choose|i: int| 0 <= i < a.len() && a[i] == x;
        assert((a + b)[i] == x);
    } else if b.contains(x) {
        let i = choose|i: int| 0 <= i < b.len() && b[i] == x;
        assert((a + b)[a.len() + i] == x);
    }
}

proof fn lemma_line_moves_contains(t: GameState, fi: int, c: int, l: int, b: int)
    requires
        0 <= l < b,
        line_move(t, fi, c, l) is Some,
    ensures
        line_moves_below(t, fi, c, b).contains(line_move(t, fi, c, l)->0),
    decreases b,
{
    let m = line_move(t, fi, c, l)->0;
    if b == l + 1 {
        assert(line_moves_below(t, fi, c, b) == line_moves_below(t, fi, c, l) + seq![m]);
        lemma_contains_concat(line_moves_below(t, fi, c, l), seq![m], m);
        assert(seq![m][0] == m);
    } else {
        lemma_line_moves_contains(t, fi, c, l, b - 1);
        let tail = match line_move(t, fi, c, b - 1) {
            Some(m2) => seq![m2],
            None => Seq::<Move>::empty(),
        };
        lemma_contains_concat(line_moves_below(t, fi, c, b - 1), tail, m);
    }
}

proof fn lemma_factory_moves_contains(t: GameState, fi: int, c: int, b: int, m: Move)
    requires
        0 <= c < b,
        pair_moves(t, fi, c).contains(m),
    ensures
        factory_moves_below(t, fi, b).contains(m),
    decreases b,
{
    if b == c + 1 {
        lemma_contains_concat(factory_moves_below(t, fi, c), pair_moves(t, fi, c), m);
    } else {
        lemma_factory_moves_contains(t, fi, c, b - 1, m);
        lemma_contains_concat(factory_moves_below(t, fi, b - 1), pair_moves(t, fi, b - 1), m);
    }
}

proof fn lemma_moves_contains(t: GameState, fi: int, b: int, m: Move)
    requires
        0 <= fi < b,
        factory_moves_below(t, fi, 5).contains(m),
    ensures
        moves_below(t, b).contains(m),
    decreases b,
{
    if b == fi + 1 {
        lemma_contains_concat(moves_below(t, fi), factory_moves_below(t, fi, 5), m);
    } else {
        lemma_moves_contains(t, fi, b - 1, m);
        lemma_contains_concat(moves_below(t, b - 1), factory_moves_below(t, b - 1, 5), m);
    }
}

/// A move of a pair of factory and color is a legal move.
proof fn lemma_pair_move_legal(t: GameState, fi: int, c: int, m: Move)
    requires
        0 <= fi < 6,
        0 <= c < 5,
        pair_moves(t, fi, c).contains(m),
    ensures
        legal_moves(t).contains(m),
{
    lemma_factory_moves_contains(t, fi, c, 5, m);
    lemma_moves_contains(t, fi, 6, m);
}

proof fn lemma_line_move_legal(t: GameState, fi: int, c: int, l: int)
    requires
        0 <= fi < 6,
        0 <= c < 5,
        0 <= l < 5,
        t.factories.factories[fi][c] > 0,
        line_move(t, fi, c, l) is Some,
    ensures
        legal_moves(t).contains(line_move(t, fi, c, l)->0),
{
    let m = line_move(t, fi, c, l)->0;
    lemma_line_moves_contains(t, fi, c, l, 5);
    lemma_contains_concat(seq![floor_move(t, fi, c)], line_moves_below(t, fi, c, 5), m);
    assert(pair_moves(t, fi, c) == seq![floor_move(t, fi, c)] + line_moves_below(t, fi, c, 5));
    lemma_pair_move_legal(t, fi, c, m);
}

pub(crate) proof fn lemma_floor_move_legal(t: GameState, fi: int, c: int)
    requires
        0 <= fi < 6,
        0 <= c < 5,
        t.factories.factories[fi][c] > 0,
    ensures
        legal_moves(t).contains(floor_move(t, fi, c)),
{
    let m = floor_move(t, fi, c);
    lemma_contains_concat(seq![m], line_moves_below(t, fi, c, 5), m);
    assert(seq![m][0] == m);
    assert(pair_moves(t, fi, c) == seq![m] + line_moves_below(t, fi, c, 5));
    lemma_pair_move_legal(t, fi, c, m);
}

} // verus!
