//! The first feature layout of a whole position: the displays, the center,
//! and each player's pattern lines, wall and score.
use vstd::prelude::*;
use crate::game_state::GameState;
use crate::factories::{Factory, NUM_FACTORIES, factory_number, NUM_POSSIBLE_FACTORY_PERMUTATIONS, CENTER_FACTORY_INDEX};
use crate::tile_color::TileColor;
use crate::encoding::factories::numbered;
use crate::encoding::features::InputChange;
use crate::encoding::factory_encoding::{add_non_center_factory_encoding, add_center_factory_encoding,
    NON_CENTER_FACTORY_ENCODING_SIZE, MAX_TILES_OF_COLOR_IN_CENTER};
use crate::encoding::pattern_line_encoding::{add_pattern_line_encoding, line_feature, PLAYER_PATTERN_LINE_ENCODING_SIZE};
use crate::encoding::factory_encoding::FACTORY_ENCODING_SIZE;
use crate::encoding::wall_encoding::{add_wall_encoding, wall_feature};
use crate::encoding::score_encoding::{add_player_score_encoding, clamped_progress, clamped_score,
    OFFSET_PLAYER_SCORE, PLAYER_SCORE_ENCODING_SIZE};
use crate::game_state::floor_penalty_at;

verus! {

/// The content numbers of the five displays.
pub open spec fn display_numbers(f: [Factory; NUM_FACTORIES]) -> Seq<int> {
    Seq::new(5, |i: int| factory_number(f[i]@))
}

/// The display counts after the displays with the first `k` of the content
/// numbers `ns` are counted into `c`.
pub open spec fn counts_after(c: Seq<usize>, ns: Seq<int>, k: int) -> Seq<usize>
    decreases k,
{
    if k <= 0 {
        c
    } else {
        let before = counts_after(c, ns, k - 1);
        before.update(ns[k - 1], (before[ns[k - 1]] + 1) as usize)
    }
}

/// The changes of counting display `k` into counts `c`.
pub open spec fn display_changes(c: Seq<usize>, n: int) -> Seq<InputChange> {
    (if c[n] != 0 {
        seq![InputChange::Off((n * 5 + c[n] - 1) as usize)]
    } else {
        Seq::empty()
    }) + seq![InputChange::On((n * 5 + c[n]) as usize)]
}

/// The changes of counting the displays with the first `k` of the content
/// numbers `ns` into `c`.
pub open spec fn displays_changes(c: Seq<usize>, ns: Seq<int>, k: int) -> Seq<InputChange>
    decreases k,
{
    if k <= 0 {
        Seq::empty()
    } else {
        displays_changes(c, ns, k - 1) + display_changes(counts_after(c, ns, k - 1), ns[k - 1])
    }
}

/// The changes that a player's pattern lines, wall and score switch on.
pub open spec fn player_encoding(g: GameState, p: int) -> Seq<InputChange> {
    Seq::new(
        5,
        |l: int|
            InputChange::On(
                (line_feature(l, g.pattern_lines_occupancy[p][l] as int, g.pattern_lines_colors[p][l]) + FACTORY_ENCODING_SIZE
                    + p * PLAYER_PATTERN_LINE_ENCODING_SIZE) as usize,
            ),
    ) + Seq::new(15, |i: int| InputChange::On(wall_feature(g.walls[p], p, i) as usize)) + ({
        let offset = OFFSET_PLAYER_SCORE + p * PLAYER_SCORE_ENCODING_SIZE;
        let progress = g.floor_line_progress[p] as usize;
        (if g.next_round_starting_player.0 == p && g.tile_taken_from_center {
            seq![InputChange::On(offset as usize)]
        } else {
            Seq::empty()
        }) + seq![
            InputChange::On((offset + 1 + clamped_score(g.scores[p], progress)) as usize),
            InputChange::On((offset + 1 + 120 + clamped_progress(progress)) as usize),
        ]
    })
}

/// Whether a position can be encoded: the five displays have numbers, a
/// pattern line with tiles has a color and at most as many tiles as it has
/// places, and no score leaves `i16` when the floor line is counted.
pub open spec fn first_layout_encodable(g: GameState, counter: Seq<usize>) -> bool {
    &&& forall|k: int| 0 <= k < 5 ==> numbered(#[trigger] g.factories.factories[k])
    &&& forall|m: int| 0 <= m < 71 ==> #[trigger] counter[m] < 0x0100_0000
    &&& forall|p: int, l: int|
        0 <= p < 2 && 0 <= l < 5 ==> #[trigger] g.pattern_lines_occupancy[p][l] <= l + 1 && (
        g.pattern_lines_occupancy[p][l] == 0 || g.pattern_lines_colors[p][l] is Some)
    &&& forall|p: int|
        0 <= p < 2 ==> #[trigger] g.scores[p] - floor_penalty_at(clamped_progress(g.floor_line_progress[p] as usize))
            >= i16::MIN
}

proof fn lemma_counts_after(c: Seq<usize>, ns: Seq<int>, k: int, m: int)
    requires
        c.len() == 71,
        ns.len() == 5,
        0 <= k <= 5,
        forall|i: int| 0 <= i < 5 ==> 0 <= #[trigger] ns[i] < 71,
        forall|i: int| 0 <= i < 71 ==> #[trigger] c[i] < 0x0100_0000,
    ensures
        counts_after(c, ns, k).len() == 71,
        0 <= m < 71 ==> counts_after(c, ns, k)[m] <= c[m] + k,
    decreases k,
{
    if k > 0 {
        lemma_counts_after(c, ns, k - 1, m);
        lemma_counts_after(c, ns, k - 1, ns[k - 1]);
    }
}

/// Switches on the inputs of a position, counting its five displays into
/// `multi_factory_counter`, and returns the changes: for each display the
/// changes of its count, the center's count features, then each player's
/// pattern lines, wall and score.
#[verifier::rlimit(60)]
pub fn encode_game_state(
    game_state: &GameState,
    multi_factory_counter: &mut [usize; NUM_POSSIBLE_FACTORY_PERMUTATIONS],
) -> (r: Vec<InputChange>)
    requires
        first_layout_encodable(*game_state, old(multi_factory_counter)@),
    ensures
        final(multi_factory_counter)@ == counts_after(
            old(multi_factory_counter)@,
            display_numbers(game_state.factories.factories),
            5,
        ),
        r@ == displays_changes(old(multi_factory_counter)@, display_numbers(game_state.factories.factories), 5) + Seq::new(
            5,
            |c: int|
                InputChange::On(
                    (NON_CENTER_FACTORY_ENCODING_SIZE + c * MAX_TILES_OF_COLOR_IN_CENTER
                        + game_state.factories.factories[CENTER_FACTORY_INDEX as int][c]) as usize,
                ),
        ) + player_encoding(*game_state, 0) + player_encoding(*game_state, 1),
{
    let g = game_state;
    let ghost c0 = multi_factory_counter@;
    let ghost ns = display_numbers(g.factories.factories);
    proof {
        assert forall|i: int| 0 <= i < 5 implies 0 <= #[trigger] ns[i] < 71 by {
            assert(numbered(g.factories.factories[i]));
        }
    }
    let mut changes: Vec<InputChange> = Vec::new();
    let mut k: usize = 0;
    while k < 5
        invariant
            k <= 5,
            first_layout_encodable(*g, c0),
            c0.len() == 71,
            ns == display_numbers(g.factories.factories),
            forall|i: int| 0 <= i < 5 ==> 0 <= #[trigger] ns[i] < 71,
            multi_factory_counter@ == counts_after(c0, ns, k as int),
            changes@ == displays_changes(c0, ns, k as int),
        decreases 5 - k,
    {
        let ghost n = ns[k as int];
        proof {
            assert(numbered(g.factories.factories[k as int]));
            assert(n == factory_number(g.factories.factories[k as int]@));
            lemma_counts_after(c0, ns, k as int, n);
        }
        let mut more = add_non_center_factory_encoding(&g.factories.factories[k], multi_factory_counter);
        changes.append(&mut more);
        k = k + 1;
    }
    let ghost after_displays = changes@;
    let mut color: usize = 0;
    while color < 5
        invariant
            color <= 5,
            changes@ == after_displays + Seq::new(
                color as nat,
                |c: int|
                    InputChange::On(
                        (NON_CENTER_FACTORY_ENCODING_SIZE + c * MAX_TILES_OF_COLOR_IN_CENTER
                            + g.factories.factories[CENTER_FACTORY_INDEX as int][c]) as usize,
                    ),
            ),
        decreases 5 - color,
    {
        changes.push(add_center_factory_encoding(g.factories.factories[CENTER_FACTORY_INDEX][color] as usize, color));
        color = color + 1;
        assert(changes@ =~= after_displays + Seq::new(
            color as nat,
            |c: int|
                InputChange::On(
                    (NON_CENTER_FACTORY_ENCODING_SIZE + c * MAX_TILES_OF_COLOR_IN_CENTER
                        + g.factories.factories[CENTER_FACTORY_INDEX as int][c]) as usize,
                ),
        ));
    }
    let mut more = encode_player(g, 0);
    changes.append(&mut more);
    let mut more = encode_player(g, 1);
    changes.append(&mut more);
    changes
}

/// The changes that player `p`'s pattern lines, wall and score switch on.
fn encode_player(g: &GameState, p: usize) -> (r: Vec<InputChange>)
    requires
        p < 2,
        forall|q: int, l: int|
            0 <= q < 2 && 0 <= l < 5 ==> #[trigger] g.pattern_lines_occupancy[q][l] <= l + 1 && (
            g.pattern_lines_occupancy[q][l] == 0 || g.pattern_lines_colors[q][l] is Some),
        forall|q: int|
            0 <= q < 2 ==> #[trigger] g.scores[q] - floor_penalty_at(clamped_progress(g.floor_line_progress[q] as usize))
                >= i16::MIN,
    ensures
        r@ == player_encoding(*g, p as int),
{
    let mut changes: Vec<InputChange> = Vec::new();
    let mut line: usize = 0;
    while line < 5
        invariant
            line <= 5,
            p < 2,
            forall|q: int, l: int|
                0 <= q < 2 && 0 <= l < 5 ==> #[trigger] g.pattern_lines_occupancy[q][l] <= l + 1 && (
                g.pattern_lines_occupancy[q][l] == 0 || g.pattern_lines_colors[q][l] is Some),
            changes@ == Seq::new(
                line as nat,
                |l: int|
                    InputChange::On(
                        (line_feature(l, g.pattern_lines_occupancy[p as int][l] as int, g.pattern_lines_colors[p as int][l])
                            + FACTORY_ENCODING_SIZE + p * PLAYER_PATTERN_LINE_ENCODING_SIZE) as usize,
                    ),
            ),
        decreases 5 - line,
    {
        let num_tiles = g.pattern_lines_occupancy[p][line] as usize;
        assert(g.pattern_lines_occupancy[p as int][line as int] <= line + 1);
        changes.push(add_pattern_line_encoding(line, num_tiles, g.pattern_lines_colors[p][line], p));
        line = line + 1;
        assert(changes@ =~= Seq::new(
            line as nat,
            |l: int|
                InputChange::On(
                    (line_feature(l, g.pattern_lines_occupancy[p as int][l] as int, g.pattern_lines_colors[p as int][l])
                        + FACTORY_ENCODING_SIZE + p * PLAYER_PATTERN_LINE_ENCODING_SIZE) as usize,
                ),
        ));
    }
    let mut more = add_wall_encoding(g.walls[p], p);
    changes.append(&mut more);
    let is_next_round_starting_player = g.next_round_starting_player.to_usize() == p && g.tile_taken_from_center;
    let mut more = add_player_score_encoding(p, g.scores[p], g.floor_line_progress[p] as usize, is_next_round_starting_player);
    changes.append(&mut more);
    assert(changes@ =~= player_encoding(*g, p as int));
    changes
}

} // verus!
