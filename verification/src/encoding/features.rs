//! The one-hot inputs of the network, as a list of changes: each feature
//! block keeps which of its inputs are on, and reports the inputs to switch
//! on and off when a position changes. A layer of the network applies them.
use vstd::prelude::*;
use crate::game_state::{GameState, floor_penalty_at};
use crate::factories::{NUM_FACTORIES, CENTER_FACTORY_INDEX};
use crate::encoding::factories::{center_count_feature, CenterFactoryEncoding, NonCenterFactoryEncoding, numbered, clearing_changes,
    display_input, content_count};
use crate::encoding::pattern_lines::{UpperPatternLinesEncoding, LowerPatternLinesEncoding, colored_where_filled,
    upper_lines_input, lower_lines_input};
use crate::encoding::score::{ScoreEncoding, score_input, floor_input, floor_line_index};
use crate::encoding::wall::{WallEncoding, upper_wall_input, middle_wall_input, lower_wall_input};
use crate::encoding::bag::counts_changes;

verus! {

/// A change to the inputs of the network.
#[derive(Debug, Clone, Copy, PartialEq, Eq, Structural)]
pub enum InputChange {
    /// Switch an input on.
    On(usize),
    /// Switch an input off.
    Off(usize),
    /// Switch all inputs off.
    AllOff,
}

/// Where the center block starts.
pub const CENTER_FACTORY_START: usize = 0;

/// Where the display block starts.
pub const NON_CENTER_FACTORY_START: usize = 50;

/// Where the block of the upper pattern lines starts.
pub const UPPER_PATTERN_LINES_START: usize = 405;

/// Where the block of the lower pattern lines starts.
pub const LOWER_PATTERN_LINES_START: usize = 2517;

/// Where the score block starts.
pub const SCORE_START: usize = 3609;

/// Where the wall block starts.
pub const WALL_START: usize = 3867;

/// Where the bag block starts.
pub const BAG_START: usize = 8027;

/// The changes that move a one-hot input from `previous` to `next`: none
/// where they agree, else `previous` off and `next` on.
pub open spec fn switch_changes(previous: usize, next: usize) -> Seq<InputChange> {
    if previous == next {
        Seq::empty()
    } else {
        seq![InputChange::Off(previous), InputChange::On(next)]
    }
}

/// Appends the changes that move a one-hot input from `previous` to `next`.
pub(crate) fn push_switch(changes: &mut Vec<InputChange>, previous: usize, next: usize)
    ensures
        final(changes)@ == old(changes)@ + switch_changes(previous, next),
{
    if previous != next {
        changes.push(InputChange::Off(previous));
        changes.push(InputChange::On(next));
    }
    assert(changes@ =~= old(changes)@ + switch_changes(previous, next));
}

/// The feature blocks of a position, each with the inputs it has on.
pub struct Accumulator {
    pub center_factory_encoding: CenterFactoryEncoding,
    pub factory_encoding: NonCenterFactoryEncoding,
    pub upper_pattern_lines_encoding: UpperPatternLinesEncoding,
    pub lower_pattern_lines_encoding: LowerPatternLinesEncoding,
    pub score_encoding: ScoreEncoding,
    pub wall_encoding: WallEncoding,
}

/// Whether the inputs of a position can be computed: each display holds
/// one of the 71 contents (or gets a number by the same arithmetic), each
/// pattern line with tiles has a color and holds no more tiles than it has
/// places, and no score leaves `i16` when the floor line is counted.
pub open spec fn encodable(g: GameState) -> bool {
    &&& forall|k: int| 0 <= k < 6 ==> numbered(#[trigger] g.factories.factories[k])
    &&& forall|p: int| 0 <= p < 2 ==> colored_where_filled(g.pattern_lines_occupancy[p], g.pattern_lines_colors[p], 0, 5)
    &&& forall|p: int, l: int| 0 <= p < 2 && 0 <= l < 5 ==> #[trigger] g.pattern_lines_occupancy[p][l] <= l + 1
    &&& forall|p: int|
        0 <= p < 2 ==> #[trigger] g.scores[p] - floor_penalty_at(floor_line_index(g.floor_line_progress[p])) >= i16::MIN
}

/// The changes that the inputs of player `p` make when they are set from
/// their initial values to those of position `g`.
pub open spec fn player_changes(g: GameState, p: int) -> Seq<InputChange> {
    let lines = g.pattern_lines_occupancy[p];
    let colors = g.pattern_lines_colors[p];
    switch_changes((UPPER_PATTERN_LINES_START + p) as usize, upper_lines_input(lines, colors, p)) + switch_changes(
        (LOWER_PATTERN_LINES_START + p) as usize,
        lower_lines_input(lines, colors, p),
    ) + switch_changes(score_input(0, 0, p), score_input(g.scores[p], g.floor_line_progress[p], p))
        + switch_changes(floor_input(0, p), floor_input(g.floor_line_progress[p], p)) + switch_changes(
        upper_wall_input(0, p),
        upper_wall_input(g.walls[p], p),
    ) + switch_changes(middle_wall_input(0, p), middle_wall_input(g.walls[p], p)) + switch_changes(
        lower_wall_input(0, p),
        lower_wall_input(g.walls[p], p),
    )
}

/// The changes that set the inputs to those of position `g`: all off, the
/// center's initial inputs and then its counts, the displays, the initial
/// inputs of the pattern lines, scores and walls, then each player's.
pub open spec fn position_changes(g: GameState) -> Seq<InputChange> {
    let zeros5 = seq![0usize, 0usize, 0usize, 0usize, 0usize];
    let zeros71 = Seq::new(71, |m: int| 0usize);
    seq![InputChange::AllOff] + Seq::new(5, |i: int| InputChange::On(i as usize)) + counts_changes(
        zeros5,
        Seq::new(5, |c: int| center_count_feature(g.factories.factories[CENTER_FACTORY_INDEX as int][c] as usize)),
        5,
        0,
    ) + clearing_changes(zeros71, 70) + Seq::new(
        6,
        |k: int| InputChange::On(display_input(zeros71, g.factories.factories, k)),
    ) + seq![
        InputChange::On(UPPER_PATTERN_LINES_START),
        InputChange::On((UPPER_PATTERN_LINES_START + 1) as usize),
    ] + seq![
        InputChange::On(LOWER_PATTERN_LINES_START),
        InputChange::On((LOWER_PATTERN_LINES_START + 1) as usize),
    ] + seq![
        InputChange::On(score_input(0, 0, 0)),
        InputChange::On(floor_input(0, 0)),
        InputChange::On(score_input(0, 0, 1)),
        InputChange::On(floor_input(0, 1)),
    ] + seq![
        InputChange::On(upper_wall_input(0, 0)),
        InputChange::On(middle_wall_input(0, 0)),
        InputChange::On(lower_wall_input(0, 0)),
        InputChange::On(upper_wall_input(0, 1)),
        InputChange::On(middle_wall_input(0, 1)),
        InputChange::On(lower_wall_input(0, 1)),
    ] + player_changes(g, 0) + player_changes(g, 1)
}

/// Sets the pattern line, score and wall inputs of player `p`, from their
/// initial values, to those of position `g`.
fn set_player_inputs(
    upper: &mut UpperPatternLinesEncoding,
    lower: &mut LowerPatternLinesEncoding,
    score: &mut ScoreEncoding,
    wall: &mut WallEncoding,
    g: &GameState,
    p: usize,
) -> (r: Vec<InputChange>)
    requires
        p < 2,
        encodable(*g),
        old(upper).index[p as int] == (UPPER_PATTERN_LINES_START + p) as usize,
        old(lower).index[p as int] == (LOWER_PATTERN_LINES_START + p) as usize,
        old(score).score_index[p as int] == score_input(0, 0, p as int),
        old(score).floor_line_index[p as int] == floor_input(0, p as int),
        old(wall).upper_index[p as int] == upper_wall_input(0, p as int),
        old(wall).middle_index[p as int] == middle_wall_input(0, p as int),
        old(wall).lower_index[p as int] == lower_wall_input(0, p as int),
    ensures
        r@ == player_changes(*g, p as int),
        final(upper).index@ == old(upper).index@.update(
            p as int,
            upper_lines_input(g.pattern_lines_occupancy[p as int], g.pattern_lines_colors[p as int], p as int),
        ),
        final(lower).index@ == old(lower).index@.update(
            p as int,
            lower_lines_input(g.pattern_lines_occupancy[p as int], g.pattern_lines_colors[p as int], p as int),
        ),
        final(score).score_index@ == old(score).score_index@.update(
            p as int,
            score_input(g.scores[p as int], g.floor_line_progress[p as int], p as int),
        ),
        final(score).floor_line_index@ == old(score).floor_line_index@.update(
            p as int,
            floor_input(g.floor_line_progress[p as int], p as int),
        ),
        final(wall).upper_index@ == old(wall).upper_index@.update(p as int, upper_wall_input(g.walls[p as int], p as int)),
        final(wall).middle_index@ == old(wall).middle_index@.update(p as int, middle_wall_input(g.walls[p as int], p as int)),
        final(wall).lower_index@ == old(wall).lower_index@.update(p as int, lower_wall_input(g.walls[p as int], p as int)),
{
    proof {
        assert(colored_where_filled(g.pattern_lines_occupancy[p as int], g.pattern_lines_colors[p as int], 0, 5));
        assert(g.pattern_lines_occupancy[p as int][0] <= 1);
        assert(g.pattern_lines_occupancy[p as int][1] <= 2);
        assert(g.pattern_lines_occupancy[p as int][2] <= 3);
        assert(g.pattern_lines_occupancy[p as int][3] <= 4);
        assert(g.pattern_lines_occupancy[p as int][4] <= 5);
        assert(g.scores[p as int] - floor_penalty_at(floor_line_index(g.floor_line_progress[p as int])) >= i16::MIN);
    }
    let mut changes = upper.set(g.pattern_lines_occupancy[p], g.pattern_lines_colors[p], p);
    let mut more = lower.set(g.pattern_lines_occupancy[p], g.pattern_lines_colors[p], p);
    changes.append(&mut more);
    let mut more = score.set(g.scores[p], g.floor_line_progress[p], p);
    changes.append(&mut more);
    let mut more = wall.set(g.walls[p], p);
    changes.append(&mut more);
    assert(changes@ =~= player_changes(*g, p as int));
    changes
}



/// The changes that give a fresh layer the inputs of a fresh accumulator:
/// all off, then the initial inputs of the center, the pattern lines, the
/// scores and floor lines, and the walls.
pub open spec fn initial_changes() -> Seq<InputChange> {
    seq![InputChange::AllOff] + Seq::new(5, |i: int| InputChange::On(i as usize)) + seq![
        InputChange::On(UPPER_PATTERN_LINES_START),
        InputChange::On((UPPER_PATTERN_LINES_START + 1) as usize),
    ] + seq![
        InputChange::On(LOWER_PATTERN_LINES_START),
        InputChange::On((LOWER_PATTERN_LINES_START + 1) as usize),
    ] + seq![
        InputChange::On(score_input(0, 0, 0)),
        InputChange::On(floor_input(0, 0)),
        InputChange::On(score_input(0, 0, 1)),
        InputChange::On(floor_input(0, 1)),
    ] + seq![
        InputChange::On(upper_wall_input(0, 0)),
        InputChange::On(middle_wall_input(0, 0)),
        InputChange::On(lower_wall_input(0, 0)),
        InputChange::On(upper_wall_input(0, 1)),
        InputChange::On(middle_wall_input(0, 1)),
        InputChange::On(lower_wall_input(0, 1)),
    ]
}

impl Accumulator {
    /// A fresh accumulator, every block at its initial inputs (no display
    /// counted yet), with the changes that give a layer those inputs.
    pub fn new() -> (r: (Accumulator, Vec<InputChange>))
        ensures
            r.1@ == initial_changes(),
            forall|c: int| 0 <= c < 5 ==> #[trigger] r.0.center_factory_encoding.center_factory_counts[c] == 0,
            forall|m: int| 0 <= m < 71 ==> #[trigger] r.0.factory_encoding.factory_counts[m] == 0,
    {
        let mut changes: Vec<InputChange> = Vec::new();
        changes.push(InputChange::AllOff);
        let (center_factory_encoding, mut more) = CenterFactoryEncoding::initialize();
        changes.append(&mut more);
        let factory_encoding = NonCenterFactoryEncoding::initialize();
        let (upper_pattern_lines_encoding, mut more) = UpperPatternLinesEncoding::initialize();
        changes.append(&mut more);
        let (lower_pattern_lines_encoding, mut more) = LowerPatternLinesEncoding::initialize();
        changes.append(&mut more);
        let (score_encoding, mut more) = ScoreEncoding::initialize();
        changes.append(&mut more);
        let (wall_encoding, mut more) = WallEncoding::initialize();
        changes.append(&mut more);
        assert(changes@ =~= initial_changes());
        let accumulator = Accumulator {
            center_factory_encoding,
            factory_encoding,
            upper_pattern_lines_encoding,
            lower_pattern_lines_encoding,
            score_encoding,
            wall_encoding,
        };
        proof {
            assert(accumulator.center_factory_encoding.center_factory_counts@ == seq![0usize, 0usize, 0usize, 0usize, 0usize]);
            assert forall|c: int| 0 <= c < 5 implies #[trigger] accumulator.center_factory_encoding.center_factory_counts[c] == 0 by {
                assert(accumulator.center_factory_encoding.center_factory_counts@[c] == 0);
            }
        }
        (accumulator, changes)
    }
}

fn factory_numbered(factory: &[u8; 5]) -> (r: bool)
    ensures
        r == numbered(*factory),
{
    let empty = factory[0] == 0 && factory[1] == 0 && factory[2] == 0 && factory[3] == 0 && factory[4] == 0;
    if !empty && crate::factories::hash_key(factory) >= 100 {
        return false;
    }
    crate::factories::hash_factory(factory) < 71
}

/// Whether the inputs of position `g` can be computed (see `encodable`).
pub fn is_encodable(g: &GameState) -> (r: bool)
    ensures
        r == encodable(*g),
{
    let mut k: usize = 0;
    while k < NUM_FACTORIES
        invariant
            k <= 6,
            forall|j: int| 0 <= j < k ==> numbered(#[trigger] g.factories.factories[j]),
        decreases 6 - k,
    {
        if !factory_numbered(&g.factories.factories[k]) {
            return false;
        }
        k = k + 1;
    }
    let mut p: usize = 0;
    while p < 2
        invariant
            p <= 2,
            forall|j: int| 0 <= j < 6 ==> numbered(#[trigger] g.factories.factories[j]),
            forall|q: int| 0 <= q < p ==> colored_where_filled(g.pattern_lines_occupancy[q], g.pattern_lines_colors[q], 0, 5),
            forall|q: int, l: int| 0 <= q < p && 0 <= l < 5 ==> #[trigger] g.pattern_lines_occupancy[q][l] <= l + 1,
            forall|q: int| 0 <= q < p ==>
                #[trigger] g.scores[q] - floor_penalty_at(floor_line_index(g.floor_line_progress[q])) >= i16::MIN,
        decreases 2 - p,
    {
        let mut l: usize = 0;
        while l < 5
            invariant
                p < 2,
                l <= 5,
                forall|i: int| 0 <= i < l ==> #[trigger] g.pattern_lines_occupancy[p as int][i] == 0
                    || g.pattern_lines_colors[p as int][i] is Some,
                forall|i: int| 0 <= i < l ==> #[trigger] g.pattern_lines_occupancy[p as int][i] <= i + 1,
            decreases 5 - l,
        {
            let occupancy = g.pattern_lines_occupancy[p][l];
            if occupancy as usize > l + 1 {
                return false;
            }
            if occupancy != 0 && g.pattern_lines_colors[p][l].is_none() {
                return false;
            }
            l = l + 1;
        }
        let progress = g.floor_line_progress[p];
        let index: usize = if progress > 7 { 7 } else { progress as usize };
        let penalty = crate::game_state::floor_line_penalty(index);
        if (g.scores[p] as i32) - (penalty as i32) < -32768 {
            return false;
        }
        p = p + 1;
    }
    true
}

impl Accumulator {
    /// The inputs of position `game_state`, computed afresh: returns the
    /// changes that switch a layer's inputs to them, starting with all off.
    #[verifier::rlimit(60)]
    pub fn set_game_state(&mut self, game_state: &GameState) -> (r: Vec<InputChange>)
        requires
            encodable(*game_state),
        ensures
            r@ == position_changes(*game_state),
            forall|c: int| 0 <= c < 5 ==> #[trigger] final(self).center_factory_encoding.center_factory_counts[c]
                == center_count_feature(game_state.factories.factories[CENTER_FACTORY_INDEX as int][c] as usize),
            forall|m: int| 0 <= m < 71 ==> #[trigger] final(self).factory_encoding.factory_counts[m] == content_count(
                game_state.factories.factories,
                m,
                6,
            ),
            forall|p: int| 0 <= p < 2 ==> #[trigger] final(self).upper_pattern_lines_encoding.index[p] == upper_lines_input(
                game_state.pattern_lines_occupancy[p],
                game_state.pattern_lines_colors[p],
                p,
            ),
            forall|p: int| 0 <= p < 2 ==> #[trigger] final(self).lower_pattern_lines_encoding.index[p] == lower_lines_input(
                game_state.pattern_lines_occupancy[p],
                game_state.pattern_lines_colors[p],
                p,
            ),
            forall|p: int| 0 <= p < 2 ==> #[trigger] final(self).score_encoding.score_index[p] == score_input(
                game_state.scores[p],
                game_state.floor_line_progress[p],
                p,
            ),
            forall|p: int| 0 <= p < 2 ==> #[trigger] final(self).score_encoding.floor_line_index[p] == floor_input(
                game_state.floor_line_progress[p],
                p,
            ),
            forall|p: int| 0 <= p < 2 ==> #[trigger] final(self).wall_encoding.upper_index[p] == upper_wall_input(
                game_state.walls[p],
                p,
            ),
            forall|p: int| 0 <= p < 2 ==> #[trigger] final(self).wall_encoding.middle_index[p] == middle_wall_input(
                game_state.walls[p],
                p,
            ),
            forall|p: int| 0 <= p < 2 ==> #[trigger] final(self).wall_encoding.lower_index[p] == lower_wall_input(
                game_state.walls[p],
                p,
            ),
    {
        let g = game_state;
        let mut changes: Vec<InputChange> = Vec::new();
        changes.push(InputChange::AllOff);
        let (mut center, mut more) = CenterFactoryEncoding::initialize();
        changes.append(&mut more);
        let mut more = center.set(&g.factories.factories[CENTER_FACTORY_INDEX]);
        changes.append(&mut more);
        let mut factory = NonCenterFactoryEncoding::initialize();
        proof {
            assert(factory.factory_counts@ =~= Seq::new(71, |m: int| 0usize));
        }
        let mut more = factory.set_factories(&g.factories);
        changes.append(&mut more);
        let (mut upper, mut more) = UpperPatternLinesEncoding::initialize();
        changes.append(&mut more);
        let (mut lower, mut more) = LowerPatternLinesEncoding::initialize();
        changes.append(&mut more);
        let (mut score, mut more) = ScoreEncoding::initialize();
        changes.append(&mut more);
        let (mut wall, mut more) = WallEncoding::initialize();
        changes.append(&mut more);
        let ghost before_players = changes@;
        let mut more = set_player_inputs(&mut upper, &mut lower, &mut score, &mut wall, g, 0);
        changes.append(&mut more);
        let mut more = set_player_inputs(&mut upper, &mut lower, &mut score, &mut wall, g, 1);
        changes.append(&mut more);
        proof {
            assert(changes@ =~= position_changes(*g));
        }
        self.center_factory_encoding = center;
        self.factory_encoding = factory;
        self.upper_pattern_lines_encoding = upper;
        self.lower_pattern_lines_encoding = lower;
        self.score_encoding = score;
        self.wall_encoding = wall;
        changes
    }
}

} // verus!
