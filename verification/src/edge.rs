//! The edges of the search tree: a move, or the chance event that deals the
//! factories of a new round.
use vstd::prelude::*;
use crate::factories::{Factories, Bag, all_empty};
use crate::game_state::{GameState, evaluated, ends_game, end_of_game, round_evaluable, integrity,
    do_move_spec, move_in_bounds};
use crate::move_::{Move, move_display, move_displayable};
use crate::consistency::{consistent, lemma_round_consistent};
use crate::game_state::legal_moves;
use crate::factories::Factory;
use crate::formatting::{repeat, push_text, push_repeat};
use crate::tile_color::{TileColor, color_display, color_of_index};

verus! {

/// One way the factories of the next round can be dealt, with the bag and
/// the lid that dealing leaves.
#[derive(Debug, Clone, Copy)]
pub struct ProbabilisticOutcome {
    pub factories: Factories,
    pub bag: Bag,
    pub out_of_bag: Bag,
}

/// The state after the round of `s` is scored and then dealt as outcome `o`.
pub open spec fn outcome_applied(s: GameState, o: ProbabilisticOutcome) -> GameState {
    let e = if ends_game(evaluated(s)) { end_of_game(evaluated(s)) } else { evaluated(s) };
    GameState { factories: o.factories, bag: o.bag, out_of_bag: o.out_of_bag, ..e }
}

impl ProbabilisticOutcome {
    /// Scores the finished round of `game_state` and deals this outcome:
    /// factories, bag and lid become the outcome's.
    pub fn apply_to_game_state(&self, game_state: &mut GameState)
        requires
            all_empty(old(game_state).factories.factories),
            round_evaluable(*old(game_state)),
            integrity(outcome_applied(*old(game_state), *self)),
        ensures
            *final(game_state) == outcome_applied(*old(game_state), *self),
    {
        game_state.evaluate_round();
        game_state.factories = self.factories;
        game_state.out_of_bag = self.out_of_bag;
        game_state.bag = self.bag;
    }
}

/// An edge of the search tree.
#[derive(Debug, Clone, Copy)]
pub enum Edge {
    Deterministic(Move),
    Probabilistic(ProbabilisticOutcome),
}

/// Whether edge `e` can be followed from `s`.
pub open spec fn edge_applicable(e: Edge, s: GameState) -> bool {
    match e {
        Edge::Deterministic(m) => move_in_bounds(s, m) && integrity(do_move_spec(s, m)),
        Edge::Probabilistic(o) => all_empty(s.factories.factories) && round_evaluable(s) && integrity(
            outcome_applied(s, o),
        ),
    }
}

/// The state after following edge `e` from `s`.
pub open spec fn edge_applied(e: Edge, s: GameState) -> GameState {
    match e {
        Edge::Deterministic(m) => do_move_spec(s, m),
        Edge::Probabilistic(o) => outcome_applied(s, o),
    }
}

impl Edge {
    /// Follows the edge: makes the move, or scores the round and deals the outcome.
    pub fn apply_to_game_state(&self, game_state: &mut GameState)
        requires
            edge_applicable(*self, *old(game_state)),
        ensures
            *final(game_state) == edge_applied(*self, *old(game_state)),
    {
        match self {
            Edge::Deterministic(move_) => game_state.do_move(*move_),
            Edge::Probabilistic(outcome) => outcome.apply_to_game_state(game_state),
        }
    }
}

/// The tiles of the colors below `k` of a factory as shown: each color, in
/// its color, once per tile.
pub open spec fn factory_tiles_display(f: Factory, k: int) -> Seq<char>
    decreases k,
{
    if k <= 0 {
        Seq::empty()
    } else {
        factory_tiles_display(f, k - 1) + repeat(color_display(color_of_index(k - 1)), f[k - 1] as nat)
    }
}

/// The first `k` displays of an outcome as shown, separated by spaces.
pub open spec fn outcome_display(o: ProbabilisticOutcome, k: int) -> Seq<char>
    decreases k,
{
    if k <= 0 {
        Seq::empty()
    } else if k == 1 {
        factory_tiles_display(o.factories.factories[0], 5)
    } else {
        outcome_display(o, k - 1) + seq![' '] + factory_tiles_display(o.factories.factories[k - 1], 5)
    }
}

/// An edge as shown: the move, or the tiles dealt to the displays.
pub open spec fn edge_display(e: Edge) -> Seq<char> {
    match e {
        Edge::Deterministic(m) => move_display(m),
        Edge::Probabilistic(o) => outcome_display(o, 5),
    }
}

/// Appends the tiles of a factory.
fn push_factory_tiles(s: &mut String, f: &Factory)
    ensures
        final(s)@ == old(s)@ + factory_tiles_display(*f, 5),
{
    let mut c: usize = 0;
    while c < 5
        invariant
            c <= 5,
            s@ == old(s)@ + factory_tiles_display(*f, c as int),
        decreases 5 - c,
    {
        let color = TileColor::from_usize(c);
        push_repeat(s, &color.to_display_string(), f[c] as usize);
        c = c + 1;
        assert(s@ =~= old(s)@ + factory_tiles_display(*f, c as int));
    }
}

impl Edge {
    /// The edge as shown to a player.
    pub fn to_display_string(&self) -> (r: String)
        requires
            *self matches Edge::Deterministic(m) ==> move_displayable(m),
        ensures
            r@ == edge_display(*self),
    {
        match self {
            Edge::Deterministic(move_) => move_.to_display_string(),
            Edge::Probabilistic(outcome) => {
                let mut s = String::new();
                let mut k: usize = 0;
                while k < 5
                    invariant
                        k <= 5,
                        s@ == outcome_display(*outcome, k as int),
                    decreases 5 - k,
                {
                    if k > 0 {
                        crate::tile_color::push_char(&mut s, ' ');
                    }
                    push_factory_tiles(&mut s, &outcome.factories.factories[k]);
                    k = k + 1;
                    assert(s@ =~= outcome_display(*outcome, k as int));
                }
                s
            },
        }
    }
}

/// How many children of each kind a node has.
#[derive(Debug, Clone, Copy)]
pub struct ChildCount {
    pub deterministic: usize,
    pub probabilistic: usize,
}

impl ChildCount {
    /// Adds the counts of `other`.
    pub fn add_assign(&mut self, other: Self)
        requires
            old(self).deterministic + other.deterministic <= usize::MAX,
            old(self).probabilistic + other.probabilistic <= usize::MAX,
        ensures
            final(self).deterministic == old(self).deterministic + other.deterministic,
            final(self).probabilistic == old(self).probabilistic + other.probabilistic,
    {
        self.deterministic = self.deterministic + other.deterministic;
        self.probabilistic = self.probabilistic + other.probabilistic;
    }
}


impl Edge {
    /// Whether the edge can be followed from the sound state `game_state`:
    /// a move when it is legal there; a deal when the factories are empty
    /// and the dealt state passes the integrity check.
    pub fn is_applicable(&self, game_state: &GameState) -> (r: bool)
        requires
            consistent(*game_state),
        ensures
            r ==> edge_applicable(*self, *game_state),
            match *self {
                Edge::Deterministic(m) => r == (!all_empty(game_state.factories.factories)
                    && legal_moves(*game_state).contains(m)),
                Edge::Probabilistic(o) => r == (all_empty(game_state.factories.factories)
                    && integrity(outcome_applied(*game_state, o))),
            },
    {
        match self {
            Edge::Deterministic(m) => game_state.is_legal_move(*m),
            Edge::Probabilistic(o) => {
                if !game_state.factories.is_empty() {
                    return false;
                }
                proof {
                    lemma_round_consistent(*game_state);
                }
                let mut t = *game_state;
                t.evaluate_round();
                t.factories = o.factories;
                t.bag = o.bag;
                t.out_of_bag = o.out_of_bag;
                assert(t == outcome_applied(*game_state, *o));
                t.passes_integrity_check()
            },
        }
    }
}

} // verus!
