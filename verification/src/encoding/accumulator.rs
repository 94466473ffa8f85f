//! The accumulator of the first feature layout: it counts how many displays
//! hold each content while a position is encoded, and reports the changes
//! that give a layer the position's inputs.
use vstd::prelude::*;
use crate::game_state::GameState;
use crate::factories::NUM_POSSIBLE_FACTORY_PERMUTATIONS;
use crate::encoding::features::InputChange;
use crate::encoding::factory_encoding::{NON_CENTER_FACTORY_ENCODING_SIZE, MAX_TILES_OF_COLOR_IN_CENTER};
use crate::encoding::game_state_encoding::{encode_game_state, first_layout_encodable, display_numbers,
    counts_after, displays_changes, player_encoding};
use crate::factories::CENTER_FACTORY_INDEX;

verus! {

/// No display counted yet.
pub open spec fn no_counts() -> Seq<usize> {
    Seq::new(71, |m: int| 0usize)
}

/// The display counts of the first layout.
pub struct Accumulator {
    pub multi_factory_counter: [usize; NUM_POSSIBLE_FACTORY_PERMUTATIONS],
}

impl Accumulator {
    /// An accumulator that has counted no display.
    pub fn new() -> (r: Self)
        ensures
            r.multi_factory_counter@ == no_counts(),
    {
        let r = Accumulator { multi_factory_counter: [0; NUM_POSSIBLE_FACTORY_PERMUTATIONS] };
        assert(r.multi_factory_counter@ =~= no_counts());
        r
    }

    /// Forgets the counts; the layer's inputs all go off.
    pub fn reset(&mut self) -> (r: Vec<InputChange>)
        ensures
            final(self).multi_factory_counter@ == no_counts(),
            r@ == seq![InputChange::AllOff],
    {
        self.multi_factory_counter = [0; NUM_POSSIBLE_FACTORY_PERMUTATIONS];
        assert(self.multi_factory_counter@ =~= no_counts());
        let mut r: Vec<InputChange> = Vec::new();
        r.push(InputChange::AllOff);
        assert(r@ =~= seq![InputChange::AllOff]);
        r
    }

    /// The inputs of `game_state`, computed afresh: all off, then the
    /// changes of `encode_game_state` from empty counts.
    pub fn set_game_state(&mut self, game_state: &GameState) -> (r: Vec<InputChange>)
        requires
            first_layout_encodable(*game_state, no_counts()),
        ensures
            final(self).multi_factory_counter@ == counts_after(
                no_counts(),
                display_numbers(game_state.factories.factories),
                5,
            ),
            r@ == seq![InputChange::AllOff] + displays_changes(
                no_counts(),
                display_numbers(game_state.factories.factories),
                5,
            ) + Seq::new(
                5,
                |c: int|
                    InputChange::On(
                        (NON_CENTER_FACTORY_ENCODING_SIZE + c * MAX_TILES_OF_COLOR_IN_CENTER
                            + game_state.factories.factories[CENTER_FACTORY_INDEX as int][c]) as usize,
                    ),
            ) + player_encoding(*game_state, 0) + player_encoding(*game_state, 1),
    {
        let mut r = self.reset();
        let mut more = encode_game_state(game_state, &mut self.multi_factory_counter);
        r.append(&mut more);
        r
    }
}

} // verus!
