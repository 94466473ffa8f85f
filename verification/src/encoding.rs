//! The numbers by which the search players' networks see a position: one-hot
//! feature indices for factories, pattern lines, walls and scores, and the
//! numbering of moves.
pub mod pattern_lines;
pub mod wall;
pub mod score;
pub mod factories;
pub mod bag;
pub mod factory_encoding;
pub mod pattern_line_encoding;
pub mod moves;
pub mod features;
pub mod score_encoding;
pub mod wall_encoding;
pub mod game_state_encoding;
pub mod accumulator;

use vstd::prelude::*;
use crate::player::NUM_PLAYERS;

verus! {

/// The number of inputs of a feature block: `size` for each player where
/// each player has the feature, else `size`.
pub fn feature_size(size: usize, player_feature: bool) -> (r: usize)
    requires
        player_feature ==> size * NUM_PLAYERS <= usize::MAX,
    ensures
        r == if player_feature {
            size * NUM_PLAYERS
        } else {
            size as int
        },
{
    if player_feature {
        size * NUM_PLAYERS
    } else {
        size
    }
}

} // verus!
