//! The first feature layout of a player's score: who starts the next round,
//! the score after the floor line penalty, and the floor line.
use vstd::prelude::*;
use crate::game_state::{floor_line_penalty, floor_penalty_at};
use crate::encoding::features::InputChange;

verus! {

/// The largest score that has a feature of its own.
pub const ASSUMED_MAX_SCORE: i16 = 120;

/// Number of score features of one player.
pub const PLAYER_SCORE_ENCODING_SIZE: usize = 129;

/// Where the score features begin.
pub const OFFSET_PLAYER_SCORE: usize = 1552;

/// The floor line count that has a feature: at most 7.
pub open spec fn clamped_progress(progress: usize) -> int {
    if progress > 7 {
        7
    } else {
        progress as int
    }
}

/// The score after the floor line penalty, clamped to `0..=120`.
pub open spec fn clamped_score(score: i16, progress: usize) -> int {
    let s = score - floor_penalty_at(clamped_progress(progress));
    if s < 0 {
        0
    } else if s > 120 {
        120
    } else {
        s
    }
}

/// The changes that switch on the score features of player `player_index`:
/// the starting-player feature where `is_next_round_starting_player`, then
/// the score and the floor line.
pub fn add_player_score_encoding(
    player_index: usize,
    score: i16,
    pattern_line_progress: usize,
    is_next_round_starting_player: bool,
) -> (r: Vec<InputChange>)
    requires
        player_index < 2,
        score - floor_penalty_at(clamped_progress(pattern_line_progress)) >= i16::MIN,
    ensures
        ({
            let offset = OFFSET_PLAYER_SCORE + player_index * PLAYER_SCORE_ENCODING_SIZE;
            r@ == (if is_next_round_starting_player {
                seq![InputChange::On(offset as usize)]
            } else {
                Seq::empty()
            }) + seq![
                InputChange::On((offset + 1 + clamped_score(score, pattern_line_progress)) as usize),
                InputChange::On((offset + 1 + 120 + clamped_progress(pattern_line_progress)) as usize),
            ]
        }),
{
    let progress: usize = if pattern_line_progress < 7 { pattern_line_progress } else { 7 };
    let offset = OFFSET_PLAYER_SCORE + player_index * PLAYER_SCORE_ENCODING_SIZE;
    let mut changes: Vec<InputChange> = Vec::new();
    if is_next_round_starting_player {
        changes.push(InputChange::On(offset));
    }
    let adjusted: i16 = score - floor_line_penalty(progress) as i16;
    let clamped: usize = if adjusted < 0 {
        0
    } else if adjusted > ASSUMED_MAX_SCORE {
        ASSUMED_MAX_SCORE as usize
    } else {
        adjusted as usize
    };
    changes.push(InputChange::On(offset + 1 + clamped));
    changes.push(InputChange::On(offset + 1 + ASSUMED_MAX_SCORE as usize + progress));
    changes
}

} // verus!
