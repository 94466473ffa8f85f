//! Feature indices of a player's score and floor line.
use vstd::prelude::*;
use crate::game_state::{floor_line_penalty, floor_penalty_at, FLOOR_LINE_LENGTH};
use crate::player::NUM_PLAYERS;
use crate::encoding::features::{InputChange, SCORE_START, switch_changes, push_switch};

verus! {

/// Number of floor line features of one player.
pub const FLOOR_LINE_ENCODING_SIZE: usize = 8;

/// The largest score that has a feature of its own.
pub const MAX_SCORE: i16 = 120;

/// Number of score and floor line features of one player.
pub const SCORE_ENCODING_SIZE: usize = 129;

/// The floor line feature: the number of tiles on it, at most 7.
pub open spec fn floor_line_index(progress: u8) -> int {
    if progress > 7 {
        7
    } else {
        progress as int
    }
}

/// The score feature, before the offset of the floor line features: the
/// score after the floor line penalty, where it lies in `0..=120`, else 120
/// (a negative number, read as an unsigned one, is larger than 120). So a
/// score that the floor line drives below zero shares the top feature with
/// the highest scores, not the feature of score 0: the conversion of the
/// adjusted score to an unsigned index decides this, not a rule of the game.
pub open spec fn score_feature(adjusted: int) -> int {
    if adjusted < 0 || adjusted > 120 {
        120
    } else {
        adjusted
    }
}

fn calculate_floor_line_index(progress: u8) -> (r: usize)
    ensures
        r == floor_line_index(progress),
{
    let p = progress as usize;
    if p < FLOOR_LINE_LENGTH - 1 {
        p
    } else {
        FLOOR_LINE_LENGTH - 1
    }
}

/// The score feature and the floor line feature of a player.
pub fn calculate_score_index(score: i16, floor_line_progress: u8) -> (r: (usize, usize))
    requires
        score - floor_penalty_at(floor_line_index(floor_line_progress)) >= i16::MIN,
    ensures
        r.1 == floor_line_index(floor_line_progress),
        r.0 == score_feature(score - floor_penalty_at(floor_line_index(floor_line_progress)))
            + FLOOR_LINE_ENCODING_SIZE,
{
    let floor_line_progress_index = calculate_floor_line_index(floor_line_progress);
    let floor_line_penalty = floor_line_penalty(floor_line_progress_index);
    let adjusted_score: i16 = score - (floor_line_penalty as i16);
    let score_index: usize = if adjusted_score < 0 || adjusted_score > MAX_SCORE {
        MAX_SCORE as usize
    } else {
        adjusted_score as usize
    };
    (score_index + FLOOR_LINE_ENCODING_SIZE, floor_line_progress_index)
}

/// The score and floor line features of each player.
pub struct ScoreEncoding {
    pub score_index: [usize; NUM_PLAYERS],
    pub floor_line_index: [usize; NUM_PLAYERS],
}

/// The score input of player `p`.
pub open spec fn score_input(score: i16, floor_line_progress: u8, p: int) -> usize {
    ((score_feature(score - floor_penalty_at(floor_line_index(floor_line_progress))) + FLOOR_LINE_ENCODING_SIZE) * 2
        + p + SCORE_START) as usize
}

/// The floor line input of player `p`.
pub open spec fn floor_input(floor_line_progress: u8, p: int) -> usize {
    (floor_line_index(floor_line_progress) * 2 + p + SCORE_START) as usize
}

impl ScoreEncoding {
    /// The inputs of both players for a score of 0 and an empty floor line,
    /// and the changes that switch them on.
    pub fn initialize() -> (r: (Self, Vec<InputChange>))
        ensures
            forall|p: int| 0 <= p < 2 ==> #[trigger] r.0.score_index[p] == score_input(0, 0, p),
            forall|p: int| 0 <= p < 2 ==> #[trigger] r.0.floor_line_index[p] == floor_input(0, p),
            r.1@ == seq![
                InputChange::On(score_input(0, 0, 0)),
                InputChange::On(floor_input(0, 0)),
                InputChange::On(score_input(0, 0, 1)),
                InputChange::On(floor_input(0, 1)),
            ],
    {
        let (s, f) = calculate_score_index(0, 0);
        let s0 = s * NUM_PLAYERS + SCORE_START;
        let f0 = f * NUM_PLAYERS + SCORE_START;
        let s1 = s * NUM_PLAYERS + 1 + SCORE_START;
        let f1 = f * NUM_PLAYERS + 1 + SCORE_START;
        let mut changes: Vec<InputChange> = Vec::new();
        changes.push(InputChange::On(s0));
        changes.push(InputChange::On(f0));
        changes.push(InputChange::On(s1));
        changes.push(InputChange::On(f1));
        let score_index = [s0, s1];
        let floor_line_index = [f0, f1];
        assert(changes@ =~= seq![
            InputChange::On(score_input(0, 0, 0)),
            InputChange::On(floor_input(0, 0)),
            InputChange::On(score_input(0, 0, 1)),
            InputChange::On(floor_input(0, 1)),
        ]);
        (ScoreEncoding { score_index, floor_line_index }, changes)
    }

    /// Records the score and floor line of player `player_index`, and
    /// returns the changes that switch their inputs.
    pub fn set(&mut self, score: i16, floor_line_progress: u8, player_index: usize) -> (r: Vec<InputChange>)
        requires
            player_index < 2,
            score - floor_penalty_at(floor_line_index(floor_line_progress)) >= i16::MIN,
        ensures
            final(self).score_index@ == old(self).score_index@.update(
                player_index as int,
                score_input(score, floor_line_progress, player_index as int),
            ),
            final(self).floor_line_index@ == old(self).floor_line_index@.update(
                player_index as int,
                floor_input(floor_line_progress, player_index as int),
            ),
            r@ == switch_changes(
                old(self).score_index[player_index as int],
                score_input(score, floor_line_progress, player_index as int),
            ) + switch_changes(
                old(self).floor_line_index[player_index as int],
                floor_input(floor_line_progress, player_index as int),
            ),
    {
        let (s, f) = calculate_score_index(score, floor_line_progress);
        let s = s * NUM_PLAYERS + player_index + SCORE_START;
        let f = f * NUM_PLAYERS + player_index + SCORE_START;
        let mut changes: Vec<InputChange> = Vec::new();
        push_switch(&mut changes, self.score_index[player_index], s);
        self.score_index[player_index] = s;
        push_switch(&mut changes, self.floor_line_index[player_index], f);
        self.floor_line_index[player_index] = f;
        assert(changes@ =~= switch_changes(old(self).score_index[player_index as int], s) + switch_changes(
            old(self).floor_line_index[player_index as int],
            f,
        ));
        changes
    }
}

} // verus!
