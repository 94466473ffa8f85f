//! The events that the game server exchanges with its clients, and the
//! record of a match.
use vstd::prelude::*;
use vstd::string::StringSliceAdditionalSpecFns;
use vstd::utf8::encode_utf8_decode_utf8;
use crate::game_state::{GameState, GameError, MoveGenerationResult, legal_moves, do_move_spec, evaluated,
    ends_game, end_of_game, dealt_from};
use crate::factories::all_empty;
use crate::consistency::{consistent, lemma_consistent_generable, lemma_generation_consistent, lemma_do_move_consistent};
use crate::move_::Move;
use crate::move_list::MoveList;
use rand::rngs::SmallRng;
use crate::player::{PlayerMarker, NUM_PLAYERS};

verus! {

/// Whether two strings are equal, compared byte by byte.
pub fn str_eq(a: &str, b: &str) -> (r: bool)
    ensures
        r == (a@ == b@),
{
    let x = a.as_bytes();
    let y = b.as_bytes();
    proof {
        encode_utf8_decode_utf8(a@);
        encode_utf8_decode_utf8(b@);
    }
    if x.len() != y.len() {
        return false;
    }
    let mut i: usize = 0;
    while i < x.len()
        invariant
            i <= x@.len(),
            x@.len() == y@.len(),
            x@ == a.spec_bytes(),
            y@ == b.spec_bytes(),
            forall|j: int| 0 <= j < i ==> x@[j] == y@[j],
        decreases x@.len() - i,
    {
        if x[i] != y[i] {
            return false;
        }
        i = i + 1;
    }
    assert(x@ =~= y@);
    true
}

/// The kind of a message between server and client.
#[derive(Debug, Clone, Copy, PartialEq, Eq, Structural)]
pub enum EventType {
    Ping,
    NewGame,
    Error,
}

/// The event type that a message names, if any.
pub open spec fn event_type_of(s: Seq<char>) -> Option<EventType> {
    if s == "ping"@ {
        Some(EventType::Ping)
    } else if s == "new_game"@ {
        Some(EventType::NewGame)
    } else if s == "error"@ {
        Some(EventType::Error)
    } else {
        None
    }
}

/// The name of an event type.
pub open spec fn event_type_name(e: EventType) -> Seq<char> {
    match e {
        EventType::Ping => "ping"@,
        EventType::NewGame => "new_game"@,
        EventType::Error => "error"@,
    }
}

impl EventType {
    /// The event type named `string`: `ping`, `new_game` or `error`.
    pub fn from_str(string: &str) -> (r: Option<Self>)
        ensures
            r == event_type_of(string@),
    {
        if str_eq(string, "ping") {
            Some(EventType::Ping)
        } else if str_eq(string, "new_game") {
            Some(EventType::NewGame)
        } else if str_eq(string, "error") {
            Some(EventType::Error)
        } else {
            None
        }
    }

    /// The name of the event type.
    pub fn to_string(&self) -> (r: String)
        ensures
            r@ == event_type_name(*self),
    {
        match self {
            EventType::Ping => String::from_str("ping"),
            EventType::NewGame => String::from_str("new_game"),
            EventType::Error => String::from_str("error"),
        }
    }
}

/// The errors of the game server.
#[derive(Debug, Clone, Copy, PartialEq, Eq, Structural)]
pub enum RuntimeError {
    IllegalMove,
    PlayerCountMismatch,
    InvalidGameState,
}

/// Whether a match is still to be played or over.
#[derive(Debug, Clone, Copy, PartialEq, Eq, Structural)]
pub enum MatchState {
    NotStarted,
    GameOver,
}

/// A match on the server: its id, its state and whether it is over.
pub struct Match {
    pub id: String,
    pub game_state: GameState,
    pub state: MatchState,
}

impl Match {
    /// A match that has not started.
    pub fn new(id: String, game_state: GameState) -> (r: Self)
        ensures
            r.id@ == id@,
            r.game_state == game_state,
            r.state == MatchState::NotStarted,
    {
        Match { id, game_state, state: MatchState::NotStarted }
    }

    /// The match's id.
    pub fn get_id(&self) -> (r: &str)
        ensures
            r@ == self.id@,
    {
        self.id.as_str()
    }
}

/// What one player did in a match.
#[derive(Debug, Clone, Default)]
pub struct PlayerStatistics {
    /// Each move with the state it was made in and the time it took.
    pub executed_moves: Vec<(GameState, Move, u64)>,
    pub num_moves: u32,
    pub final_score: i16,
}

/// What happened in a match.
#[derive(Debug, Clone)]
pub struct MatchStatistcs {
    pub num_turns: u32,
    pub num_factory_refills: u32,
    /// Each move with the state it was made in, its player and the time it took.
    pub executed_moves: Vec<(GameState, PlayerMarker, Move, u64)>,
    pub player_statistics: [PlayerStatistics; NUM_PLAYERS],
    /// The number of legal moves at each turn.
    pub branching_factor: Vec<u32>,
}

impl PlayerStatistics {
    /// The statistics of a player who has not moved yet.
    pub fn new() -> (r: Self)
        ensures
            r.executed_moves@.len() == 0,
            r.num_moves == 0,
            r.final_score == 0,
    {
        PlayerStatistics { executed_moves: Vec::new(), num_moves: 0, final_score: 0 }
    }
}

impl MatchStatistcs {
    /// The statistics of a match that has not started.
    pub fn new() -> (r: Self)
        ensures
            r.num_turns == 0,
            r.num_factory_refills == 0,
            r.executed_moves@.len() == 0,
            r.branching_factor@.len() == 0,
            forall|p: int| 0 <= p < 2 ==> (#[trigger] r.player_statistics[p]).executed_moves@.len() == 0
                && r.player_statistics[p].num_moves == 0 && r.player_statistics[p].final_score == 0,
    {
        MatchStatistcs {
            num_turns: 0,
            num_factory_refills: 0,
            executed_moves: Vec::new(),
            player_statistics: [PlayerStatistics::new(), PlayerStatistics::new()],
            branching_factor: Vec::new(),
        }
    }
}

/// Starts a turn of a match: generates the moves of the player to move,
/// scoring the round and dealing new tiles first where the factories are
/// empty, and counts the turn (and the refill) unless the game is over.
pub fn begin_turn(
    game_state: &mut GameState,
    move_list: &mut MoveList,
    rng: &mut SmallRng,
    stats: &mut MatchStatistcs,
) -> (r: MoveGenerationResult)
    requires
        consistent(*old(game_state)),
        old(stats).num_turns < u32::MAX,
        old(stats).num_factory_refills < u32::MAX,
    ensures
        (r == MoveGenerationResult::Continue) == !all_empty(old(game_state).factories.factories),
        r == MoveGenerationResult::GameOver <==> all_empty(old(game_state).factories.factories) && ends_game(
            evaluated(*old(game_state)),
        ),
        r == MoveGenerationResult::Continue ==> *final(game_state) == *old(game_state),
        r == MoveGenerationResult::GameOver ==> *final(game_state) == end_of_game(evaluated(*old(game_state))),
        r == MoveGenerationResult::RoundOver ==> dealt_from(evaluated(*old(game_state)), *final(game_state)),
        r != MoveGenerationResult::GameOver ==> consistent(*final(game_state)) && final(move_list)@ == legal_moves(
            *final(game_state),
        ),
        final(stats).num_turns == old(stats).num_turns + if r == MoveGenerationResult::GameOver {
            0int
        } else {
            1int
        },
        final(stats).num_factory_refills == old(stats).num_factory_refills + if r
            == MoveGenerationResult::RoundOver {
            1int
        } else {
            0int
        },
        final(stats).executed_moves@ == old(stats).executed_moves@,
        final(stats).branching_factor@ == old(stats).branching_factor@,
        final(stats).player_statistics == old(stats).player_statistics,
{
    let ghost s = *game_state;
    proof {
        lemma_consistent_generable(s);
    }
    let result = game_state.get_possible_moves(move_list, rng);
    if result == MoveGenerationResult::GameOver {
        return result;
    }
    proof {
        lemma_generation_consistent(s, *game_state);
    }
    if result == MoveGenerationResult::RoundOver {
        stats.num_factory_refills = stats.num_factory_refills + 1;
    }
    stats.num_turns = stats.num_turns + 1;
    result
}

/// Ends a turn with the move the player to move chose. A move that is not
/// among the legal moves ends the match with `IllegalMove` and changes
/// nothing; a legal one is recorded, with the state it was made in and the
/// time it took, and made.
pub fn finish_turn(
    game_state: &mut GameState,
    move_list: &MoveList,
    players_move: Move,
    response_time: u64,
    stats: &mut MatchStatistcs,
) -> (r: Result<(), GameError>)
    requires
        consistent(*old(game_state)),
        move_list@ == legal_moves(*old(game_state)),
        old(stats).player_statistics[old(game_state).current_player.0 as int].num_moves < u32::MAX,
    ensures
        r is Ok <==> move_list@.contains(players_move),
        r is Err ==> r == Err::<(), GameError>(GameError::IllegalMove) && *final(game_state) == *old(game_state)
            && *final(stats) == *old(stats),
        r is Ok ==> ({
            let p = old(game_state).current_player.0 as int;
            &&& *final(game_state) == do_move_spec(*old(game_state), players_move)
            &&& consistent(*final(game_state))
            &&& final(stats).num_turns == old(stats).num_turns
            &&& final(stats).num_factory_refills == old(stats).num_factory_refills
            &&& final(stats).branching_factor@ == old(stats).branching_factor@.push(move_list@.len() as u32)
            &&& final(stats).executed_moves@ == old(stats).executed_moves@.push(
                (*old(game_state), old(game_state).current_player, players_move, response_time),
            )
            &&& final(stats).player_statistics[p].executed_moves@ == old(
                stats,
            ).player_statistics[p].executed_moves@.push((*old(game_state), players_move, response_time))
            &&& final(stats).player_statistics[p].num_moves == old(stats).player_statistics[p].num_moves + 1
            &&& final(stats).player_statistics[p].final_score == old(stats).player_statistics[p].final_score
            &&& final(stats).player_statistics[1 - p] == old(stats).player_statistics[1 - p]
        }),
{
    if !move_list.contains(players_move) {
        return Err(GameError::IllegalMove);
    }
    let ghost s = *game_state;
    proof {
        lemma_do_move_consistent(s, players_move);
    }
    let player = game_state.current_player;
    let p: usize = player.to_usize();
    stats.branching_factor.push(move_list.len() as u32);
    stats.executed_moves.push((*game_state, player, players_move, response_time));
    if p == 0 {
        stats.player_statistics[0].executed_moves.push((*game_state, players_move, response_time));
        stats.player_statistics[0].num_moves = stats.player_statistics[0].num_moves + 1;
    } else {
        stats.player_statistics[1].executed_moves.push((*game_state, players_move, response_time));
        stats.player_statistics[1].num_moves = stats.player_statistics[1].num_moves + 1;
    }
    game_state.do_move(players_move);
    Ok(())
}

/// Records the final scores of a finished game.
pub fn record_final_scores(game_state: &GameState, stats: &mut MatchStatistcs)
    ensures
        final(stats).player_statistics[0].final_score == game_state.scores[0],
        final(stats).player_statistics[1].final_score == game_state.scores[1],
        final(stats).player_statistics[0].executed_moves@ == old(stats).player_statistics[0].executed_moves@,
        final(stats).player_statistics[1].executed_moves@ == old(stats).player_statistics[1].executed_moves@,
        final(stats).player_statistics[0].num_moves == old(stats).player_statistics[0].num_moves,
        final(stats).player_statistics[1].num_moves == old(stats).player_statistics[1].num_moves,
        final(stats).num_turns == old(stats).num_turns,
        final(stats).num_factory_refills == old(stats).num_factory_refills,
        final(stats).executed_moves@ == old(stats).executed_moves@,
        final(stats).branching_factor@ == old(stats).branching_factor@,
{
    stats.player_statistics[0].final_score = game_state.scores[0];
    stats.player_statistics[1].final_score = game_state.scores[1];
}

} // verus!
