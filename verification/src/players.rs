//! Players: the interface every player offers, the greedy player, and the
//! state of the other players that the library keeps.
use vstd::prelude::*;
use crate::consistency::{consistent, lemma_consistent_generable, lemma_generation_consistent,
    lemma_do_move_consistent, lemma_tiles_left_after_round};
use crate::playout::{get_random_move, random_move_possible};
use crate::game_state::do_move_spec;
use crate::game_state::end_of_game;
use rand::rngs::SmallRng;
use crate::factories::{all_empty, total};
use crate::game_state::{GameState, MoveGenerationResult, evaluated, ends_game, dealt_from, legal_moves};
use crate::move_::Move;
use crate::move_list::MoveList;
use crate::rng::{fresh_rng, random_below};
use crate::time_control::TimeControl;

verus! {

/// Whether a player can be asked for a move in `s`: the state is sound, and
/// where the round is over, scoring it does not end the game and leaves
/// tiles to deal.
pub open spec fn playable(s: GameState) -> bool {
    &&& consistent(s)
    &&& all_empty(s.factories.factories) ==> !ends_game(evaluated(s)) && total(evaluated(s).bag) + total(
        evaluated(s).out_of_bag,
    ) > 0
}

/// Whether `t` is what move generation leaves of `s`: the same state while
/// the round goes on, else the scored round with new tiles dealt.
pub open spec fn generated_from(s: GameState, t: GameState) -> bool {
    &&& !all_empty(s.factories.factories) ==> t == s
    &&& all_empty(s.factories.factories) ==> dealt_from(evaluated(s), t)
}

/// A player of the game.
pub trait Player {
    /// The player's name.
    fn get_name(&self) -> &str;

    /// Renames the player; players without a name of their own ignore it.
    fn set_name(&mut self, _name: &str) {
    }

    /// The move the player makes in `game_state`.
    fn get_move(&mut self, game_state: &GameState) -> Move
        requires
            playable(*game_state),
    ;

    /// Tells the player of a move made.
    fn notify_move(&mut self, _new_game_state: &GameState, _move_: Move) {
    }

    /// Tells the player that the factories were refilled.
    fn notify_factories_refilled(&mut self, _game_state: &GameState) {
    }

    /// Tells the player that the game is over.
    fn notify_game_over(&mut self, _game_state: &GameState) {
    }

    /// Sets the player's time control.
    fn set_time(&mut self, _time: TimeControl) {
    }

    /// Lets the player think on the opponent's time, or not.
    fn set_pondering(&mut self, _pondering: bool) {
    }

    /// Sets how many threads the player may use.
    fn set_thread_count(&mut self, _thread_count: u32) {
    }

    /// Forgets what the player learnt of the current game.
    fn reset(&mut self) {
    }
}

/// A player that takes the first legal move it finds.
pub struct GreedyPlayer {
    name: String,
    move_list: MoveList,
}

impl GreedyPlayer {
    /// The player's name.
    pub closed spec fn name_view(&self) -> Seq<char> {
        self.name@
    }

    /// The moves the player last generated.
    pub closed spec fn moves_view(&self) -> Seq<Move> {
        self.move_list@
    }
}

impl Default for GreedyPlayer {
    fn default() -> (r: Self)
        ensures
            r.name_view() == "Greedy Player"@,
    {
        let name = String::from_str("Greedy Player");
        let move_list = MoveList::default();
        GreedyPlayer { name, move_list }
    }
}

/// A legal move is not empty where the factories hold tiles.
proof fn lemma_some_legal_move(t: GameState)
    requires
        !all_empty(t.factories.factories),
    ensures
        legal_moves(t).len() > 0,
{
    let (fi, c) = choose|fi: int, c: int| 0 <= fi < 6 && 0 <= c < 5 && t.factories.factories[fi][c] != 0;
    crate::playout::lemma_floor_move_legal(t, fi, c);
}

impl Player for GreedyPlayer {
    /// The player's name.
    fn get_name(&self) -> (r: &str)
        ensures
            r@ == self.name_view(),
    {
        self.name.as_str()
    }

    /// Gives the player the name `name`; its moves are kept.
    fn set_name(&mut self, name: &str)
        ensures
            final(self).name_view() == name@,
            final(self).moves_view() == old(self).moves_view(),
    {
        self.name = String::from_str(name);
    }

    /// Generates the moves (scoring and dealing a finished round first), then
    /// tries each move on a copy of the state and keeps the first one whose
    /// score for the player to move beats the best so far; as the score is
    /// read from the state before the move, that is the first legal move.
    fn get_move(&mut self, game_state: &GameState) -> (m: Move)
        ensures
            exists|t: GameState| generated_from(*game_state, t) && legal_moves(t).len() > 0 && m == legal_moves(t)[0],
    {
        let mut game_state: GameState = *game_state;
        let ghost s = game_state;
        proof {
            lemma_consistent_generable(s);
        }
        let mut rng = fresh_rng();
        let result = game_state.get_possible_moves(&mut self.move_list, &mut rng);
        let ghost t = game_state;
        proof {
            lemma_generation_consistent(s, t);
            if all_empty(s.factories.factories) {
                crate::game_state::lemma_integrity_bounds(evaluated(s));
                crate::playout::lemma_dealt_not_empty(evaluated(s), t);
            }
            lemma_some_legal_move(t);
            assert(generated_from(s, t));
        }
        let mut best_move = self.move_list.get(0);
        let mut best_score: i16 = -1000;
        let me: usize = game_state.current_player.to_usize();
        let mut i: usize = 0;
        while i < self.move_list.len()
            invariant
                consistent(t),
                game_state == t,
                self.move_list@ == legal_moves(t),
                legal_moves(t).len() > 0,
                me == t.current_player.0,
                me < 2,
                i == 0 ==> best_move == legal_moves(t)[0] && best_score == -1000,
                i > 0 ==> best_move == legal_moves(t)[0] && best_score == t.scores[me as int],
                0 <= t.scores[me as int],
            decreases self.move_list@.len() - i,
        {
            let move_ = self.move_list.get(i);
            let mut game_state_clone = game_state;
            proof {
                assert(legal_moves(t)[i as int] == move_);
                assert(legal_moves(t).contains(move_));
                lemma_do_move_consistent(t, move_);
            }
            game_state_clone.do_move(move_);
            let score = game_state.scores[me];
            if score > best_score {
                best_score = score;
                best_move = move_;
            }
            i = i + 1;
        }
        best_move
    }
}

/// A player that makes a move drawn uniformly among the legal moves.
pub struct RandomPlayer {
    name: String,
    move_list: MoveList,
    rng: SmallRng,
}

impl RandomPlayer {
    /// The player's name.
    pub closed spec fn name_view(&self) -> Seq<char> {
        self.name@
    }

    /// The moves the player last generated.
    pub closed spec fn moves_view(&self) -> Seq<Move> {
        self.move_list@
    }

    /// The generator the player draws its moves with.
    pub closed spec fn rng_view(&self) -> SmallRng {
        self.rng
    }
}

impl Default for RandomPlayer {
    fn default() -> (r: Self)
        ensures
            r.name_view() == "Random Player"@,
    {
        let move_list = MoveList::default();
        let rng = fresh_rng();
        RandomPlayer { name: String::from_str("Random Player"), move_list, rng }
    }
}

impl Player for RandomPlayer {
    /// The player's name.
    fn get_name(&self) -> (r: &str)
        ensures
            r@ == self.name_view(),
    {
        self.name.as_str()
    }

    /// Gives the player the name `name`; its moves are kept.
    fn set_name(&mut self, name: &str)
        ensures
            final(self).name_view() == name@,
            final(self).moves_view() == old(self).moves_view(),
            final(self).rng_view() == old(self).rng_view(),
    {
        self.name = String::from_str(name);
    }

    /// Generates the moves (scoring and dealing a finished round first) and
    /// returns one of them, drawn at random.
    fn get_move(&mut self, game_state: &GameState) -> (m: Move)
        ensures
            exists|t: GameState| generated_from(*game_state, t) && legal_moves(t).contains(m),
    {
        let mut game_state: GameState = *game_state;
        let ghost s = game_state;
        proof {
            lemma_consistent_generable(s);
        }
        let _ = game_state.get_possible_moves(&mut self.move_list, &mut self.rng);
        let ghost t = game_state;
        proof {
            if all_empty(s.factories.factories) {
                crate::game_state::lemma_integrity_bounds(evaluated(s));
                crate::playout::lemma_dealt_not_empty(evaluated(s), t);
            }
            lemma_some_legal_move(t);
            assert(generated_from(s, t));
        }
        let i = random_below(&mut self.rng, self.move_list.len());
        let m = self.move_list.get(i);
        assert(legal_moves(t)[i as int] == m);
        m
    }
}

/// The playout that makes random moves.
#[derive(Default)]
pub struct RandomPlayoutPolicy;

/// Whether `t` is how a game ends from `s`: the round of the sound state `s`
/// is over, scoring it ends the game, and `t` is the scored end of the game.
pub open spec fn game_ended_from(s: GameState, t: GameState) -> bool {
    &&& consistent(s)
    &&& all_empty(s.factories.factories)
    &&& ends_game(evaluated(s))
    &&& t == end_of_game(evaluated(s))
}

/// A random move can be drawn in every sound state.
proof fn lemma_random_move_possible(s: GameState)
    requires
        consistent(s),
    ensures
        random_move_possible(s),
{
    lemma_consistent_generable(s);
    if all_empty(s.factories.factories) {
        lemma_tiles_left_after_round(s);
    }
}

/// Whether `u` follows from `s` by one turn: the moves are generated (a
/// finished round scored and dealt first), and one of them is made.
pub open spec fn one_turn(s: GameState, u: GameState) -> bool {
    exists|t: GameState, m: Move|
        #![trigger generated_from(s, t), do_move_spec(t, m)]
        generated_from(s, t) && legal_moves(t).contains(m) && u == do_move_spec(t, m)
}

/// Whether `u` follows from `s` by `n` turns.
pub open spec fn turns_from(s: GameState, u: GameState, n: nat) -> bool
    decreases n,
{
    if n == 0 {
        u == s
    } else {
        exists|v: GameState| turns_from(s, v, (n - 1) as nat) && #[trigger] one_turn(v, u)
    }
}

proof fn lemma_one_more_turn(s: GameState, v: GameState, u: GameState, n: nat)
    requires
        turns_from(s, v, n),
        one_turn(v, u),
    ensures
        turns_from(s, u, n + 1),
{
    assert((((n + 1) as nat) - 1) as nat == n);
    assert(turns_from(s, v, (((n + 1) as nat) - 1) as nat));
}

impl RandomPlayoutPolicy {
    /// Plays random moves (at most 90, as a game where every player can only
    /// discard would not end) until the game is over, and returns how many
    /// moves were made. The final scores are then in `game_state`: it is
    /// reached by `depth` legal turns, and then, where fewer than 90 were
    /// made, by scoring the round that ends the game.
    pub fn playout(&mut self, game_state: &mut GameState, rng: &mut SmallRng) -> (depth: u16)
        requires
            consistent(*old(game_state)),
        ensures
            depth <= 90,
            depth == 90 ==> consistent(*final(game_state)) && turns_from(*old(game_state), *final(game_state), 90),
            depth < 90 ==> exists|s: GameState|
                turns_from(*old(game_state), s, depth as nat) && #[trigger] game_ended_from(s, *final(game_state)),
    {
        let ghost start = *game_state;
        let mut depth: u16 = 0;
        assert(turns_from(start, *game_state, 0));
        while depth < 90
            invariant_except_break
                depth <= 90,
                consistent(*game_state),
                turns_from(start, *game_state, depth as nat),
            ensures
                depth == 90 ==> consistent(*game_state) && turns_from(start, *game_state, 90),
                depth < 90 ==> exists|s: GameState|
                    turns_from(start, s, depth as nat) && #[trigger] game_ended_from(s, *game_state),
                depth <= 90,
            decreases 90 - depth,
        {
            let ghost s = *game_state;
            proof {
                lemma_random_move_possible(s);
            }
            match get_random_move(game_state, rng) {
                Some(m) => {
                    let ghost t = *game_state;
                    proof {
                        lemma_generation_consistent(s, t);
                        lemma_do_move_consistent(t, m);
                    }
                    game_state.do_move(m);
                    proof {
                        assert(generated_from(s, t));
                        assert(legal_moves(t).contains(m) && *game_state == do_move_spec(t, m));
                        assert(one_turn(s, *game_state));
                        let n: nat = (depth + 1) as nat;
                        assert(((n - 1) as nat) == depth as nat);
                        lemma_one_more_turn(start, s, *game_state, depth as nat);
                    }
                },
                None => {
                    assert(game_ended_from(s, *game_state));
                    assert(turns_from(start, s, depth as nat));
                    break;
                },
            }
            depth = depth + 1;
        }
        depth
    }
}

/// The playout that runs a small search for each move.
pub struct MetaPlayoutPolicy {
    pub iterations: usize,
    pub move_list: MoveList,
}

impl Default for MetaPlayoutPolicy {
    fn default() -> (r: Self)
        ensures
            r.iterations == 50000,
            r.move_list@.len() == 0,
    {
        MetaPlayoutPolicy { iterations: 50_000, move_list: MoveList::new() }
    }
}

/// The state of a human player at the terminal: the moves to choose from.
pub struct HumanCommandLinePlayer {
    pub move_list: MoveList,
}

impl Default for HumanCommandLinePlayer {
    fn default() -> (r: Self)
        ensures
            r.move_list@.len() == 0,
    {
        HumanCommandLinePlayer { move_list: MoveList::new() }
    }
}

} // verus!
