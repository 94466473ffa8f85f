use azul::encoding::feature_size;
use azul::events::{begin_turn, finish_turn, record_final_scores, MatchStatistcs};
use azul::game_state::{GameError, GameState, MoveGenerationResult};
use azul::move_::Move;
use azul::move_list::MoveList;
use azul::players::{GreedyPlayer, Player, RandomPlayer, RandomPlayoutPolicy};
use azul::time_control::{MctsTimeControl, RemainingTimeInfo, TimeControl, TimeControlResult};
use azul::TileColor;
use rand::rngs::SmallRng;
use rand::{Rng, SeedableRng};

#[test]
fn a_match_records_every_turn() {
    let mut rng = SmallRng::seed_from_u64(21);
    let mut state = GameState::new(&mut rng);
    let mut move_list = MoveList::new();
    let mut stats = MatchStatistcs::new();
    let mut turns = 0u32;
    let mut refills = 0u32;
    loop {
        let result = begin_turn(&mut state, &mut move_list, &mut rng, &mut stats);
        if result.is_game_over() {
            break;
        }
        turns += 1;
        if result.is_round_over() {
            refills += 1;
        }
        let chosen = move_list.get(rng.gen_range(0..move_list.len()));
        let player = state.current_player.to_usize();
        let before = stats.player_statistics[player].num_moves;
        assert!(finish_turn(&mut state, &move_list, chosen, 5, &mut stats).is_ok());
        assert_eq!(stats.player_statistics[player].num_moves, before + 1);
    }
    record_final_scores(&state, &mut stats);
    assert_eq!(stats.num_turns, turns);
    assert_eq!(stats.num_factory_refills, refills);
    assert_eq!(stats.executed_moves.len() as u32, turns);
    assert_eq!(stats.branching_factor.len() as u32, turns);
    assert_eq!(stats.player_statistics[0].final_score, state.scores[0]);
    assert_eq!(stats.player_statistics[1].final_score, state.scores[1]);
    assert_eq!(
        stats.player_statistics[0].num_moves + stats.player_statistics[1].num_moves,
        turns
    );
}

#[test]
fn an_illegal_move_is_refused_and_changes_nothing() {
    let mut rng = SmallRng::seed_from_u64(4);
    let mut state = GameState::new(&mut rng);
    let mut move_list = MoveList::new();
    let mut stats = MatchStatistcs::new();
    let result = begin_turn(&mut state, &mut move_list, &mut rng, &mut stats);
    assert_eq!(result, MoveGenerationResult::Continue);
    assert!(result.is_continue());
    let before = state.to_fen();
    let bogus = Move { factory_index: 5, color: TileColor::Red, pattern_line_index: 0, discards: 0, places: 1 };
    assert!(!move_list.contains(bogus));
    assert_eq!(finish_turn(&mut state, &move_list, bogus, 1, &mut stats), Err(GameError::IllegalMove));
    assert_eq!(state.to_fen(), before);
    assert_eq!(stats.executed_moves.len(), 0);
    assert_eq!(stats.num_turns, 1);
}

#[test]
fn random_playouts_end_the_game_or_stop_after_ninety_moves() {
    for seed in 0..10u64 {
        let mut rng = SmallRng::seed_from_u64(seed);
        let mut state = GameState::new(&mut rng);
        let mut policy = RandomPlayoutPolicy;
        let depth = policy.playout(&mut state, &mut rng);
        assert!(depth <= 90);
        if depth < 90 {
            assert!(state.factories.is_empty());
        }
    }
}

#[test]
fn greedy_and_random_players_make_legal_moves() {
    let mut rng = SmallRng::seed_from_u64(9);
    let state = GameState::new(&mut rng);
    let mut move_list = MoveList::new();
    let mut copy = state;
    let _ = copy.get_possible_moves(&mut move_list, &mut rng);
    let mut greedy = GreedyPlayer::default();
    assert_eq!(greedy.get_name(), "Greedy Player");
    let m = greedy.get_move(&state);
    assert_eq!(m, move_list.get(0));
    let mut random = RandomPlayer::default();
    assert_eq!(random.get_name(), "Random Player");
    random.set_name("R");
    assert_eq!(random.get_name(), "R");
    for _ in 0..20 {
        assert!(move_list.contains(random.get_move(&state)));
    }
}

#[test]
fn time_control_constructors_and_feature_sizes() {
    assert_eq!(TimeControl::sudden_death(10), TimeControl::SuddenDeath { total_milliseconds: 10 });
    assert_eq!(
        TimeControl::incremental(10, 2),
        TimeControl::Incremental { total_milliseconds: 10, increment_milliseconds: 2 }
    );
    assert_eq!(TimeControl::constant_time_per_move(7), TimeControl::ConstantTimePerMove { milliseconds_per_move: 7 });
    let t = TimeControl::fischer_timing_with_max_time(1000, 10, 300);
    assert_eq!(t.get_total_time(), 1000);
    assert_eq!(t.to_display_string(), "Fischer Timing: 1000ms base, 10ms increment, 300ms max");
    assert_eq!(feature_size(81, true), 162);
    assert_eq!(feature_size(81, false), 81);
    assert!(MoveGenerationResult::GameOver.is_game_over());
    assert!(!MoveGenerationResult::GameOver.is_continue());
}

#[test]
fn the_search_clock_stops_and_charges_the_time() {
    let info = RemainingTimeInfo { current_search_allocated_time: Some(500), game_remaining_time: None };
    let mut clock = MctsTimeControl::new(TimeControl::sudden_death(10_000));
    match clock.conclude(500, 100, false, info) {
        TimeControlResult::ContinueFor(ms, _) => assert_eq!(ms, 80),
        TimeControlResult::Stop => panic!("stopped too early"),
    }
    assert_eq!(clock.remaining_time(), 10_000);
    match clock.conclude(500, 2000, false, info) {
        TimeControlResult::Stop => {},
        _ => panic!("should stop"),
    }
    assert_eq!(clock.remaining_time(), 8_000);
    match clock.conclude(100_000, 1600, true, info) {
        TimeControlResult::Stop => {},
        _ => panic!("should stop early"),
    }
    let mut fischer = MctsTimeControl::new(TimeControl::fischer_timing_with_max_time(1000, 300, 1100));
    match fischer.conclude(0, 100, false, info) {
        TimeControlResult::Stop => {},
        _ => panic!("should stop"),
    }
    assert_eq!(fischer.remaining_time(), 1100);
    match fischer.conclude(100_000, 1000, false, info) {
        TimeControlResult::ContinueFor(ms, _) => assert_eq!(ms, 1000),
        _ => panic!("should go on"),
    }
}
