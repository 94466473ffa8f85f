use azul::game_state::{GameError, GameState, MoveGenerationResult};
use azul::move_list::MoveList;
use rand::rngs::SmallRng;
use rand::{Rng, SeedableRng};

#[test]
fn test_serialize_deserialize() {
    let mut move_list = MoveList::new();
    for _ in 0..20 {
        let mut rng: SmallRng = SeedableRng::seed_from_u64(0);
        let mut game_state = GameState::new(&mut rng);
        loop {
            game_state.check_integrity().unwrap();

            let result = game_state.get_possible_moves(&mut move_list, &mut rng);
            if result == MoveGenerationResult::GameOver {
                break;
            }

            let move_ = move_list.get(rng.gen_range(0..move_list.len()));

            game_state.do_move(move_);
            println!("Did move: {}", move_.serialize_string());
            println!("{}", game_state.to_fen());
            game_state.check_integrity().unwrap();

            let string = game_state.to_fen();
            let reconstructed_game_state = GameState::from_fen(string.as_str()).unwrap();
            assert_eq!(game_state.bag, reconstructed_game_state.bag, "Bag");
            assert_eq!(game_state.out_of_bag, reconstructed_game_state.out_of_bag, "Out of bag");
            assert_eq!(game_state.factories, reconstructed_game_state.factories, "Factories");
            assert_eq!(game_state.scores, reconstructed_game_state.scores, "Scores");
            assert_eq!(
                game_state.floor_line_progress, reconstructed_game_state.floor_line_progress,
                "Floor line progress"
            );
            assert_eq!(game_state.walls, reconstructed_game_state.walls, "Wall occupancy");
            assert_eq!(
                game_state.pattern_lines_occupancy, reconstructed_game_state.pattern_lines_occupancy,
                "Pattern lines occupancy"
            );
            assert_eq!(
                game_state.pattern_lines_colors, reconstructed_game_state.pattern_lines_colors,
                "Pattern lines colors"
            );
            assert_eq!(game_state.current_player, reconstructed_game_state.current_player, "Current player");
            assert_eq!(
                game_state.next_round_starting_player, reconstructed_game_state.next_round_starting_player,
                "Next round starting player"
            );
        }
    }
}

const EMPTY_FEN: &str = "2_0_0_86236206100_0_0-0-0-0-0-0_65537000_0_0-0_0-0_1099511627775-1099511627775_0";

#[test]
fn empty_state_has_known_notation() {
    let state = GameState::empty();
    assert_eq!(state.to_fen(), EMPTY_FEN);
    let back = GameState::from_fen(EMPTY_FEN).unwrap();
    assert_eq!(back.to_fen(), EMPTY_FEN);
    assert_eq!(back.bag, [20; 5]);
    assert_eq!(back.pattern_lines_colors, [[None; 5]; 2]);
}

#[test]
fn notation_errors_name_the_first_problem() {
    assert_eq!(GameState::from_fen("x").unwrap_err(), "Invalid number of players");
    assert_eq!(
        GameState::from_fen("3_0_0").unwrap_err(),
        "Number of players in string (3) does not match number of players in game (2)"
    );
    assert_eq!(GameState::from_fen("2").unwrap_err(), "No current player");
    assert_eq!(GameState::from_fen("2_a").unwrap_err(), "Invalid current player");
    assert_eq!(GameState::from_fen("2_0").unwrap_err(), "No next round starting player");
    assert_eq!(GameState::from_fen("2_0_0").unwrap_err(), "No bag");
    assert_eq!(GameState::from_fen("2_0_0_1").unwrap_err(), "No out of bag");
    assert_eq!(GameState::from_fen("2_0_0_1_1").unwrap_err(), "No factories");
    assert_eq!(GameState::from_fen("2_0_0_1_1_0-0-0-0-0-0").unwrap_err(), "No scores");
    assert_eq!(
        GameState::from_fen("2_0_0_86236206100_0_0-0-0-0-0-0_65537000_0_0-0_0-0_1099511627775-1099511627775").unwrap_err(),
        "No tile taken from center"
    );
}

#[test]
fn new_game_deals_twenty_tiles() {
    let mut rng = SmallRng::seed_from_u64(7);
    let state = GameState::new(&mut rng);
    let in_bag: u32 = state.bag.iter().map(|&b| b as u32).sum();
    assert_eq!(in_bag, 80);
    for k in 0..5 {
        assert_eq!(state.factories.factories[k].iter().sum::<u8>(), 4);
    }
    assert_eq!(state.factories.factories[5], [0; 5]);
    assert!(state.check_integrity().is_ok());
}

#[test]
fn broken_state_fails_the_integrity_check() {
    let mut state = GameState::empty();
    assert!(state.check_integrity().is_ok());
    state.bag[0] = 21;
    match state.check_integrity() {
        Err(GameError::InvalidGameState(_)) => {},
        other => panic!("unexpected result {:?}", other),
    }
    let mut state = GameState::empty();
    state.pattern_lines_occupancy[0][2] = 1;
    assert!(state.check_integrity().is_err());
}

#[test]
fn moves_are_legal_and_pass_the_turn() {
    let mut rng = SmallRng::seed_from_u64(3);
    let mut state = GameState::new(&mut rng);
    let mut move_list = MoveList::new();
    let result = state.get_possible_moves(&mut move_list, &mut rng);
    assert_eq!(result, MoveGenerationResult::Continue);
    assert!(!move_list.is_empty());
    let move_ = move_list.get(0);
    let player = state.current_player;
    state.do_move(move_);
    assert_ne!(state.current_player, player);
    assert!(state.check_integrity().is_ok());
}

#[test]
fn a_game_played_to_the_end_reports_game_over() {
    let mut rng = SmallRng::seed_from_u64(11);
    let mut state = GameState::new(&mut rng);
    let mut move_list = MoveList::new();
    let mut rounds = 0;
    let mut finished = false;
    for _ in 0..10000 {
        match state.get_possible_moves(&mut move_list, &mut rng) {
            MoveGenerationResult::GameOver => {
                finished = true;
                break;
            },
            MoveGenerationResult::RoundOver => rounds += 1,
            MoveGenerationResult::Continue => {},
        }
        let move_ = move_list.get(rng.gen_range(0..move_list.len()));
        state.do_move(move_);
        assert!(state.check_integrity().is_ok());
    }
    assert!(finished);
    assert!(rounds >= 4);
    assert!(move_list.is_empty());
}

#[test]
fn the_integrity_report_says_what_is_wrong() {
    let mut state = GameState::empty();
    state.bag[0] = 15;
    state.factories.factories[1] = [5, 0, 0, 0, 0];
    state.pattern_lines_colors[1][2] = Some(azul::TileColor::Red);
    state.pattern_lines_occupancy[0][4] = 2;
    state.bag[3] = 18;
    state.pattern_lines_colors[0][4] = None;
    state.bag[4] = 22;
    state.bag[2] = 20;
    assert!(state.integrity_reportable());
    match state.check_integrity() {
        Err(GameError::InvalidGameState(text)) => assert_eq!(
            text,
            "Bag has more than 20 tiles of a color\n\
             Factory has 5 tiles\n\
             There are tiles in pattern line 4 of player 0 but they don't have a color\n\
             There are no tiles in pattern line 2 of player 1 but the line has a color Some(Red)\n"
        ),
        other => panic!("unexpected result {:?}", other),
    }
    let mut short = GameState::empty();
    short.bag[1] = 19;
    match short.check_integrity() {
        Err(GameError::InvalidGameState(text)) => {
            assert!(text.starts_with("The sum of the tiles does not add up to 100. [20, 19, 20, 20, 20] = 99\n"));
            assert!(text.ends_with(&format!("{}\n", short.to_fen())));
        },
        other => panic!("unexpected result {:?}", other),
    }
}
