use azul::edge::{ChildCount, Edge, ProbabilisticOutcome};
use azul::factories::Factories;
use azul::events::{str_eq, EventType, Match, MatchState};
use azul::formatting::bag_to_string;
use azul::game_state::GameState;
use azul::move_::Move;
use azul::move_list::MoveList;
use azul::playout::get_random_move;
use azul::time_control::{MctsTimeControl, TimeControl};
use azul::{PlayerMarker, TileColor};
use rand::rngs::SmallRng;
use rand::SeedableRng;

#[test]
fn move_text_round_trips() {
    let m = Move { factory_index: 1, color: TileColor::Yellow, pattern_line_index: 2, discards: 3, places: 4 };
    let text = m.serialize_string();
    assert_eq!(text, "1120304");
    assert_eq!(Move::deserialize_string(&text).unwrap(), m);
    let m = Move { factory_index: 5, color: TileColor::White, pattern_line_index: 5, discards: 12, places: 0 };
    assert_eq!(m.serialize_string(), "5451200");
    assert_eq!(Move::deserialize_string("5451200").unwrap(), m);
}

#[test]
fn bad_move_texts_are_refused() {
    assert_eq!(Move::deserialize_string("12").unwrap_err(), "String too short");
    assert_eq!(Move::deserialize_string("x120304").unwrap_err(), "Invalid factory index");
    assert_eq!(Move::deserialize_string("1y20304").unwrap_err(), "Invalid color");
    assert_eq!(Move::deserialize_string("11z0304").unwrap_err(), "Invalid pattern line index");
    assert_eq!(Move::deserialize_string("112a304").unwrap_err(), "Invalid discards");
    assert_eq!(Move::deserialize_string("11203b4").unwrap_err(), "Invalid places");
    assert_eq!(Move::deserialize_string("a\u{20ac}\u{20ac}\u{20ac}").unwrap_err(), "Invalid factory index");
}

#[test]
fn move_counts_its_tiles() {
    let m = Move { factory_index: 0, color: TileColor::Red, pattern_line_index: 5, discards: 3, places: 0 };
    assert!(m.is_discard_only());
    assert_eq!(m.tiles_taken(), 3);
    let m = Move { factory_index: 0, color: TileColor::Red, pattern_line_index: 1, discards: 1, places: 2 };
    assert!(!m.is_discard_only());
    assert_eq!(m.tiles_taken(), 3);
}

#[test]
fn player_markers_alternate() {
    let first = PlayerMarker::new(0);
    assert_eq!(first.next(), PlayerMarker::new(1));
    assert_eq!(first.next().next(), first);
    assert_eq!(PlayerMarker::new(1).to_usize(), 1);
}

#[test]
fn tile_colors_convert_both_ways() {
    for n in 0..5u8 {
        let color = TileColor::from_u8(n);
        assert_eq!(color.to_u8(), n);
        assert_eq!(TileColor::from_usize(n as usize), color);
    }
    assert_eq!(TileColor::Black.to_char(), 'K');
    assert_eq!(TileColor::Blue.to_display_string(), "\x1b[34mB\x1b[0m");
    assert_eq!(TileColor::Black.to_display_string(), "\x1b[32mG\x1b[0m");
}

#[test]
fn bag_line_lists_each_color() {
    let text = bag_to_string(&[1, 2, 3, 4, 5]);
    assert_eq!(
        text,
        "\x1b[34mB\x1b[0m 1\t\x1b[33mY\x1b[0m 2\t\x1b[31mR\x1b[0m 3\t\x1b[32mG\x1b[0m 4\t\x1b[97mW\x1b[0m 5\t\n"
    );
}

#[test]
fn time_controls_have_total_times_and_texts() {
    let t = TimeControl::SuddenDeath { total_milliseconds: 60000 };
    assert_eq!(t.get_total_time(), 60000);
    assert_eq!(t.to_display_string(), "Sudden Death: 60000ms");
    let t = TimeControl::Incremental { total_milliseconds: 1000, increment_milliseconds: 20 };
    assert_eq!(t.get_total_time(), 1000);
    assert_eq!(t.to_display_string(), "Incremental: 1000ms total, 20ms increment");
    let t = TimeControl::ConstantTimePerMove { milliseconds_per_move: 250 };
    assert_eq!(t.get_total_time(), 250);
    assert_eq!(t.to_display_string(), "Constant Time Per Move: 250ms");
    let t = TimeControl::ConstantIterationsPerMove { iterations_per_move: 800 };
    assert_eq!(t.get_total_time(), 0);
    assert_eq!(t.to_display_string(), "Constant Iterations Per Move: 800");
}

#[test]
fn search_clock_starts_full_and_resets() {
    let t = TimeControl::SuddenDeath { total_milliseconds: 5000 };
    let mut clock = MctsTimeControl::new(t);
    assert_eq!(clock.remaining_time(), 5000);
    clock.set_remaining_time(1200);
    assert_eq!(clock.remaining_time(), 1200);
    clock.reset();
    assert_eq!(clock.remaining_time(), 5000);
    assert_eq!(clock.time_control(), t);
}

#[test]
fn event_types_are_named() {
    assert_eq!(EventType::from_str("ping"), Some(EventType::Ping));
    assert_eq!(EventType::from_str("new_game"), Some(EventType::NewGame));
    assert_eq!(EventType::from_str("error"), Some(EventType::Error));
    assert_eq!(EventType::from_str("pong"), None);
    assert_eq!(EventType::NewGame.to_string(), "new_game");
    assert!(str_eq("abc", "abc"));
    assert!(!str_eq("abc", "abd"));
    assert!(!str_eq("abc", "ab"));
}

#[test]
fn a_new_match_has_not_started() {
    let m = Match::new(String::from("m-1"), GameState::empty());
    assert_eq!(m.get_id(), "m-1");
    assert_eq!(m.state, MatchState::NotStarted);
}

#[test]
fn child_counts_add_up() {
    let mut a = ChildCount { deterministic: 2, probabilistic: 3 };
    a.add_assign(ChildCount { deterministic: 5, probabilistic: 7 });
    assert_eq!(a.deterministic, 7);
    assert_eq!(a.probabilistic, 10);
}

#[test]
fn random_moves_are_legal() {
    let mut rng = SmallRng::seed_from_u64(5);
    let mut state = GameState::new(&mut rng);
    let mut move_list = MoveList::new();
    for _ in 0..200 {
        let mut copy = state;
        let mut rng_copy = rng.clone();
        let _ = copy.get_possible_moves(&mut move_list, &mut rng_copy);
        match get_random_move(&mut state, &mut rng) {
            None => break,
            Some(m) => {
                assert_eq!(copy.to_fen(), state.to_fen());
                assert!(move_list.contains(m));
                state.do_move(m);
                assert!(state.check_integrity().is_ok());
            },
        }
    }
}

#[test]
fn edges_are_shown_as_moves_or_dealt_tiles() {
    let m = Move { factory_index: 1, color: TileColor::Yellow, pattern_line_index: 2, discards: 0, places: 2 };
    assert_eq!(Edge::Deterministic(m).to_display_string(), m.to_display_string());
    let mut factories = Factories::empty();
    factories.factories[0] = [1, 0, 0, 0, 0];
    factories.factories[1] = [0, 2, 0, 0, 0];
    let outcome = ProbabilisticOutcome { factories, bag: [0; 5], out_of_bag: [0; 5] };
    let blue = "\x1b[34mB\x1b[0m";
    let yellow = "\x1b[33mY\x1b[0m";
    assert_eq!(Edge::Probabilistic(outcome).to_display_string(), format!("{} {}{}   ", blue, yellow, yellow));
}
