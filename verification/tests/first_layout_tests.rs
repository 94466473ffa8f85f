use azul::encoding::factory_encoding::{
    add_center_factory_encoding, add_non_center_factory_encoding, remove_center_factory_encoding,
    remove_non_center_factory_encoding,
};
use azul::encoding::accumulator::Accumulator;
use azul::encoding::features::InputChange;
use azul::encoding::game_state_encoding::encode_game_state;
use azul::encoding::pattern_line_encoding::{add_pattern_line_encoding, remove_pattern_line_encoding};
use azul::encoding::score_encoding::add_player_score_encoding;
use azul::encoding::wall_encoding::add_wall_encoding;
use azul::game_state::GameState;
use azul::TileColor;
use rand::rngs::SmallRng;
use rand::SeedableRng;

#[test]
fn display_count_features_move_with_the_count() {
    let mut counter = [0usize; 71];
    let factory = [0, 1, 0, 3, 0];
    assert_eq!(add_non_center_factory_encoding(&factory, &mut counter), vec![InputChange::On(0)]);
    assert_eq!(add_non_center_factory_encoding(&factory, &mut counter), vec![InputChange::Off(0), InputChange::On(1)]);
    assert_eq!(counter[0], 2);
    assert_eq!(remove_non_center_factory_encoding(&factory, &mut counter), vec![InputChange::On(1), InputChange::Off(0)]);
    assert_eq!(remove_non_center_factory_encoding(&factory, &mut counter), vec![InputChange::On(0)]);
    assert_eq!(counter[0], 0);
}

#[test]
fn center_and_line_features_have_fixed_places() {
    assert_eq!(add_center_factory_encoding(3, 2), InputChange::On(355 + 30 + 3));
    assert_eq!(remove_center_factory_encoding(3, 2), InputChange::Off(355 + 30 + 3));
    assert_eq!(add_pattern_line_encoding(2, 1, Some(TileColor::Red), 0), InputChange::On(430 + 10));
    assert_eq!(remove_pattern_line_encoding(0, 0, None, 1), InputChange::Off(430 + 81));
}

#[test]
fn score_features_count_the_floor_line() {
    assert_eq!(
        add_player_score_encoding(1, 10, 2, true),
        vec![InputChange::On(1681), InputChange::On(1681 + 1 + 8), InputChange::On(1681 + 1 + 120 + 2)]
    );
    assert_eq!(
        add_player_score_encoding(0, 3, 9, false),
        vec![InputChange::On(1552 + 1), InputChange::On(1552 + 1 + 120 + 7)]
    );
}

#[test]
fn wall_features_read_rows_columns_and_colors() {
    let empty = add_wall_encoding(0, 0);
    let expected: Vec<InputChange> = (0..15).map(|i| InputChange::On(592 + 31 * (i % 5) + 155 * (i / 5))).collect();
    assert_eq!(empty, expected);
    // Field (row 1, column 2) holds a yellow tile: the pattern 0b00100 shows
    // up in row 1, in column 2 and for yellow.
    let wall: u32 = 1 << (6 + 2);
    let features = add_wall_encoding(wall, 1);
    let base = 592 + 480;
    assert_eq!(features[1], InputChange::On(base + 31 + 4));
    assert_eq!(features[7], InputChange::On(base + 155 + 4 + 62));
    assert_eq!(features[11], InputChange::On(base + 310 + 4 + 31));
    assert_eq!(features[12], InputChange::On(base + 310 + 62));
}

#[test]
fn an_empty_position_is_encoded_completely() {
    let state = GameState::empty();
    let mut counter = [0usize; 71];
    let changes = encode_game_state(&state, &mut counter);
    assert_eq!(counter[70], 5);
    assert_eq!(changes[0], InputChange::On(350));
    assert_eq!(changes[1], InputChange::Off(350));
    assert_eq!(changes[2], InputChange::On(351));
    // 9 display changes, 5 center features, and for each player 5 lines,
    // 15 wall features and 2 score features.
    assert_eq!(changes.len(), 9 + 5 + 2 * (5 + 15 + 2));
}

#[test]
fn test_accumulator() {
    let mut rng = SmallRng::from_seed([0; 32]);
    let game_state = GameState::new(&mut rng);
    let mut accumulator = Accumulator::new();
    println!("{}", game_state.to_fen());
    let changes = accumulator.set_game_state(&game_state);
    assert_eq!(changes[0], InputChange::AllOff);
    assert_eq!(accumulator.multi_factory_counter.iter().sum::<usize>(), 5);
}
