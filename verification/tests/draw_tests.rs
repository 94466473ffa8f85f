use azul::factories::{nth_nonempty_color, Factory};
use azul::game_state::GameState;
use azul::move_::Move;
use azul::playout::{move_from_draws, nth_nonempty_factory, PERMUTATIONS};
use azul::TileColor;
use rand::rngs::SmallRng;
use rand::SeedableRng;

#[test]
fn drawn_factory_is_counted_among_the_nonempty_ones() {
    let empty: Factory = [0, 0, 0, 0, 0];
    let f: [Factory; 6] = [empty, [1, 0, 0, 0, 3], empty, [0, 2, 2, 0, 0], [0, 0, 0, 4, 0], empty];
    assert_eq!(nth_nonempty_factory(&f, 0), 1);
    assert_eq!(nth_nonempty_factory(&f, 1), 3);
    assert_eq!(nth_nonempty_factory(&f, 2), 4);
}

#[test]
fn drawn_color_is_counted_among_the_colors_held() {
    let bag = [0u8, 3, 0, 2, 1];
    assert_eq!(nth_nonempty_color(&bag, 0), 1);
    assert_eq!(nth_nonempty_color(&bag, 1), 3);
    assert_eq!(nth_nonempty_color(&bag, 2), 4);
    let full = [20u8, 20, 20, 20, 20];
    for j in 0..5 {
        assert_eq!(nth_nonempty_color(&full, j), j);
    }
}

fn state_with_three_blue_in_first_factory() -> GameState {
    let mut rng = SmallRng::seed_from_u64(11);
    let mut state = GameState::new(&mut rng);
    state.factories.factories[0] = [3, 0, 0, 0, 1];
    state
}

#[test]
fn drawn_line_order_picks_the_first_line_that_takes_the_tiles() {
    let state = state_with_three_blue_in_first_factory();
    let m = move_from_draws(&state, 0, 0, PERMUTATIONS[0]);
    assert_eq!(m, Move { factory_index: 0, color: TileColor::Blue, pattern_line_index: 0, discards: 2, places: 1 });
    let m = move_from_draws(&state, 0, 0, [3, 0, 1, 2, 4]);
    assert_eq!(m, Move { factory_index: 0, color: TileColor::Blue, pattern_line_index: 3, discards: 0, places: 3 });
    let m = move_from_draws(&state, 0, 0, [1, 0, 2, 3, 4]);
    assert_eq!(m, Move { factory_index: 0, color: TileColor::Blue, pattern_line_index: 1, discards: 1, places: 2 });
}

#[test]
fn drawn_line_order_skips_lines_that_refuse_the_tiles() {
    let mut state = state_with_three_blue_in_first_factory();
    let cp = state.current_player.0 as usize;
    state.pattern_lines_occupancy[cp][0] = 1;
    state.pattern_lines_colors[cp][0] = Some(TileColor::Red);
    state.pattern_lines_occupancy[cp][1] = 1;
    state.pattern_lines_colors[cp][1] = Some(TileColor::Red);
    let m = move_from_draws(&state, 0, 0, PERMUTATIONS[0]);
    assert_eq!(m, Move { factory_index: 0, color: TileColor::Blue, pattern_line_index: 2, discards: 0, places: 3 });
    let m = move_from_draws(&state, 0, 0, [0, 0, 1, 1, 0]);
    assert_eq!(m, Move { factory_index: 0, color: TileColor::Blue, pattern_line_index: 5, discards: 3, places: 0 });
}
