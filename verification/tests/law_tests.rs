use azul::encoding::factory_encoding::FACTORY_ENCODING_SIZE;
use azul::encoding::pattern_line_encoding::get_pattern_line_index;
use azul::encoding::pattern_lines::{calculate_lower_index, calculate_upper_index};
use azul::game_state::GameState;
use azul::playout::get_random_move;
use rand::SeedableRng;
use azul::encoding::moves::{build_move_lookup, build_reverse_lookup};
use azul::factories::{hash_factory, unhash_factory};
use azul::heuristic::calculate_wall_after_round;
use azul::pattern::{is_pattern_empty, is_pattern_full, remaining_space};
use azul::wall::{check_complete_row_exists, count_complete_rows, count_row_neighbors, get_row_mask};
use azul::TileColor;

#[test]
fn every_display_content_is_numbered_and_read_back() {
    let mut seen = Vec::new();
    for a in 0..=4u8 {
        for b in 0..=4 - a {
            for c in 0..=4 - a - b {
                for d in 0..=4 - a - b - c {
                    let f = [a, b, c, d, 4 - a - b - c - d];
                    let i = hash_factory(&f);
                    assert!(i < 70);
                    assert_eq!(unhash_factory(i), f);
                    assert!(!seen.contains(&i));
                    seen.push(i);
                }
            }
        }
    }
    assert_eq!(seen.len(), 70);
    assert_eq!(hash_factory(&[0; 5]), 70);
}

#[test]
fn the_reverse_table_gives_the_key_of_every_number() {
    let m = build_move_lookup();
    let r = build_reverse_lookup(&m);
    assert_eq!(r.len(), m.len());
    for (i, (f, c, l)) in r.iter().enumerate() {
        let key = (*f as u64) * 65536 + (*c as u64) * 256 + (*l as u64);
        assert_eq!(m[&key], i);
    }
}

#[test]
fn complete_rows_are_rows_with_all_five_fields() {
    let row2 = get_row_mask(2);
    assert!(check_complete_row_exists(row2));
    assert_eq!(count_complete_rows(row2 | get_row_mask(4)), 2);
    assert!(!check_complete_row_exists(row2 & !(1u32 << 13)));
    assert_eq!(count_complete_rows(0), 0);
}

#[test]
fn a_placed_tile_joins_the_run_of_its_row() {
    // Row 0 holds columns 0, 1 and 3; a tile in column 2 makes a run of 4.
    assert_eq!(count_row_neighbors(0b1011, 2), 4);
    // Row 1 holds column 4; a tile in column 1 stands alone.
    assert_eq!(count_row_neighbors(1 << 10, 7), 1);
}

#[test]
fn free_places_of_a_pattern_line() {
    // Line 3 uses bits 9..=12; two of them set.
    let b = 0b11 << 9;
    assert_eq!(remaining_space(b, 3), 2);
    assert!(!is_pattern_full(b, 3) && !is_pattern_empty(b, 3));
    assert_eq!(remaining_space(0b1, 0), 0);
    assert!(is_pattern_full(0b1, 0));
    assert_eq!(remaining_space(0, 4), 5);
    assert!(is_pattern_empty(0, 4));
}

#[test]
fn the_heuristic_wall_after_the_round() {
    let colors = [Some(TileColor::Blue), Some(TileColor::Blue), None, None, None];
    assert_eq!(calculate_wall_after_round(0, &[1, 2, 0, 0, 0], &colors), 129);
    assert_eq!(calculate_wall_after_round(0, &[1, 1, 0, 0, 0], &colors), 1);
}

#[test]
fn a_random_move_drops_tiles_on_the_floor_only_when_no_line_takes_them() {
    let mut rng = rand::rngs::SmallRng::seed_from_u64(5);
    for _ in 0..200 {
        let mut state = GameState::new(&mut rng);
        let m = get_random_move(&mut state, &mut rng).unwrap();
        // Every pattern line is empty at the start, so some line takes them.
        assert!(m.pattern_line_index < 5);
    }
}

fn line_states(cap: u8) -> Vec<(u8, Option<TileColor>)> {
    let colors = [TileColor::Blue, TileColor::Yellow, TileColor::Red, TileColor::Black, TileColor::White];
    let mut states = vec![(0u8, None)];
    for n in 1..=cap {
        for c in colors {
            states.push((n, Some(c)));
        }
    }
    states
}

#[test]
fn every_upper_and_lower_index_is_reached_once() {
    let mut upper = Vec::new();
    for a in line_states(1) {
        for b in line_states(2) {
            for c in line_states(3) {
                upper.push(calculate_upper_index([a.0, b.0, c.0, 0, 0], [a.1, b.1, c.1, None, None]));
            }
        }
    }
    upper.sort();
    assert_eq!(upper, (0..1056).collect::<Vec<usize>>());
    let mut lower = Vec::new();
    for d in line_states(4) {
        for e in line_states(5) {
            lower.push(calculate_lower_index([0, 0, 0, d.0, e.0], [None, None, None, d.1, e.1]));
        }
    }
    lower.sort();
    assert_eq!(lower, (0..546).collect::<Vec<usize>>());
}

#[test]
fn every_pattern_line_feature_is_reached_once() {
    let mut features = Vec::new();
    for l in 0..6u8 {
        for (n, c) in line_states(l) {
            features.push(get_pattern_line_index(l as usize, n as usize, c, 0) - FACTORY_ENCODING_SIZE);
        }
    }
    features.sort();
    assert_eq!(features, (0..81).collect::<Vec<usize>>());
}
