use azul::encoding::factories::{add_non_center_factory_index, remove_non_center_factory_index};
use azul::encoding::factory_encoding::FACTORY_ENCODING_SIZE;
use azul::encoding::pattern_line_encoding::{get_pattern_line_index, PLAYER_PATTERN_LINE_ENCODING_SIZE};
use azul::encoding::pattern_lines;
use azul::encoding::wall;
use azul::factories::NUM_POSSIBLE_FACTORY_PERMUTATIONS;
use azul::{TileColor, NUM_TILE_COLORS};
use std::collections::HashSet;

#[test]
fn test_get_factory_index() {
    let mut factory_counts = [0; NUM_POSSIBLE_FACTORY_PERMUTATIONS];
    let factory = [0; NUM_TILE_COLORS];

    let index_1 = add_non_center_factory_index(&factory, &mut factory_counts);
    let index_2 = add_non_center_factory_index(&factory, &mut factory_counts);
    let undo_1 = remove_non_center_factory_index(&factory, &mut factory_counts);
    let undo_2 = remove_non_center_factory_index(&factory, &mut factory_counts);
    assert_eq!(index_1, undo_2);
    assert_eq!(index_2, undo_1);

    println!("index_1: {}", index_1);
    println!("index_2: {}", index_2);
    println!("undo_1: {}", undo_1);
    println!("undo_2: {}", undo_2);
}

#[test]
fn factory_features_are_numbered_by_count_then_content() {
    let mut factory_counts = [0; NUM_POSSIBLE_FACTORY_PERMUTATIONS];
    assert_eq!(add_non_center_factory_index(&[0, 0, 0, 0, 0], &mut factory_counts), 70);
    assert_eq!(add_non_center_factory_index(&[0, 0, 0, 0, 0], &mut factory_counts), 141);
    assert_eq!(add_non_center_factory_index(&[0, 1, 0, 3, 0], &mut factory_counts), 0);
    assert_eq!(factory_counts[70], 2);
    assert_eq!(factory_counts[0], 1);
    assert_eq!(remove_non_center_factory_index(&[0, 1, 0, 3, 0], &mut factory_counts), 0);
    assert_eq!(factory_counts[0], 0);
}

fn color_or_none(tiles: usize, color: usize) -> Option<TileColor> {
    if tiles == 0 {
        None
    } else {
        Some(TileColor::from_usize(color))
    }
}

#[test]
fn pattern_lines_test_calculate_upper_index_all_combinations() {
    let mut indices_set = HashSet::new();
    for tiles1 in 0..=1 {
        for color1 in 0..NUM_TILE_COLORS {
            for tiles2 in 0..=2 {
                for color2 in 0..NUM_TILE_COLORS {
                    for tiles3 in 0..=3 {
                        for color3 in 0..NUM_TILE_COLORS {
                            let lines = [tiles1 as u8, tiles2 as u8, tiles3 as u8, 0, 0];
                            let colors = [
                                color_or_none(tiles1, color1),
                                color_or_none(tiles2, color2),
                                color_or_none(tiles3, color3),
                                None,
                                None,
                            ];
                            let index = pattern_lines::calculate_upper_index(lines, colors);
                            indices_set.insert(index);
                        }
                    }
                }
            }
        }
    }
    assert_eq!(indices_set.len(), 1056);
}

#[test]
fn pattern_lines_test_calculate_lower_index_all_combinations() {
    let start_time = std::time::Instant::now();
    let mut indices_set = HashSet::new();
    for tiles4 in 0..=4 {
        for color4 in 0..NUM_TILE_COLORS {
            for tiles5 in 0..=5 {
                for color5 in 0..NUM_TILE_COLORS {
                    let lines = [0, 0, 0, tiles4 as u8, tiles5 as u8];
                    let colors = [None, None, None, color_or_none(tiles4, color4), color_or_none(tiles5, color5)];
                    let index = pattern_lines::calculate_lower_index(lines, colors);
                    indices_set.insert(index);
                }
            }
        }
    }
    assert_eq!(indices_set.len(), 546);
    println!("Time taken: {:?}", start_time.elapsed());
}

#[test]
fn pattern_line_indices_have_exact_values() {
    let none = [None, None, None, None, None];
    assert_eq!(pattern_lines::calculate_upper_index([0, 0, 0, 0, 0], none), 0);
    let colors = [Some(TileColor::Yellow), Some(TileColor::Red), Some(TileColor::White), None, None];
    // 1 + 1 = 2; 1 + 5 + 2 = 8; 1 + 10 + 4 = 15.
    assert_eq!(pattern_lines::calculate_upper_index([1, 2, 3, 0, 0], colors), 2 + 6 * 8 + 66 * 15);
    let colors = [None, None, None, Some(TileColor::Black), Some(TileColor::Blue)];
    // 1 + 15 + 3 = 19; 1 + 20 + 0 = 21.
    assert_eq!(pattern_lines::calculate_lower_index([0, 0, 0, 4, 5], colors), 19 + 21 * 21);
}

#[test]
fn wall_test_calculate_upper_index_all_combinations() {
    let mut indices_set = HashSet::new();
    for row1 in 0..=31u32 {
        for row2 in 0..=31u32 {
            let wall = (row1 << 6) | row2;
            let index = wall::calculate_upper_index(wall);
            indices_set.insert(index);
        }
    }
    assert_eq!(indices_set.len(), 1024);
    let max = indices_set.iter().max().unwrap();
    assert_eq!(*max, 1023);
}

#[test]
fn test_calculate_middle_index_all_combinations() {
    let mut indices_set = HashSet::new();
    for row3 in 0..=31u32 {
        for row4 in 0..=31u32 {
            let wall = (row3 << 12) | (row4 << 18);
            let index = wall::calculate_middle_index(wall);
            indices_set.insert(index);
        }
    }
    assert_eq!(indices_set.len(), 1024);
    let max = indices_set.iter().max().unwrap();
    assert_eq!(*max, 1023);
}

#[test]
fn wall_test_calculate_lower_index_all_combinations() {
    let mut indices_set = HashSet::new();
    for row5 in 0..=31u32 {
        let wall = row5 << 24;
        let index = wall::calculate_lower_index(wall);
        indices_set.insert(index);
    }
    assert_eq!(indices_set.len(), 32);
    let max = indices_set.iter().max().unwrap();
    assert_eq!(*max, 31);
}

#[test]
fn wall_indices_read_the_rows() {
    // Row 0 = 0b00001, row 1 = 0b00010, row 2 = 0b00100, row 3 = 0b01000, row 4 = 0b10000.
    let wall: u32 = 1 | (2 << 6) | (4 << 12) | (8 << 18) | (16 << 24);
    assert_eq!(wall::calculate_upper_index(wall), 32 + 2);
    assert_eq!(wall::calculate_middle_index(wall), 4 * 32 + 8);
    assert_eq!(wall::calculate_lower_index(wall), 16);
}

#[test]
fn test_pattern_line() {
    let mut encoding = [0; PLAYER_PATTERN_LINE_ENCODING_SIZE];

    for pattern_line_index in 0..6 {
        for num_tiles in 0..pattern_line_index + 1 {
            if num_tiles > 0 {
                for color in 0..NUM_TILE_COLORS {
                    let result = get_pattern_line_index(
                        pattern_line_index,
                        num_tiles,
                        Some(TileColor::from_usize(color)),
                        0,
                    ) - FACTORY_ENCODING_SIZE;
                    encoding[result] += 1;
                }
            } else {
                let result = get_pattern_line_index(pattern_line_index, 0, None, 0) - FACTORY_ENCODING_SIZE;
                encoding[result] += 1;
            }
        }
    }

    println!("encoding: {:?}", encoding);
    assert_eq!(encoding, [1; PLAYER_PATTERN_LINE_ENCODING_SIZE]);
}

#[test]
fn pattern_line_index_of_second_player_is_shifted_by_a_block() {
    let first = get_pattern_line_index(2, 1, Some(TileColor::Red), 0);
    let second = get_pattern_line_index(2, 1, Some(TileColor::Red), 1);
    assert_eq!(first, FACTORY_ENCODING_SIZE + 7 + 1 + 2);
    assert_eq!(second - first, PLAYER_PATTERN_LINE_ENCODING_SIZE);
}
