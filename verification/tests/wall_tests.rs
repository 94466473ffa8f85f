use azul::wall::{
    check_complete_row_exists, count_column_neighbors, count_complete_columns, count_complete_rows,
    count_full_colors, count_row_neighbors, get_placed_tile_score, VALID_WALL_TILES,
};
use rand::Rng;

fn count_row_neighbors_check(mut occupancy: u32, new_tile_pos: u8) -> u32 {
    let new_tile: u32 = 1 << new_tile_pos;
    occupancy |= new_tile;
    let mut neighbors = 0b0;
    let mut bit = new_tile;
    while bit & occupancy > 0 {
        neighbors |= bit;
        bit <<= 1;
    }
    bit = new_tile;
    while bit & occupancy > 0 {
        neighbors |= bit;
        bit >>= 1;
    }
    neighbors.count_ones()
}

fn display_bitboard(bitboard: u32) {
    for row in 0..5 {
        let mut line = String::new();
        for col in 0..5 {
            let bit_position = row * 6 + (4 - col);
            let is_set = bitboard & (1 << bit_position) != 0;
            line.push(if is_set { '1' } else { '.' });
        }
        println!("{}", line);
    }
}

#[test]
fn test_count_row_neighbors_quick() {
    let mut rng = rand::thread_rng();
    for _ in 0..1000 {
        let occupancy: u32 = rng.gen();
        let occupancy = occupancy & VALID_WALL_TILES;

        let mut new_tile_pos: u8;
        loop {
            new_tile_pos = rng.gen_range(0..30);
            if 1 << new_tile_pos & occupancy == 0 && 1 << new_tile_pos & VALID_WALL_TILES > 0 {
                break;
            }
        }
        println!("Occupancy:");
        display_bitboard(occupancy);
        println!("New tile:");
        display_bitboard(1 << new_tile_pos);
        let expected = count_row_neighbors_check(occupancy, new_tile_pos);
        let actual = count_row_neighbors(occupancy, new_tile_pos);
        println!("Expected: {}", expected);
        println!("Actual: {}", actual);
        assert_eq!(expected, actual);
    }
}

#[test]
fn lone_tile_scores_one_point() {
    assert_eq!(get_placed_tile_score(0, 14), 1);
    assert_eq!(count_row_neighbors(0, 14), 1);
    assert_eq!(count_column_neighbors(0, 14), 1);
}

#[test]
fn tile_joining_a_row_and_a_column_scores_both_lines() {
    // Row 2 holds columns 0 and 1, column 2 holds rows 0 and 1.
    let occupancy = (1 << 12) | (1 << 13) | (1 << 2) | (1 << 8);
    assert_eq!(count_row_neighbors(occupancy, 14), 3);
    assert_eq!(count_column_neighbors(occupancy, 14), 3);
    assert_eq!(get_placed_tile_score(occupancy, 14), 6);
}

#[test]
fn tile_joining_only_a_row_scores_the_row() {
    let occupancy = (1 << 0) | (1 << 1) | (1 << 3);
    assert_eq!(get_placed_tile_score(occupancy, 2), 4);
}

#[test]
fn complete_lines_and_colors_are_counted() {
    assert!(!check_complete_row_exists(0));
    assert_eq!(count_complete_rows(0), 0);
    let first_row = 0b11111;
    assert!(check_complete_row_exists(first_row));
    assert_eq!(count_complete_rows(first_row), 1);
    assert_eq!(count_complete_rows(VALID_WALL_TILES), 5);
    let first_column = (1 << 0) | (1 << 6) | (1 << 12) | (1 << 18) | (1 << 24);
    assert_eq!(count_complete_columns(first_column), 1);
    assert_eq!(count_complete_columns(first_row), 0);
    assert_eq!(count_complete_columns(VALID_WALL_TILES), 5);
    assert_eq!(count_full_colors(VALID_WALL_TILES), 5);
    assert_eq!(count_full_colors(first_row), 0);
}
