use azul::snapshot::{pattern_line_entries, shown_floor_penalty, wall_by_color, wall_tiles};
use azul::TileColor;

#[test]
fn wall_fields_are_listed_in_reading_order_with_their_colors() {
    let mut wall = [0u32; 5];
    wall[2] = 1 << (1 * 6 + 3);
    wall[0] = 1 << 0;
    wall[4] = 1 << (4 * 6 + 4);
    let tiles = wall_tiles(&wall);
    assert_eq!(
        tiles,
        vec![(0, 0, TileColor::Blue), (1, 3, TileColor::Red), (4, 4, TileColor::White)]
    );
}

#[test]
fn a_field_on_two_boards_shows_the_first_color() {
    let mut wall = [0u32; 5];
    wall[1] = 1 << 2;
    wall[3] = 1 << 2;
    assert_eq!(wall_tiles(&wall), vec![(0, 2, TileColor::Yellow)]);
    assert_eq!(wall_tiles(&[0u32; 5]), vec![]);
}

#[test]
fn a_wall_split_by_color_shows_each_tile_in_its_background_color() {
    // Row 0 column 0 is blue; row 1 column 0 is white; row 2 column 3 is yellow.
    let wall: u32 = (1 << 0) | (1 << 6) | (1 << (2 * 6 + 3));
    let boards = wall_by_color(wall);
    assert_eq!(boards[0], 1);
    assert_eq!(
        wall_tiles(&boards),
        vec![(0, 0, TileColor::Blue), (1, 0, TileColor::White), (2, 3, TileColor::Yellow)]
    );
}

#[test]
fn only_pattern_lines_with_a_color_are_listed() {
    let occupancy = [1u8, 0, 2, 0, 5];
    let colors = [Some(TileColor::Red), None, Some(TileColor::Black), None, Some(TileColor::Blue)];
    assert_eq!(
        pattern_line_entries(&occupancy, &colors),
        vec![(0, TileColor::Red, 1), (2, TileColor::Black, 2), (4, TileColor::Blue, 5)]
    );
    assert_eq!(pattern_line_entries(&[0; 5], &[None; 5]), vec![]);
}

#[test]
fn shown_floor_penalty_stops_at_a_full_floor_line() {
    assert_eq!(shown_floor_penalty(0), 0);
    assert_eq!(shown_floor_penalty(3), 4);
    assert_eq!(shown_floor_penalty(7), 14);
    assert_eq!(shown_floor_penalty(12), 14);
}
