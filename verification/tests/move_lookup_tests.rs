use azul::encoding::moves::{build_move_lookup, build_reverse_lookup, encode_move};
use azul::game_state::GameState;
use azul::move_::Move;
use azul::TileColor;

fn key(f: u64, c: u64, l: u64) -> u64 {
    f * 65536 + c * 256 + l
}

#[test]
fn move_lookup_numbers_the_moves_in_ascending_order() {
    let lookup = build_move_lookup();
    assert_eq!(lookup.len(), 1080);
    assert_eq!(lookup.get(&key(0, 1, 0)), Some(&0));
    assert_eq!(lookup.get(&key(0, 3, 5)), Some(&11));
    assert_eq!(lookup.get(&key(1, 0, 0)), Some(&12));
    assert_eq!(lookup.get(&key(71, 0, 0)), Some(&1050));
    assert_eq!(lookup.get(&key(71, 4, 5)), Some(&1079));
    assert_eq!(lookup.get(&key(0, 0, 0)), None);
    assert_eq!(lookup.get(&key(70, 0, 0)), None);
    assert_eq!(lookup.get(&key(0, 1, 6)), None);
    let mut keys: Vec<(u64, usize)> = lookup.iter().map(|(k, v)| (*k, *v)).collect();
    keys.sort();
    for (i, (_, v)) in keys.iter().enumerate() {
        assert_eq!(*v, i);
    }
}

#[test]
fn reverse_lookup_gives_back_the_triples() {
    let lookup = build_move_lookup();
    let reverse = build_reverse_lookup(&lookup);
    assert_eq!(reverse.len(), 1080);
    assert_eq!(reverse[0], (0, 1, 0));
    assert_eq!(reverse[11], (0, 3, 5));
    assert_eq!(reverse[1050], (71, 0, 0));
    assert_eq!(reverse[1079], (71, 4, 5));
    for (k, v) in lookup.iter() {
        let (f, c, l) = reverse[*v];
        assert_eq!(key(f as u64, c as u64, l as u64), *k);
    }
}

#[test]
fn encode_move_reads_the_display_content() {
    let mut state = GameState::empty();
    state.factories.factories[1] = [0, 1, 0, 3, 0];
    let take_black = Move { factory_index: 1, color: TileColor::Black, pattern_line_index: 5, discards: 3, places: 0 };
    assert_eq!(encode_move(&state, take_black), Some(11));
    let take_red = Move { factory_index: 1, color: TileColor::Red, pattern_line_index: 0, discards: 0, places: 1 };
    assert_eq!(encode_move(&state, take_red), None);
    let from_center = Move { factory_index: 5, color: TileColor::White, pattern_line_index: 5, discards: 2, places: 0 };
    assert_eq!(encode_move(&state, from_center), Some(1079));
}
