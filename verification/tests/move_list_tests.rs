use azul::move_::Move;
use azul::move_list::MoveList;
use azul::TileColor;

#[test]
fn test_new() {
    let move_list = MoveList::new();
    assert_eq!(move_list.len(), 0);
    assert!(move_list.is_empty());
}

#[test]
fn test_push_and_len() {
    let mut move_list = MoveList::new();
    let move_ = Move::dummy();
    move_list.push(move_);
    assert_eq!(move_list.len(), 1);
    assert!(!move_list.is_empty());
}

#[test]
fn test_clear() {
    let mut move_list = MoveList::new();
    move_list.push(Move::dummy());
    move_list.clear();
    assert_eq!(move_list.len(), 0);
    assert!(move_list.is_empty());
}

#[test]
fn test_contains() {
    let mut move_list = MoveList::new();
    let move_ = Move::dummy();
    assert!(!move_list.contains(move_));
    move_list.push(move_);
    assert!(move_list.contains(move_));
}

#[test]
fn test_index() {
    let mut move_list = MoveList::new();
    let move_ = Move::dummy();
    move_list.push(move_);
    assert_eq!(&move_list.get(0), &move_);
}

#[test]
fn test_iter() {
    let mut move_list = MoveList::new();
    move_list.push(Move::dummy());
    move_list.push(Move::dummy());
    let moves = move_list.to_vec();
    let mut iter = moves.iter();
    assert_eq!(iter.next(), Some(&Move::dummy()));
    assert_eq!(iter.next(), Some(&Move::dummy()));
    assert_eq!(iter.next(), None);
}

fn sample(factory_index: u8, places: u8) -> Move {
    Move { factory_index, color: TileColor::Blue, pattern_line_index: 1, discards: 0, places }
}

#[test]
fn remove_moves_the_last_move_into_the_gap() {
    let mut move_list = MoveList::new();
    move_list.push(sample(0, 1));
    move_list.push(sample(1, 1));
    move_list.push(sample(2, 1));
    move_list.remove(0);
    assert_eq!(move_list.to_vec(), vec![sample(2, 1), sample(1, 1)]);
}

#[test]
fn swap_and_set_change_single_positions() {
    let mut move_list = MoveList::new();
    move_list.push(sample(0, 1));
    move_list.push(sample(1, 2));
    move_list.swap(0, 1);
    assert_eq!(move_list.to_vec(), vec![sample(1, 2), sample(0, 1)]);
    move_list.set(1, sample(3, 3));
    assert_eq!(move_list.get(1), sample(3, 3));
    assert!(!move_list.contains(sample(0, 1)));
}
