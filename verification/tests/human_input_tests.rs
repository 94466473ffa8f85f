use azul::human_input::{
    offered_colors, offered_factories, offered_lines, offers, read_color_answer, read_factory_answer,
    read_line_answer, retain_moves, ChoiceError, MoveFilter,
};
use azul::move_::Move;
use azul::TileColor;

fn mv(factory_index: u8, color: TileColor, pattern_line_index: u8) -> Move {
    Move { factory_index, color, pattern_line_index, discards: 0, places: 1 }
}

fn sample() -> Vec<Move> {
    vec![
        mv(0, TileColor::Red, 0),
        mv(0, TileColor::Red, 5),
        mv(2, TileColor::Blue, 1),
        mv(5, TileColor::White, 3),
        mv(0, TileColor::Black, 2),
    ]
}

#[test]
fn the_offered_choices_are_listed_in_order() {
    let moves = sample();
    assert_eq!(offered_factories(&moves), vec![0, 2, 5]);
    assert_eq!(offered_colors(&moves), vec![TileColor::Blue, TileColor::Red, TileColor::Black, TileColor::White]);
    assert_eq!(offered_lines(&moves), vec![0, 1, 2, 3, 5]);
    assert!(offers(&moves, MoveFilter::Factory(2)));
    assert!(!offers(&moves, MoveFilter::Factory(1)));
    assert!(offered_factories(&Vec::new()).is_empty());
}

#[test]
fn narrowing_keeps_the_matching_moves_in_order() {
    let mut moves = sample();
    retain_moves(&mut moves, MoveFilter::Factory(0));
    assert_eq!(moves, vec![mv(0, TileColor::Red, 0), mv(0, TileColor::Red, 5), mv(0, TileColor::Black, 2)]);
    retain_moves(&mut moves, MoveFilter::Color(TileColor::Red));
    assert_eq!(moves, vec![mv(0, TileColor::Red, 0), mv(0, TileColor::Red, 5)]);
    retain_moves(&mut moves, MoveFilter::PatternLine(5));
    assert_eq!(moves, vec![mv(0, TileColor::Red, 5)]);
    retain_moves(&mut moves, MoveFilter::PatternLine(1));
    assert!(moves.is_empty());
}

#[test]
fn factory_answers_count_from_one() {
    let moves = sample();
    assert_eq!(read_factory_answer("1", &moves), Ok(MoveFilter::Factory(0)));
    assert_eq!(read_factory_answer("+6", &moves), Ok(MoveFilter::Factory(5)));
    assert_eq!(read_factory_answer("2", &moves), Err(ChoiceError::NotAvailable));
    assert_eq!(read_factory_answer("0", &moves), Err(ChoiceError::NotAvailable));
    assert_eq!(read_factory_answer("256", &moves), Err(ChoiceError::Unreadable));
    assert_eq!(read_factory_answer("x", &moves), Err(ChoiceError::Unreadable));
    assert_eq!(read_factory_answer("", &moves), Err(ChoiceError::Unreadable));
}

#[test]
fn color_answers_are_letters_in_either_case() {
    let moves = sample();
    assert_eq!(read_color_answer("r", &moves), Ok(MoveFilter::Color(TileColor::Red)));
    assert_eq!(read_color_answer("K", &moves), Ok(MoveFilter::Color(TileColor::Black)));
    assert_eq!(read_color_answer("Y", &moves), Err(ChoiceError::NotAvailable));
    assert_eq!(read_color_answer("G", &moves), Err(ChoiceError::Unreadable));
    assert_eq!(read_color_answer("RR", &moves), Err(ChoiceError::Unreadable));
}

#[test]
fn line_answers_count_from_one_with_the_floor_sixth() {
    let moves = sample();
    assert_eq!(read_line_answer("6", &moves), Ok(MoveFilter::PatternLine(5)));
    assert_eq!(read_line_answer("1", &moves), Ok(MoveFilter::PatternLine(0)));
    assert_eq!(read_line_answer("5", &moves), Err(ChoiceError::NotAvailable));
    assert_eq!(read_line_answer("-1", &moves), Err(ChoiceError::Unreadable));
}
