use chess_core::pieces::{Color, MoveStatus};
use chess_core::square::Square;

#[test]
fn squares_are_numbered_rank_by_rank() {
    assert_eq!(Square::A1.to_index(), 0);
    assert_eq!(Square::H1.to_index(), 7);
    assert_eq!(Square::A2.to_index(), 8);
    assert_eq!(Square::E2.to_index(), 12);
    assert_eq!(Square::E4.to_index(), 28);
    assert_eq!(Square::H8.to_index(), 63);
    assert_eq!(Square::Unset.to_index(), 64);
}

#[test]
fn index_round_trip_covers_the_board() {
    for index in 0..64usize {
        let square = Square::from_index(index);
        assert!(!square.is_none());
        assert_eq!(square.to_index(), index);
        assert_eq!(square.get_file() as usize, index % 8);
        assert_eq!(square.get_rank() as usize, index / 8);
        assert_eq!(Square::from_position((square.get_file(), square.get_rank())), square);
    }
}

#[test]
fn index_outside_the_board_is_unset() {
    assert_eq!(Square::from_index(64), Square::Unset);
    assert_eq!(Square::from_index(1000), Square::Unset);
}

#[test]
fn position_is_file_then_rank() {
    assert_eq!(Square::from_position((4, 1)), Square::E2);
    assert_eq!(Square::from_position((0, 7)), Square::A8);
    assert_eq!(Square::from_position((7, 0)), Square::H1);
    assert_eq!(Square::E2.to_position(), (4, 1));
    assert_eq!(Square::G5.get_file(), 6);
    assert_eq!(Square::G5.get_rank(), 4);
}

#[test]
fn position_outside_the_board_is_unset() {
    assert_eq!(Square::from_position((-1, 0)), Square::Unset);
    assert_eq!(Square::from_position((0, -1)), Square::Unset);
    assert_eq!(Square::from_position((8, 3)), Square::Unset);
    assert_eq!(Square::from_position((3, 8)), Square::Unset);
    assert_eq!(Square::from_position((i32::MAX, i32::MIN)), Square::Unset);
}

#[test]
fn unset_square_has_no_coordinates() {
    assert!(Square::Unset.is_none());
    assert!(!Square::A1.is_none());
    assert_eq!(Square::Unset.get_file(), -1);
    assert_eq!(Square::Unset.get_rank(), -1);
    assert_eq!(Square::Unset.to_position(), (-1, -1));
}

#[test]
fn squares_compare_by_coordinate() {
    assert_eq!(Square::from_position((2, 2)), Square::C3);
    assert_ne!(Square::C3, Square::C4);
    assert_ne!(Square::C3, Square::Unset);
}

#[test]
fn squares_have_names() {
    assert_eq!(Square::A1.name(), "A1");
    assert_eq!(Square::E2.name(), "E2");
    assert_eq!(Square::H8.name(), "H8");
    assert_eq!(Square::Unset.name(), "-");
    for index in 0..64usize {
        let square = Square::from_index(index);
        let file = (b'A' + square.get_file() as u8) as char;
        let rank = (b'1' + square.get_rank() as u8) as char;
        assert_eq!(square.name(), format!("{file}{rank}"));
    }
}

#[test]
fn colors_are_opposed() {
    assert_eq!(Color::White.opposite(), Color::Black);
    assert_eq!(Color::Black.opposite(), Color::White);
    assert_eq!(Color::White.opposite().opposite(), Color::White);
}

#[test]
fn move_status_carries_color_and_flag() {
    let mut status = MoveStatus::Pierced { by_color: Color::Black, activated: false };
    assert_eq!(status.by_color(), Color::Black);
    assert!(!status.is_activated());
    status.set_activated(true);
    assert_eq!(status, MoveStatus::Pierced { by_color: Color::Black, activated: true });
    assert!(status.is_activated());
    assert_eq!(status.by_color(), Color::Black);
    status.set_activated(false);
    assert_eq!(status, MoveStatus::Pierced { by_color: Color::Black, activated: false });
}

#[test]
fn only_quiet_moves_captures_and_castling_can_be_played() {
    let color = Color::White;
    assert!(MoveStatus::Movable { by_color: color, activated: false }.is_playable());
    assert!(MoveStatus::Capturable { by_color: color, activated: false }.is_playable());
    assert!(MoveStatus::Castling { by_color: color, activated: false }.is_playable());
    assert!(!MoveStatus::EnPassant { by_color: color, activated: false }.is_playable());
    assert!(!MoveStatus::Pierced { by_color: color, activated: false }.is_playable());
    assert!(MoveStatus::Movable { by_color: color, activated: false }.is_attacking());
    assert!(MoveStatus::Capturable { by_color: color, activated: false }.is_attacking());
    assert!(!MoveStatus::Castling { by_color: color, activated: false }.is_attacking());
    assert!(!MoveStatus::EnPassant { by_color: color, activated: false }.is_attacking());
    assert!(!MoveStatus::Pierced { by_color: color, activated: false }.is_attacking());
}
