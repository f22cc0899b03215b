use chess_core::board::{Board, CastlingRights};
use chess_core::moves::placable::Placable;
use chess_core::pieces::bishop::Bishop;
use chess_core::pieces::king::King;
use chess_core::pieces::knight::Knight;
use chess_core::pieces::pawn::Pawn;
use chess_core::pieces::queen::Queen;
use chess_core::pieces::rook::Rook;
use chess_core::pieces::{Color, MoveStatus, Piece};
use chess_core::square::Square;

fn all_rights() -> CastlingRights {
    CastlingRights {
        white_kingside: true,
        white_queenside: true,
        black_kingside: true,
        black_queenside: true,
    }
}

fn squares(mut listed: Vec<Square>) -> Vec<usize> {
    let mut indices: Vec<usize> = listed.drain(..).map(|square| square.to_index()).collect();
    indices.sort();
    indices
}

#[test]
fn empty_board_holds_nothing() {
    let board = Board::empty();
    for index in 0..64usize {
        let square = Square::from_index(index);
        assert!(board.is_empty(square));
        assert!(board.get_piece(square).is_none());
        assert_eq!(board.capturable_mark(square), None);
        assert_eq!(board.vulnerable_mark(square), None);
        assert!(!board.is_threatened(square));
    }
    assert_eq!(board.castling_rights(), all_rights());
}

#[test]
fn new_board_is_the_starting_position() {
    let board = Board::new();
    let back = |color: Color, file: i32, square: Square| -> Piece {
        match file {
            0 | 7 => Piece::R(Rook { color, coord: square }),
            1 | 6 => Piece::N(Knight { color, coord: square }),
            2 | 5 => Piece::B(Bishop { color, coord: square }),
            3 => Piece::Q(Queen { color, coord: square }),
            _ => Piece::K(King { color, is_checked: false }),
        }
    };
    for file in 0..8 {
        let first = Square::from_position((file, 0));
        let second = Square::from_position((file, 1));
        let seventh = Square::from_position((file, 6));
        let eighth = Square::from_position((file, 7));
        assert_eq!(board.get_piece(first), Some(&back(Color::White, file, first)));
        assert_eq!(
            board.get_piece(second),
            Some(&Piece::P(Pawn { color: Color::White, coord: second }))
        );
        assert_eq!(
            board.get_piece(seventh),
            Some(&Piece::P(Pawn { color: Color::Black, coord: seventh }))
        );
        assert_eq!(board.get_piece(eighth), Some(&back(Color::Black, file, eighth)));
        for rank in 2..6 {
            assert!(board.is_empty(Square::from_position((file, rank))));
        }
    }
    assert_eq!(board.get_piece(Square::D1).map(|piece| piece.get_color()), Some(Color::White));
    assert_eq!(
        board.get_piece(Square::E8),
        Some(&Piece::K(King { color: Color::Black, is_checked: false }))
    );
    assert_eq!(board.castling_rights(), all_rights());
    assert!(board.is_empty(Square::Unset));
    assert!(board.get_piece(Square::Unset).is_none());
}

#[test]
fn pieces_on_the_board_remember_their_squares() {
    let mut board = Board::new();
    board.move_piece(Square::G1, Square::F3).unwrap();
    board.move_piece(Square::D7, Square::D5).unwrap();
    board.put_piece(Square::A4, Piece::Q(Queen::new(Color::Black)));
    for index in 0..64usize {
        let square = Square::from_index(index);
        match board.get_piece(square) {
            Some(Piece::K(_)) => {},
            Some(piece) => assert_eq!(piece.get_coord(), square),
            None => {},
        }
    }
}

#[test]
fn put_and_remove_change_one_square() {
    let mut board = Board::empty();
    board.put_piece(Square::C3, Piece::N(Knight::new(Color::White)));
    assert_eq!(
        board.get_piece(Square::C3),
        Some(&Piece::N(Knight { color: Color::White, coord: Square::C3 }))
    );
    assert!(!board.is_empty(Square::C3));
    board.put_piece(Square::Unset, Piece::N(Knight::new(Color::White)));
    assert!(board.is_empty(Square::Unset));
    assert_eq!(
        board.remove_piece(Square::C3),
        Some(Piece::N(Knight { color: Color::White, coord: Square::C3 }))
    );
    assert_eq!(board.remove_piece(Square::C3), None);
    assert_eq!(board.remove_piece(Square::Unset), None);
    for index in 0..64usize {
        assert!(board.is_empty(Square::from_index(index)));
    }
}

#[test]
fn piece_on_the_board_can_be_changed_in_place() {
    let mut board = Board::new();
    match board.get_piece_mut(Square::E1) {
        Some(Piece::K(king)) => king.set_checked(true),
        _ => unreachable!(),
    }
    assert_eq!(
        board.get_piece(Square::E1),
        Some(&Piece::K(King { color: Color::White, is_checked: true }))
    );
    assert!(board.get_piece(Square::D1).is_some());
    assert!(board.get_piece_mut(Square::E4).is_none());
    assert!(board.get_piece_mut(Square::Unset).is_none());
}

#[test]
fn raw_move_relocates_without_asking_for_legality() {
    let mut board = Board::new();
    assert_eq!(board.move_piece(Square::A1, Square::E8), Ok(()));
    assert!(board.is_empty(Square::A1));
    assert_eq!(
        board.get_piece(Square::E8),
        Some(&Piece::R(Rook { color: Color::White, coord: Square::E8 }))
    );
    assert!(board.get_piece(Square::B1).is_some());
}

#[test]
fn raw_move_from_an_empty_square_fails() {
    let mut board = Board::new();
    assert_eq!(board.move_piece(Square::E4, Square::E5), Err("no piece on the source square"));
    assert_eq!(board.move_piece(Square::Unset, Square::E5), Err("no piece on the source square"));
    assert_eq!(
        board.move_piece(Square::E4, Square::Unset),
        Err("no piece on the source square")
    );
    assert!(board.is_empty(Square::E5));
    assert_eq!(board.castling_rights(), all_rights());
}

#[test]
fn raw_move_off_the_board_fails() {
    let mut board = Board::new();
    assert_eq!(board.move_piece(Square::E2, Square::Unset), Err("destination is off the board"));
    assert!(board.get_piece(Square::E2).is_some());
}

#[test]
fn castling_rights_end_when_king_or_rook_leaves_or_rook_is_taken() {
    let mut board = Board::new();
    board.move_piece(Square::H1, Square::H3).unwrap();
    assert_eq!(
        board.castling_rights(),
        CastlingRights { white_kingside: false, ..all_rights() }
    );
    board.move_piece(Square::H3, Square::H1).unwrap();
    assert_eq!(
        board.castling_rights(),
        CastlingRights { white_kingside: false, ..all_rights() }
    );
    board.move_piece(Square::E8, Square::E7).unwrap();
    assert_eq!(
        board.castling_rights(),
        CastlingRights {
            white_kingside: false,
            white_queenside: true,
            black_kingside: false,
            black_queenside: false,
        }
    );
    board.move_piece(Square::B8, Square::A1).unwrap();
    assert_eq!(
        board.castling_rights(),
        CastlingRights {
            white_kingside: false,
            white_queenside: false,
            black_kingside: false,
            black_queenside: false,
        }
    );
}

#[test]
fn moves_elsewhere_keep_the_castling_rights() {
    let mut board = Board::new();
    board.move_piece(Square::E2, Square::E4).unwrap();
    board.move_piece(Square::G8, Square::F6).unwrap();
    board.move_piece(Square::D1, Square::D8).unwrap();
    assert_eq!(board.castling_rights(), all_rights());
}

#[test]
fn marks_are_kept_per_square_and_cleared_together() {
    let mut board = Board::new();
    board.mark_capturable(Square::E5, Color::White);
    board.mark_vulnerable(Square::E4, Color::White);
    board.mark_vulnerable(Square::D6, Color::Black);
    board.mark_capturable(Square::Unset, Color::White);
    board.mark_vulnerable(Square::Unset, Color::White);
    assert_eq!(board.capturable_mark(Square::E5), Some(Color::White));
    assert_eq!(board.vulnerable_mark(Square::E5), None);
    assert_eq!(board.vulnerable_mark(Square::E4), Some(Color::White));
    assert_eq!(board.vulnerable_mark(Square::D6), Some(Color::Black));
    assert_eq!(board.capturable_mark(Square::Unset), None);
    assert_eq!(board.vulnerable_mark(Square::Unset), None);
    board.mark_capturable(Square::E5, Color::Black);
    assert_eq!(board.capturable_mark(Square::E5), Some(Color::Black));
    board.clear_marks();
    for index in 0..64usize {
        let square = Square::from_index(index);
        assert_eq!(board.capturable_mark(square), None);
        assert_eq!(board.vulnerable_mark(square), None);
    }
    assert!(board.get_piece(Square::E2).is_some());
}

#[test]
fn attack_is_a_quiet_move_or_a_capture_of_some_piece() {
    let mut board = Board::empty();
    board.put_piece(Square::A1, Piece::R(Rook::new(Color::White)));
    board.put_piece(Square::A5, Piece::P(Pawn::new(Color::Black)));
    board.put_piece(Square::C1, Piece::N(Knight::new(Color::White)));
    assert!(board.is_under_attack(Square::A3, Color::White));
    assert!(board.is_under_attack(Square::A5, Color::White));
    assert!(!board.is_under_attack(Square::A6, Color::White));
    assert!(!board.is_under_attack(Square::C1, Color::White));
    assert!(board.is_under_attack(Square::B1, Color::White));
    assert!(board.is_under_attack(Square::D3, Color::White));
    assert!(!board.is_under_attack(Square::D1, Color::White));
    assert!(board.is_under_attack(Square::A4, Color::Black));
    assert!(!board.is_under_attack(Square::B4, Color::Black));
    assert!(!board.is_under_attack(Square::Unset, Color::White));
    assert!(board.is_attacked_from(Square::A1, Square::A3, Color::White));
    assert!(!board.is_attacked_from(Square::A1, Square::A3, Color::Black));
    assert!(!board.is_attacked_from(Square::C1, Square::A3, Color::White));
    assert!(!board.is_attacked_from(Square::H8, Square::A3, Color::White));
}

#[test]
fn attack_queries_leave_the_board_as_it_is() {
    let board = Board::new();
    let before: Vec<Option<Piece>> =
        (0..64usize).map(|index| board.get_piece(Square::from_index(index)).copied()).collect();
    for index in 0..64usize {
        board.is_under_attack(Square::from_index(index), Color::White);
        board.is_under_attack(Square::from_index(index), Color::Black);
    }
    board.get_valid_moves_all(Color::White);
    board.king_in_check(Color::Black);
    board.can_move(Color::Black);
    let after: Vec<Option<Piece>> =
        (0..64usize).map(|index| board.get_piece(Square::from_index(index)).copied()).collect();
    assert_eq!(before, after);
}

#[test]
fn all_moves_at_the_start_are_sixteen_pushes_and_four_jumps() {
    let board = Board::new();
    let moves = board.get_valid_moves_all(Color::White);
    assert_eq!(moves.len(), 20);
    for file in 0..8 {
        for rank in 2..4 {
            let entry = (
                Square::from_position((file, rank)),
                MoveStatus::Movable { by_color: Color::White, activated: false },
            );
            assert!(moves.contains(&entry));
        }
    }
    let black = board.get_valid_moves_all(Color::Black);
    assert_eq!(black.len(), 20);
    assert!(black.contains(&(
        Square::F6,
        MoveStatus::Movable { by_color: Color::Black, activated: false }
    )));
    assert!(board.can_move(Color::White));
    assert!(board.can_move(Color::Black));
    assert!(!board.king_in_check(Color::White));
    assert!(!board.king_in_check(Color::Black));
}

#[test]
fn moves_from_a_square_belong_to_the_side_asked_for() {
    let board = Board::new();
    assert_eq!(board.get_valid_moves_from(Color::White, Square::E2).len(), 2);
    assert_eq!(board.get_valid_moves_from(Color::Black, Square::E2).len(), 0);
    assert_eq!(board.get_valid_moves_from(Color::White, Square::E4).len(), 0);
    assert_eq!(board.get_valid_moves_from(Color::White, Square::Unset).len(), 0);
}

#[test]
fn king_in_check_is_worked_out_from_the_board() {
    let mut board = Board::empty();
    board.put_piece(Square::E8, Piece::K(King::new(Color::Black)));
    board.put_piece(Square::E1, Piece::Q(Queen::new(Color::White)));
    board.put_piece(Square::A1, Piece::K(King::new(Color::White)));
    assert!(board.king_in_check(Color::Black));
    assert!(!board.king_in_check(Color::White));
    board.put_piece(Square::E5, Piece::P(Pawn::new(Color::Black)));
    assert!(!board.king_in_check(Color::Black));
    assert!(board.king_in_check(Color::Black) == board.king_in_check(Color::Black));
    let without_king = Board::empty();
    assert!(!without_king.king_in_check(Color::White));
    assert!(!without_king.can_move(Color::White));
}

#[test]
fn side_with_a_passing_capture_only_cannot_move() {
    let mut board = Board::empty();
    board.put_piece(Square::E5, Piece::P(Pawn::new(Color::White)));
    board.put_piece(Square::E6, Piece::P(Pawn::new(Color::Black)));
    board.put_piece(Square::D5, Piece::P(Pawn::new(Color::Black)));
    assert_eq!(
        board.get_valid_moves_all(Color::White),
        vec![(Square::D6, MoveStatus::EnPassant { by_color: Color::White, activated: false })]
    );
    assert!(!board.can_move(Color::White));
    assert!(board.can_move(Color::Black));
    board.remove_piece(Square::E6);
    assert!(board.can_move(Color::White));
}

#[test]
fn capture_record_names_the_attacked_pieces() {
    let mut board = Board::empty();
    board.put_piece(Square::E8, Piece::K(King::new(Color::Black)));
    board.put_piece(Square::E1, Piece::Q(Queen::new(Color::White)));
    board.put_piece(Square::A1, Piece::K(King::new(Color::White)));
    board.put_piece(Square::H4, Piece::B(Bishop::new(Color::Black)));
    board.put_piece(Square::B7, Piece::N(Knight::new(Color::Black)));
    board.update_capture_board();
    assert!(board.is_threatened(Square::E8));
    assert!(board.is_threatened(Square::E1));
    assert!(!board.is_threatened(Square::A1));
    assert!(board.is_threatened(Square::H4));
    assert!(!board.is_threatened(Square::B7));
    assert!(!board.is_threatened(Square::E4));
    assert!(!board.is_threatened(Square::Unset));
    assert_eq!(
        board.get_piece(Square::E8),
        Some(&Piece::K(King { color: Color::Black, is_checked: true }))
    );
    assert_eq!(
        board.get_piece(Square::A1),
        Some(&Piece::K(King { color: Color::White, is_checked: false }))
    );
    board.remove_piece(Square::E1);
    board.update_capture_board();
    assert!(!board.is_threatened(Square::E8));
    assert!(!board.is_threatened(Square::E1));
    assert_eq!(
        board.get_piece(Square::E8),
        Some(&Piece::K(King { color: Color::Black, is_checked: false }))
    );
}

#[test]
fn position_is_read_from_the_board() {
    let mut board = Board::new();
    let knight = Knight { color: Color::White, coord: Square::B1 };
    assert_eq!(Placable::get_position(&knight, &board), Some(Square::B1));
    board.move_piece(Square::B1, Square::C3).unwrap();
    assert_eq!(Placable::get_position(&knight, &board), None);
    let moved = Knight { color: Color::White, coord: Square::C3 };
    assert_eq!(Placable::get_position(&moved, &board), Some(Square::C3));
    let king = King::new(Color::Black);
    assert_eq!(Placable::get_position(&king, &board), Some(Square::E8));
    assert_eq!(Placable::get_color(&king), Color::Black);
    assert_eq!(Placable::get_color(&knight), Color::White);
    let piece = Piece::Q(Queen { color: Color::White, coord: Square::D1 });
    assert_eq!(Placable::get_position(&piece, &board), Some(Square::D1));
    assert_eq!(Placable::get_color(&piece), Color::White);
    let pawn = Pawn { color: Color::White, coord: Square::A2 };
    assert_eq!(Placable::get_position(&pawn, &board), Some(Square::A2));
    let bishop = Bishop { color: Color::Black, coord: Square::C8 };
    assert_eq!(Placable::get_position(&bishop, &board), Some(Square::C8));
    let rook = Rook { color: Color::Black, coord: Square::H8 };
    assert_eq!(Placable::get_position(&rook, &board), Some(Square::H8));
    let same_king_twice = {
        let mut two = Board::empty();
        two.put_piece(Square::G3, Piece::K(King::new(Color::White)));
        two.put_piece(Square::B2, Piece::K(King::new(Color::White)));
        Placable::get_position(&King::new(Color::White), &two)
    };
    assert_eq!(same_king_twice, Some(Square::B2));
}

#[test]
fn squares_to_play_and_squares_threatened() {
    let mut board = Board::empty();
    board.put_piece(Square::A1, Piece::R(Rook::new(Color::White)));
    board.put_piece(Square::A4, Piece::P(Pawn::new(Color::Black)));
    board.put_piece(Square::C1, Piece::N(Knight::new(Color::White)));
    let rook = Rook::new(Color::White);
    let wanted = vec![Square::A2, Square::A3, Square::A4, Square::B1];
    assert_eq!(
        squares(Placable::get_valid_moves(&rook, &board, Square::A1, false)),
        squares(wanted.clone())
    );
    assert_eq!(
        squares(Placable::get_valid_moves(&rook, &board, Square::A1, true)),
        squares(wanted)
    );
    let pawn = Pawn::new(Color::Black);
    assert_eq!(
        squares(Placable::get_valid_moves(&pawn, &board, Square::A4, true)),
        squares(vec![Square::A3])
    );
}

#[test]
fn king_threatens_more_than_it_can_play_and_castling_is_no_threat() {
    let mut board = Board::empty();
    board.put_piece(Square::E1, Piece::K(King::new(Color::White)));
    board.put_piece(Square::H1, Piece::R(Rook::new(Color::White)));
    board.put_piece(Square::D8, Piece::R(Rook::new(Color::Black)));
    board.put_piece(Square::E8, Piece::K(King::new(Color::Black)));
    let king = King::new(Color::White);
    assert_eq!(
        squares(Placable::get_valid_moves(&king, &board, Square::E1, false)),
        squares(vec![Square::F1, Square::E2, Square::F2, Square::G1])
    );
    assert_eq!(
        squares(Placable::get_valid_moves(&king, &board, Square::E1, true)),
        squares(vec![Square::D1, Square::F1, Square::D2, Square::E2, Square::F2])
    );
    let piece = Piece::K(king);
    assert_eq!(
        squares(Placable::get_valid_moves(&piece, &board, Square::E1, false)),
        squares(vec![Square::F1, Square::E2, Square::F2, Square::G1])
    );
    assert_eq!(piece.get_threats(&board, Square::E1).len(), 5);
    assert_eq!(piece.get_valid_moves(&board, Square::E1).len(), 4);
}
