use chess_core::board::{Board, CastlingRights};
use chess_core::pieces::bishop::Bishop;
use chess_core::pieces::king::King;
use chess_core::pieces::knight::Knight;
use chess_core::pieces::pawn::Pawn;
use chess_core::pieces::queen::Queen;
use chess_core::pieces::rook::Rook;
use chess_core::pieces::{Color, MoveStatus, Piece};
use chess_core::square::Square;

fn quiet(color: Color) -> MoveStatus {
    MoveStatus::Movable { by_color: color, activated: false }
}

fn capture(color: Color) -> MoveStatus {
    MoveStatus::Capturable { by_color: color, activated: false }
}

fn pierced(color: Color) -> MoveStatus {
    MoveStatus::Pierced { by_color: color, activated: false }
}

fn passing(color: Color) -> MoveStatus {
    MoveStatus::EnPassant { by_color: color, activated: false }
}

fn castling(color: Color) -> MoveStatus {
    MoveStatus::Castling { by_color: color, activated: false }
}

fn sorted(moves: Vec<(Square, MoveStatus)>) -> Vec<(usize, MoveStatus)> {
    let mut listed: Vec<(usize, MoveStatus)> =
        moves.into_iter().map(|entry| (entry.0.to_index(), entry.1)).collect();
    listed.sort_by_key(|entry| {
        let kind = match entry.1 {
            MoveStatus::Movable { .. } => 0,
            MoveStatus::Capturable { .. } => 1,
            MoveStatus::EnPassant { .. } => 2,
            MoveStatus::Castling { .. } => 3,
            MoveStatus::Pierced { .. } => 4,
        };
        (entry.0, kind)
    });
    listed
}

fn expect(moves: Vec<(Square, MoveStatus)>, wanted: Vec<(Square, MoveStatus)>) {
    assert_eq!(sorted(moves), sorted(wanted));
}

fn no_rights() -> CastlingRights {
    CastlingRights {
        white_kingside: false,
        white_queenside: false,
        black_kingside: false,
        black_queenside: false,
    }
}

#[test]
fn new_pieces_stand_nowhere() {
    assert_eq!(Pawn::new(Color::White).get_coord(), Square::Unset);
    assert_eq!(Knight::new(Color::Black).get_coord(), Square::Unset);
    assert_eq!(Bishop::new(Color::White).get_coord(), Square::Unset);
    assert_eq!(Rook::new(Color::Black).get_coord(), Square::Unset);
    assert_eq!(Queen::new(Color::White).get_coord(), Square::Unset);
    assert_eq!(Pawn::new(Color::White).get_color(), Color::White);
    assert_eq!(Knight::new(Color::Black).get_color(), Color::Black);
    assert_eq!(Bishop::new(Color::White).get_color(), Color::White);
    assert_eq!(Rook::new(Color::Black).get_color(), Color::Black);
    assert_eq!(Queen::new(Color::White).get_color(), Color::White);
    assert_eq!(King::new(Color::Black).get_color(), Color::Black);
    assert!(!King::new(Color::Black).is_checked());
}

#[test]
fn pieces_remember_what_they_are_told() {
    let mut bishop = Bishop::new(Color::White);
    bishop.set_coord(Square::C1);
    assert_eq!(bishop.get_coord(), Square::C1);
    assert_eq!(bishop.get_color(), Color::White);
    let mut knight = Knight::new(Color::Black);
    knight.set_coord(Square::G8);
    assert_eq!(knight.get_coord(), Square::G8);
    let mut pawn = Pawn::new(Color::Black);
    pawn.set_coord(Square::D7);
    assert_eq!(pawn.get_coord(), Square::D7);
    let mut king = King::new(Color::White);
    king.set_checked(true);
    assert!(king.is_checked());
    assert_eq!(king.get_color(), Color::White);
    king.set_checked(false);
    assert!(!king.is_checked());
    let mut piece = Piece::R(Rook::new(Color::White));
    piece.set_coord(Square::A1);
    assert_eq!(piece.get_coord(), Square::A1);
    assert_eq!(piece, Piece::R(Rook { color: Color::White, coord: Square::A1 }));
    let mut crowned = Piece::K(King::new(Color::White));
    crowned.set_coord(Square::E1);
    assert_eq!(crowned.get_coord(), Square::Unset);
    assert_eq!(crowned.get_color(), Color::White);
}

#[test]
fn pawn_becomes_a_piece_of_its_own_side_on_its_square() {
    let pawn = Pawn { color: Color::Black, coord: Square::C1 };
    assert_eq!(pawn.try_into_queen(), Some(Queen { color: Color::Black, coord: Square::C1 }));
    assert_eq!(pawn.try_into_knight(), Some(Knight { color: Color::Black, coord: Square::C1 }));
    assert_eq!(pawn.try_into_bishop(), Some(Bishop { color: Color::Black, coord: Square::C1 }));
    assert_eq!(pawn.try_into_rook(), Some(Rook { color: Color::Black, coord: Square::C1 }));
}

#[test]
fn white_pawn_on_its_starting_rank_has_two_pushes() {
    let board = Board::new();
    let pawn = Pawn::new(Color::White);
    expect(
        pawn.get_valid_moves(&board, Square::E2),
        vec![(Square::E3, quiet(Color::White)), (Square::E4, quiet(Color::White))],
    );
}

#[test]
fn black_pawn_on_its_starting_rank_has_two_pushes() {
    let board = Board::new();
    let pawn = Pawn::new(Color::Black);
    expect(
        pawn.get_valid_moves(&board, Square::C7),
        vec![(Square::C6, quiet(Color::Black)), (Square::C5, quiet(Color::Black))],
    );
}

#[test]
fn pawn_off_its_starting_rank_has_one_push() {
    let mut board = Board::empty();
    board.put_piece(Square::E3, Piece::P(Pawn::new(Color::White)));
    board.put_piece(Square::C6, Piece::P(Pawn::new(Color::Black)));
    expect(
        Pawn::new(Color::White).get_valid_moves(&board, Square::E3),
        vec![(Square::E4, quiet(Color::White))],
    );
    expect(
        Pawn::new(Color::Black).get_valid_moves(&board, Square::C6),
        vec![(Square::C5, quiet(Color::Black))],
    );
}

#[test]
fn blocked_pawn_has_no_push() {
    let mut board = Board::empty();
    board.put_piece(Square::E2, Piece::P(Pawn::new(Color::White)));
    board.put_piece(Square::E3, Piece::N(Knight::new(Color::Black)));
    expect(Pawn::new(Color::White).get_valid_moves(&board, Square::E2), vec![]);
    let mut board = Board::empty();
    board.put_piece(Square::E2, Piece::P(Pawn::new(Color::White)));
    board.put_piece(Square::E4, Piece::N(Knight::new(Color::White)));
    expect(
        Pawn::new(Color::White).get_valid_moves(&board, Square::E2),
        vec![(Square::E3, quiet(Color::White))],
    );
}

#[test]
fn pawn_captures_diagonally_ahead_and_nowhere_else() {
    let mut board = Board::empty();
    board.put_piece(Square::D4, Piece::P(Pawn::new(Color::White)));
    board.put_piece(Square::C5, Piece::N(Knight::new(Color::Black)));
    board.put_piece(Square::E5, Piece::B(Bishop::new(Color::White)));
    board.put_piece(Square::C3, Piece::R(Rook::new(Color::Black)));
    board.put_piece(Square::E3, Piece::R(Rook::new(Color::Black)));
    board.put_piece(Square::D5, Piece::Q(Queen::new(Color::Black)));
    expect(
        Pawn::new(Color::White).get_valid_moves(&board, Square::D4),
        vec![(Square::C5, capture(Color::White))],
    );
    expect(
        Pawn::new(Color::Black).get_valid_moves(&board, Square::D4),
        vec![(Square::D3, quiet(Color::Black))],
    );
}

#[test]
fn pawn_on_the_edge_captures_inward_only() {
    let mut board = Board::empty();
    board.put_piece(Square::A4, Piece::P(Pawn::new(Color::Black)));
    board.put_piece(Square::B3, Piece::N(Knight::new(Color::White)));
    board.put_piece(Square::H3, Piece::N(Knight::new(Color::White)));
    expect(
        Pawn::new(Color::Black).get_valid_moves(&board, Square::A4),
        vec![(Square::A3, quiet(Color::Black)), (Square::B3, capture(Color::Black))],
    );
}

#[test]
fn pawn_on_its_last_rank_has_no_move() {
    let mut board = Board::empty();
    board.put_piece(Square::B8, Piece::P(Pawn::new(Color::White)));
    board.put_piece(Square::G1, Piece::P(Pawn::new(Color::Black)));
    expect(Pawn::new(Color::White).get_valid_moves(&board, Square::B8), vec![]);
    expect(Pawn::new(Color::Black).get_valid_moves(&board, Square::G1), vec![]);
}

#[test]
fn white_pawn_on_its_fifth_rank_is_offered_passing_captures() {
    let mut board = Board::empty();
    board.put_piece(Square::E5, Piece::P(Pawn::new(Color::White)));
    board.put_piece(Square::D5, Piece::P(Pawn::new(Color::Black)));
    board.put_piece(Square::F5, Piece::N(Knight::new(Color::Black)));
    expect(
        Pawn::new(Color::White).get_valid_moves(&board, Square::E5),
        vec![(Square::E6, quiet(Color::White)), (Square::D6, passing(Color::White))],
    );
}

#[test]
fn passing_capture_is_for_white_pawns_on_the_fifth_rank_only() {
    let mut board = Board::empty();
    board.put_piece(Square::E4, Piece::P(Pawn::new(Color::Black)));
    board.put_piece(Square::D4, Piece::P(Pawn::new(Color::White)));
    expect(
        Pawn::new(Color::Black).get_valid_moves(&board, Square::E4),
        vec![(Square::E3, quiet(Color::Black))],
    );
    expect(
        Pawn::new(Color::White).get_valid_moves(&board, Square::D4),
        vec![(Square::D5, quiet(Color::White))],
    );
}

#[test]
fn knight_in_the_middle_has_eight_jumps() {
    let mut board = Board::empty();
    board.put_piece(Square::D4, Piece::N(Knight::new(Color::White)));
    board.put_piece(Square::E6, Piece::P(Pawn::new(Color::Black)));
    board.put_piece(Square::F5, Piece::P(Pawn::new(Color::White)));
    expect(
        Knight::new(Color::White).get_valid_moves(&board, Square::D4),
        vec![
            (Square::C6, quiet(Color::White)),
            (Square::E6, capture(Color::White)),
            (Square::F3, quiet(Color::White)),
            (Square::E2, quiet(Color::White)),
            (Square::C2, quiet(Color::White)),
            (Square::B3, quiet(Color::White)),
            (Square::B5, quiet(Color::White)),
        ],
    );
}

#[test]
fn knight_in_the_corner_has_two_jumps() {
    let mut board = Board::empty();
    board.put_piece(Square::H8, Piece::N(Knight::new(Color::Black)));
    expect(
        Knight::new(Color::Black).get_valid_moves(&board, Square::H8),
        vec![(Square::G6, quiet(Color::Black)), (Square::F7, quiet(Color::Black))],
    );
}

#[test]
fn knights_at_the_start_jump_over_the_pawns() {
    let board = Board::new();
    expect(
        Knight::new(Color::White).get_valid_moves(&board, Square::B1),
        vec![(Square::A3, quiet(Color::White)), (Square::C3, quiet(Color::White))],
    );
}

#[test]
fn rook_ray_passes_one_opposing_piece_and_stops_at_the_second() {
    let mut board = Board::empty();
    board.put_piece(Square::A1, Piece::R(Rook::new(Color::White)));
    board.put_piece(Square::A4, Piece::P(Pawn::new(Color::Black)));
    board.put_piece(Square::A7, Piece::P(Pawn::new(Color::Black)));
    board.put_piece(Square::D1, Piece::N(Knight::new(Color::White)));
    expect(
        Rook::new(Color::White).get_valid_moves(&board, Square::A1),
        vec![
            (Square::A2, quiet(Color::White)),
            (Square::A3, quiet(Color::White)),
            (Square::A4, capture(Color::White)),
            (Square::A5, pierced(Color::White)),
            (Square::A6, pierced(Color::White)),
            (Square::A7, pierced(Color::White)),
            (Square::B1, quiet(Color::White)),
            (Square::C1, quiet(Color::White)),
        ],
    );
}

#[test]
fn ray_behind_an_opposing_piece_ends_before_a_piece_of_the_own_side() {
    let mut board = Board::empty();
    board.put_piece(Square::H8, Piece::R(Rook::new(Color::Black)));
    board.put_piece(Square::F8, Piece::N(Knight::new(Color::White)));
    board.put_piece(Square::C8, Piece::N(Knight::new(Color::Black)));
    board.put_piece(Square::H7, Piece::P(Pawn::new(Color::Black)));
    expect(
        Rook::new(Color::Black).get_valid_moves(&board, Square::H8),
        vec![
            (Square::G8, quiet(Color::Black)),
            (Square::F8, capture(Color::Black)),
            (Square::E8, pierced(Color::Black)),
            (Square::D8, pierced(Color::Black)),
        ],
    );
}

#[test]
fn bishop_slides_along_the_diagonals() {
    let mut board = Board::empty();
    board.put_piece(Square::C1, Piece::B(Bishop::new(Color::White)));
    board.put_piece(Square::E3, Piece::P(Pawn::new(Color::Black)));
    board.put_piece(Square::G5, Piece::P(Pawn::new(Color::Black)));
    board.put_piece(Square::H6, Piece::P(Pawn::new(Color::Black)));
    expect(
        Bishop::new(Color::White).get_valid_moves(&board, Square::C1),
        vec![
            (Square::B2, quiet(Color::White)),
            (Square::A3, quiet(Color::White)),
            (Square::D2, quiet(Color::White)),
            (Square::E3, capture(Color::White)),
            (Square::F4, pierced(Color::White)),
            (Square::G5, pierced(Color::White)),
        ],
    );
}

#[test]
fn sliders_at_the_start_are_shut_in() {
    let board = Board::new();
    expect(Bishop::new(Color::White).get_valid_moves(&board, Square::C1), vec![]);
    expect(Rook::new(Color::White).get_valid_moves(&board, Square::A1), vec![]);
    expect(Queen::new(Color::Black).get_valid_moves(&board, Square::D8), vec![]);
}

#[test]
fn queen_slides_in_all_eight_directions() {
    let mut board = Board::empty();
    board.put_piece(Square::B2, Piece::Q(Queen::new(Color::White)));
    board.put_piece(Square::B4, Piece::P(Pawn::new(Color::White)));
    board.put_piece(Square::D2, Piece::P(Pawn::new(Color::Black)));
    board.put_piece(Square::D4, Piece::P(Pawn::new(Color::Black)));
    board.put_piece(Square::E5, Piece::P(Pawn::new(Color::Black)));
    expect(
        Queen::new(Color::White).get_valid_moves(&board, Square::B2),
        vec![
            (Square::A1, quiet(Color::White)),
            (Square::B1, quiet(Color::White)),
            (Square::C1, quiet(Color::White)),
            (Square::A2, quiet(Color::White)),
            (Square::A3, quiet(Color::White)),
            (Square::B3, quiet(Color::White)),
            (Square::C2, quiet(Color::White)),
            (Square::D2, capture(Color::White)),
            (Square::E2, pierced(Color::White)),
            (Square::F2, pierced(Color::White)),
            (Square::G2, pierced(Color::White)),
            (Square::H2, pierced(Color::White)),
            (Square::C3, quiet(Color::White)),
            (Square::D4, capture(Color::White)),
            (Square::E5, pierced(Color::White)),
        ],
    );
}

#[test]
fn generated_captures_hold_opponents_and_quiet_moves_are_empty() {
    let mut board = Board::new();
    board.move_piece(Square::E2, Square::E4).unwrap();
    board.move_piece(Square::D7, Square::D5).unwrap();
    board.move_piece(Square::G1, Square::F3).unwrap();
    board.move_piece(Square::C8, Square::G4).unwrap();
    for index in 0..64usize {
        let from = Square::from_index(index);
        let piece = match board.get_piece(from) {
            Some(piece) => *piece,
            None => continue,
        };
        for (to, status) in piece.get_valid_moves(&board, from) {
            assert_eq!(status.by_color(), piece.get_color());
            assert!(!status.is_activated());
            assert!(!to.is_none());
            match status {
                MoveStatus::Capturable { .. } => {
                    assert_eq!(
                        board.get_piece(to).map(|found| found.get_color()),
                        Some(piece.get_color().opposite())
                    );
                },
                MoveStatus::Movable { .. } => assert!(board.is_empty(to)),
                _ => {},
            }
        }
    }
}

#[test]
fn king_steps_to_empty_squares_that_are_not_attacked() {
    let mut board = Board::empty();
    board.set_castling_rights(no_rights());
    board.put_piece(Square::E4, Piece::K(King::new(Color::White)));
    board.put_piece(Square::A5, Piece::R(Rook::new(Color::Black)));
    board.put_piece(Square::E3, Piece::P(Pawn::new(Color::White)));
    board.put_piece(Square::F3, Piece::P(Pawn::new(Color::Black)));
    expect(
        King::new(Color::White).get_valid_moves(&board, Square::E4),
        vec![
            (Square::D4, quiet(Color::White)),
            (Square::F4, quiet(Color::White)),
            (Square::D3, quiet(Color::White)),
        ],
    );
    let enemy_moves = board.get_valid_moves_all(Color::Black);
    for (to, _) in King::new(Color::White).get_valid_moves(&board, Square::E4) {
        assert!(!board.is_under_attack(to, Color::Black));
        assert!(!enemy_moves.contains(&(to, quiet(Color::Black))));
        assert!(!enemy_moves.contains(&(to, capture(Color::Black))));
    }
}

#[test]
fn kings_keep_their_distance() {
    let mut board = Board::empty();
    board.set_castling_rights(no_rights());
    board.put_piece(Square::E4, Piece::K(King::new(Color::White)));
    board.put_piece(Square::E6, Piece::K(King::new(Color::Black)));
    expect(
        King::new(Color::White).get_valid_moves(&board, Square::E4),
        vec![
            (Square::D4, quiet(Color::White)),
            (Square::F4, quiet(Color::White)),
            (Square::D3, quiet(Color::White)),
            (Square::E3, quiet(Color::White)),
            (Square::F3, quiet(Color::White)),
        ],
    );
    expect(
        King::new(Color::Black).get_steps(&board, Square::E6),
        vec![
            (Square::D7, quiet(Color::Black)),
            (Square::E7, quiet(Color::Black)),
            (Square::F7, quiet(Color::Black)),
            (Square::D6, quiet(Color::Black)),
            (Square::F6, quiet(Color::Black)),
            (Square::D5, quiet(Color::Black)),
            (Square::E5, quiet(Color::Black)),
            (Square::F5, quiet(Color::Black)),
        ],
    );
}

#[test]
fn king_may_castle_on_both_sides_when_the_way_is_free() {
    let mut board = Board::empty();
    board.put_piece(Square::E1, Piece::K(King::new(Color::White)));
    board.put_piece(Square::A1, Piece::R(Rook::new(Color::White)));
    board.put_piece(Square::H1, Piece::R(Rook::new(Color::White)));
    board.put_piece(Square::E8, Piece::K(King::new(Color::Black)));
    expect(
        King::new(Color::White).get_valid_moves(&board, Square::E1),
        vec![
            (Square::D1, quiet(Color::White)),
            (Square::F1, quiet(Color::White)),
            (Square::D2, quiet(Color::White)),
            (Square::E2, quiet(Color::White)),
            (Square::F2, quiet(Color::White)),
            (Square::G1, castling(Color::White)),
            (Square::C1, castling(Color::White)),
            (Square::B1, castling(Color::White)),
        ],
    );
}

#[test]
fn black_king_castles_on_its_own_back_rank() {
    let mut board = Board::empty();
    board.put_piece(Square::E8, Piece::K(King::new(Color::Black)));
    board.put_piece(Square::H8, Piece::R(Rook::new(Color::Black)));
    board.put_piece(Square::A8, Piece::R(Rook::new(Color::White)));
    board.put_piece(Square::E1, Piece::K(King::new(Color::White)));
    let moves = King::new(Color::Black).get_valid_moves(&board, Square::E8);
    assert!(!moves.contains(&(Square::G8, castling(Color::Black))));
    board.remove_piece(Square::A8);
    let moves = King::new(Color::Black).get_valid_moves(&board, Square::E8);
    assert!(moves.contains(&(Square::G8, castling(Color::Black))));
    assert!(!moves.contains(&(Square::C8, castling(Color::Black))));
    assert!(!moves.contains(&(Square::G1, castling(Color::Black))));
}

#[test]
fn no_castling_without_the_right_the_rook_or_a_free_and_safe_way() {
    let mut board = Board::empty();
    board.put_piece(Square::E1, Piece::K(King::new(Color::White)));
    board.put_piece(Square::H1, Piece::R(Rook::new(Color::White)));
    board.put_piece(Square::E8, Piece::K(King::new(Color::Black)));
    let king = King::new(Color::White);
    let target = (Square::G1, castling(Color::White));
    assert!(king.get_valid_moves(&board, Square::E1).contains(&target));

    let mut without_right = CastlingRights {
        white_kingside: false,
        white_queenside: true,
        black_kingside: true,
        black_queenside: true,
    };
    board.set_castling_rights(without_right);
    assert!(!king.get_valid_moves(&board, Square::E1).contains(&target));
    without_right.white_kingside = true;
    board.set_castling_rights(without_right);
    assert!(king.get_valid_moves(&board, Square::E1).contains(&target));

    board.put_piece(Square::G1, Piece::N(Knight::new(Color::White)));
    assert!(!king.get_valid_moves(&board, Square::E1).contains(&target));
    board.remove_piece(Square::G1);

    board.put_piece(Square::F8, Piece::R(Rook::new(Color::Black)));
    assert!(!king.get_valid_moves(&board, Square::E1).contains(&target));
    board.remove_piece(Square::F8);

    board.put_piece(Square::E5, Piece::R(Rook::new(Color::Black)));
    assert!(!king.get_valid_moves(&board, Square::E1).contains(&target));
    board.remove_piece(Square::E5);

    board.put_piece(Square::H1, Piece::B(Bishop::new(Color::White)));
    assert!(!king.get_valid_moves(&board, Square::E1).contains(&target));
    board.put_piece(Square::H1, Piece::R(Rook::new(Color::Black)));
    assert!(!king.get_valid_moves(&board, Square::E1).contains(&target));
    board.put_piece(Square::H1, Piece::R(Rook::new(Color::White)));
    assert!(king.get_valid_moves(&board, Square::E1).contains(&target));
    assert!(!king.get_valid_moves(&board, Square::E2).contains(&target));
}

#[test]
fn piece_moves_itself_and_remembers_the_new_square() {
    let mut board = Board::new();
    let mut knight = Knight::new(Color::White);
    knight.set_coord(Square::B1);
    assert_eq!(knight.move_to(&mut board, Square::C3), Ok(()));
    assert_eq!(knight.get_coord(), Square::C3);
    assert!(board.is_empty(Square::B1));
    assert_eq!(
        board.get_piece(Square::C3),
        Some(&Piece::N(Knight { color: Color::White, coord: Square::C3 }))
    );
    let mut pawn = Pawn::new(Color::Black);
    pawn.set_coord(Square::E7);
    assert_eq!(pawn.move_to(&mut board, Square::E5), Ok(()));
    assert_eq!(pawn.get_coord(), Square::E5);
    let mut bishop = Bishop::new(Color::White);
    bishop.set_coord(Square::C1);
    assert_eq!(bishop.move_to(&mut board, Square::A3), Ok(()));
    assert_eq!(bishop.get_coord(), Square::A3);
    let mut rook = Rook::new(Color::White);
    rook.set_coord(Square::A1);
    assert_eq!(rook.move_to(&mut board, Square::C1), Ok(()));
    let mut queen = Queen::new(Color::White);
    queen.set_coord(Square::D1);
    assert_eq!(queen.move_to(&mut board, Square::D1), Ok(()));
    assert_eq!(queen.get_coord(), Square::D1);
}

#[test]
fn piece_that_stands_nowhere_cannot_move_itself() {
    let mut board = Board::new();
    let mut knight = Knight::new(Color::White);
    assert_eq!(knight.move_to(&mut board, Square::C3), Err("no piece on the source square"));
    assert_eq!(knight.get_coord(), Square::Unset);
    knight.set_coord(Square::E4);
    assert_eq!(knight.move_to(&mut board, Square::C3), Err("no piece on the source square"));
    knight.set_coord(Square::B1);
    assert_eq!(knight.move_to(&mut board, Square::Unset), Err("destination is off the board"));
    assert_eq!(knight.get_coord(), Square::B1);
    assert!(board.get_piece(Square::B1).is_some());
}

#[test]
fn queen_has_a_sign_for_each_side() {
    assert_eq!(Queen::new(Color::Black).to_string(), "♕");
    assert_eq!(Queen::new(Color::White).to_string(), "♛");
}
