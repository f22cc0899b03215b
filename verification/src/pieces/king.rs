use vstd::prelude::*;
use crate::board::Board;
use crate::board::CastlingRights;
use crate::moves::attack::{attacked, king_step};
use crate::moves::{offer, vacant};
use crate::pieces::{Color, MoveStatus, Piece};
use crate::square::Square;

verus! {

/// A king: its side and a remembered answer to "is it in check".
#[derive(Clone, Copy, Debug, PartialEq, Eq, Structural)]
pub struct King {
    pub color: Color,
    pub is_checked: bool,
}

/// The square on the given file of the rank on which `color` starts its king.
pub open spec fn back_square(color: Color, file: int) -> Square {
    Square::at(file, color.back_rank())
}

/// A rook of `color` stands on `square`.
pub open spec fn own_rook(pieces: Map<Square, Piece>, square: Square, color: Color) -> bool {
    pieces.contains_key(square) && pieces[square] is R && pieces[square].color() == color
}

/// Whether a king of `color` on `from` may castle on the king's side: the right
/// is intact, the king is on its starting square and not attacked, its rook is
/// on the H file, and the F and G squares are empty and not attacked.
pub open spec fn castles_kingside(
    pieces: Map<Square, Piece>,
    rights: CastlingRights,
    color: Color,
    from: Square,
) -> bool {
    &&& rights.kingside(color)
    &&& from == back_square(color, 4)
    &&& !attacked(pieces, from, color.other())
    &&& own_rook(pieces, back_square(color, 7), color)
    &&& vacant(pieces, back_square(color, 5))
    &&& vacant(pieces, back_square(color, 6))
    &&& !attacked(pieces, back_square(color, 5), color.other())
    &&& !attacked(pieces, back_square(color, 6), color.other())
}

/// Whether a king of `color` on `from` may castle on the queen's side: the
/// right is intact, the king is on its starting square and not attacked, its
/// rook is on the A file, and the B, C and D squares are empty and not attacked.
pub open spec fn castles_queenside(
    pieces: Map<Square, Piece>,
    rights: CastlingRights,
    color: Color,
    from: Square,
) -> bool {
    &&& rights.queenside(color)
    &&& from == back_square(color, 4)
    &&& !attacked(pieces, from, color.other())
    &&& own_rook(pieces, back_square(color, 0), color)
    &&& vacant(pieces, back_square(color, 1))
    &&& vacant(pieces, back_square(color, 2))
    &&& vacant(pieces, back_square(color, 3))
    &&& !attacked(pieces, back_square(color, 1), color.other())
    &&& !attacked(pieces, back_square(color, 2), color.other())
    &&& !attacked(pieces, back_square(color, 3), color.other())
}

/// Whether a king of `color` standing on `from` is offered `to` with `status`.
///
/// - A step to an empty square next to it that the other side does not attack:
///   a quiet move.
/// - Castling on the king's side, named by the G square.
/// - Castling on the queen's side, named by the C square or by the B square.
pub open spec fn king_destination(
    pieces: Map<Square, Piece>,
    rights: CastlingRights,
    color: Color,
    from: Square,
    to: Square,
    status: MoveStatus,
) -> bool {
    ||| king_step(pieces, color, from, to, status) && !attacked(pieces, to, color.other())
    ||| {
        &&& status == MoveStatus::castling(color)
        &&& castles_kingside(pieces, rights, color, from)
        &&& to == back_square(color, 6)
    }
    ||| {
        &&& status == MoveStatus::castling(color)
        &&& castles_queenside(pieces, rights, color, from)
        &&& (to == back_square(color, 2) || to == back_square(color, 1))
    }
}

/// Offers `to` as a quiet move of `color` if it is on the board and empty.
fn offer_vacant(moves: &mut Vec<(Square, MoveStatus)>, board: &Board, color: Color, to: Square)
    requires
        board.wf(),
    ensures
        forall|square: Square, status: MoveStatus| #[trigger]
            final(moves)@.contains((square, status)) <==> (old(moves)@.contains((square, status))
                || (square == to && to != Square::Unset && vacant(board@.pieces, to) && status
                == MoveStatus::movable(color))),
        old(moves)@.no_duplicates() && (forall|status: MoveStatus|
            !old(moves)@.contains((to, status))) ==> final(moves)@.no_duplicates(),
{
    if !to.is_none() && board.is_empty(to) {
        offer(moves, to, MoveStatus::Movable { by_color: color, activated: false });
    }
}

impl King {
    /// A king of `color` that is not in check.
    pub fn new(color: Color) -> (king: King)
        ensures
            king == (King { color, is_checked: false }),
    {
        King { color, is_checked: false }
    }

    /// What the king remembers about being in check. The rules do not go by
    /// this: they work the answer out from the board.
    pub fn is_checked(&self) -> (checked: bool)
        ensures
            checked == self.is_checked,
    {
        self.is_checked
    }

    /// Makes the king remember whether it is in check.
    pub fn set_checked(&mut self, is_checked: bool)
        ensures
            *final(self) == (King { color: old(self).color, is_checked }),
    {
        self.is_checked = is_checked;
    }

    /// The side that the king belongs to.
    pub fn get_color(&self) -> (color: Color)
        ensures
            color == self.color,
    {
        self.color
    }

    /// The destinations offered to this king if it stood on `coord_from`:
    /// exactly those that `king_destination` allows, each once. The board is
    /// only read; whether the king is in check is worked out from the board.
    pub fn get_valid_moves(&self, board: &Board, coord_from: Square) -> (moves: Vec<
        (Square, MoveStatus),
    >)
        requires
            board.wf(),
        ensures
            forall|to: Square, status: MoveStatus| #[trigger]
                moves@.contains((to, status)) <==> king_destination(
                    board@.pieces,
                    board@.rights,
                    self.color,
                    coord_from,
                    to,
                    status,
                ),
            moves@.no_duplicates(),
    {
        let color = self.color;
        let enemy = color.opposite();
        let ghost pieces = board@.pieces;
        let steps = self.get_steps(board, coord_from);
        let mut moves: Vec<(Square, MoveStatus)> = Vec::new();
        let mut i: usize = 0;
        while i < steps.len()
            invariant
                board.wf(),
                pieces == board@.pieces,
                enemy == color.other(),
                i <= steps.len(),
                steps@.no_duplicates(),
                moves@.no_duplicates(),
                forall|to: Square, status: MoveStatus| #[trigger]
                    moves@.contains((to, status)) <==> {
                        &&& !attacked(pieces, to, enemy)
                        &&& exists|j: int| 0 <= j < i && steps@[j] == (to, status)
                    },
            decreases steps.len() - i,
        {
            let to = steps[i].0;
            let status = steps[i].1;
            if !board.is_under_attack(to, enemy) {
                proof {
                    if moves@.contains((to, status)) {
                        let j = choose|j: int| 0 <= j < i && steps@[j] == (to, status);
                        assert(steps@[j] == steps@[i as int]);
                    }
                }
                offer(&mut moves, to, status);
            }
            proof {
                assert forall|square: Square, other: MoveStatus| #[trigger]
                    moves@.contains((square, other)) <==> {
                        &&& !attacked(pieces, square, enemy)
                        &&& exists|j: int| 0 <= j < i + 1 && steps@[j] == (square, other)
                    } by {
                    if exists|j: int| 0 <= j < i + 1 && steps@[j] == (square, other) {
                        let j = choose|j: int| 0 <= j < i + 1 && steps@[j] == (square, other);
                        if j < i {
                            assert(exists|j: int| 0 <= j < i && steps@[j] == (square, other));
                        }
                    }
                    if square == to && other == status {
                        assert(steps@[i as int] == (square, other));
                    }
                }
            }
            i += 1;
        }
        proof {
            assert forall|to: Square, status: MoveStatus| #[trigger]
                moves@.contains((to, status)) <==> (king_step(pieces, color, coord_from, to, status)
                    && !attacked(pieces, to, enemy)) by {
                if steps@.contains((to, status)) {
                    let j = choose|j: int| 0 <= j < steps@.len() && steps@[j] == (to, status);
                }
                if exists|j: int| 0 <= j < i && steps@[j] == (to, status) {
                    let j = choose|j: int| 0 <= j < i && steps@[j] == (to, status);
                    assert(steps@.contains((to, status)));
                }
            }
        }
        let rights = board.castling_rights();
        let rank: i32 = match color {
            Color::White => 0,
            Color::Black => 7,
        };
        let kingside: bool = match color {
            Color::White => rights.white_kingside,
            Color::Black => rights.black_kingside,
        };
        let queenside: bool = match color {
            Color::White => rights.white_queenside,
            Color::Black => rights.black_queenside,
        };
        let a = Square::from_position((0, rank));
        let b = Square::from_position((1, rank));
        let c = Square::from_position((2, rank));
        let d = Square::from_position((3, rank));
        let e = Square::from_position((4, rank));
        let f = Square::from_position((5, rank));
        let g = Square::from_position((6, rank));
        let h = Square::from_position((7, rank));
        proof {
            Square::lemma_at(0, rank as int);
            Square::lemma_at(1, rank as int);
            Square::lemma_at(2, rank as int);
            Square::lemma_at(3, rank as int);
            Square::lemma_at(4, rank as int);
            Square::lemma_at(5, rank as int);
            Square::lemma_at(6, rank as int);
            Square::lemma_at(7, rank as int);
        }
        if coord_from == e && !board.is_under_attack(coord_from, enemy) {
            if kingside && Self::holds_own_rook(board, h, color) && board.is_empty(f)
                && board.is_empty(g) && !board.is_under_attack(f, enemy)
                && !board.is_under_attack(g, enemy) {
                offer(&mut moves, g, MoveStatus::Castling { by_color: color, activated: false });
            }
            if queenside && Self::holds_own_rook(board, a, color) && board.is_empty(b)
                && board.is_empty(c) && board.is_empty(d) && !board.is_under_attack(b, enemy)
                && !board.is_under_attack(c, enemy) && !board.is_under_attack(d, enemy) {
                offer(&mut moves, c, MoveStatus::Castling { by_color: color, activated: false });
                offer(&mut moves, b, MoveStatus::Castling { by_color: color, activated: false });
            }
        }
        moves
    }

    /// Whether a rook of `color` stands on `square`.
    fn holds_own_rook(board: &Board, square: Square, color: Color) -> (found: bool)
        requires
            board.wf(),
        ensures
            found == own_rook(board@.pieces, square, color),
    {
        match board.get_piece(square) {
            Some(piece) => match piece {
                Piece::R(rook) => rook.color == color,
                _ => false,
            },
            None => false,
        }
    }

    /// The steps open to this king if it stood on `coord_from` and safety were
    /// not asked for: the empty squares next to it, each once.
    pub fn get_steps(&self, board: &Board, coord_from: Square) -> (moves: Vec<
        (Square, MoveStatus),
    >)
        requires
            board.wf(),
        ensures
            forall|to: Square, status: MoveStatus| #[trigger]
                moves@.contains((to, status)) <==> king_step(
                    board@.pieces,
                    self.color,
                    coord_from,
                    to,
                    status,
                ),
            moves@.no_duplicates(),
    {
        let mut moves: Vec<(Square, MoveStatus)> = Vec::new();
        if coord_from.is_none() {
            return moves;
        }
        let color = self.color;
        let file: i32 = coord_from.get_file();
        let rank: i32 = coord_from.get_rank();
        proof {
            coord_from.lemma_coordinates();
            Square::lemma_at(file - 1, rank - 1);
            Square::lemma_at(file - 1, rank as int);
            Square::lemma_at(file - 1, rank + 1);
            Square::lemma_at(file as int, rank - 1);
            Square::lemma_at(file as int, rank + 1);
            Square::lemma_at(file + 1, rank - 1);
            Square::lemma_at(file + 1, rank as int);
            Square::lemma_at(file + 1, rank + 1);
        }
        offer_vacant(&mut moves, board, color, Square::from_position((file - 1, rank - 1)));
        offer_vacant(&mut moves, board, color, Square::from_position((file - 1, rank)));
        offer_vacant(&mut moves, board, color, Square::from_position((file - 1, rank + 1)));
        offer_vacant(&mut moves, board, color, Square::from_position((file, rank - 1)));
        offer_vacant(&mut moves, board, color, Square::from_position((file, rank + 1)));
        offer_vacant(&mut moves, board, color, Square::from_position((file + 1, rank - 1)));
        offer_vacant(&mut moves, board, color, Square::from_position((file + 1, rank)));
        offer_vacant(&mut moves, board, color, Square::from_position((file + 1, rank + 1)));
        proof {
            assert forall|to: Square, status: MoveStatus|
                king_step(
                    board@.pieces,
                    color,
                    coord_from,
                    to,
                    status,
                ) implies #[trigger] moves@.contains((to, status)) by {
                to.lemma_coordinates();
            }
        }
        moves
    }
}

} // verus!
