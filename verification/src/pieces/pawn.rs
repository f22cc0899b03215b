use vstd::prelude::*;
use crate::board::{no_piece_text, off_board_text, Board};
use crate::moves::{hostile, offer, vacant};
use crate::pieces::bishop::Bishop;
use crate::pieces::knight::Knight;
use crate::pieces::queen::Queen;
use crate::pieces::rook::Rook;
use crate::pieces::{Color, MoveStatus, Piece};
use crate::square::Square;

verus! {

/// A pawn: its side and the square it remembers standing on.
#[derive(Clone, Copy, Debug, PartialEq, Eq, Structural)]
pub struct Pawn {
    pub color: Color,
    pub coord: Square,
}

/// An opposing pawn stands on `square`.
pub open spec fn hostile_pawn(pieces: Map<Square, Piece>, square: Square, color: Color) -> bool {
    hostile(pieces, square, color) && pieces[square] is P
}

/// Whether a pawn of `color` standing on `from` is offered `to` with `status`.
///
/// - One square straight ahead, when that square is empty: a quiet move.
/// - Two squares straight ahead from the pawn's starting rank, when both
///   squares are empty: a quiet move.
/// - One square diagonally ahead, when an opposing piece stands there: a capture.
/// - For a white pawn on its fifth rank with an opposing pawn beside it: the
///   square diagonally ahead on that pawn's file, in passing.
pub open spec fn pawn_destination(
    pieces: Map<Square, Piece>,
    color: Color,
    from: Square,
    to: Square,
    status: MoveStatus,
) -> bool {
    let file = from.file();
    let rank = from.rank();
    let ahead = rank + color.forward();
    &&& from != Square::Unset
    &&& to != Square::Unset
    &&& {
        ||| {
            &&& status == MoveStatus::movable(color)
            &&& to == Square::at(file, ahead)
            &&& vacant(pieces, to)
        }
        ||| {
            &&& status == MoveStatus::movable(color)
            &&& rank == color.pawn_rank()
            &&& to == Square::at(file, ahead + color.forward())
            &&& vacant(pieces, Square::at(file, ahead))
            &&& vacant(pieces, to)
        }
        ||| {
            &&& status == MoveStatus::capturable(color)
            &&& (to == Square::at(file - 1, ahead) || to == Square::at(file + 1, ahead))
            &&& hostile(pieces, to, color)
        }
        ||| {
            &&& status == MoveStatus::en_passant(color)
            &&& color == Color::White
            &&& rank == 4
            &&& {
                ||| to == Square::at(file - 1, ahead) && hostile_pawn(
                    pieces,
                    Square::at(file - 1, rank),
                    color,
                )
                ||| to == Square::at(file + 1, ahead) && hostile_pawn(
                    pieces,
                    Square::at(file + 1, rank),
                    color,
                )
            }
        }
    }
}

impl Pawn {
    /// A pawn of `color` that stands nowhere yet.
    pub fn new(color: Color) -> (piece: Pawn)
        ensures
            piece == (Pawn { color, coord: Square::Unset }),
    {
        Pawn { color, coord: Square::Unset }
    }

    /// Makes the pawn remember `coord`.
    pub fn set_coord(&mut self, coord: Square)
        ensures
            *final(self) == (Pawn { color: old(self).color, coord }),
    {
        self.coord = coord;
    }

    /// The square that the pawn remembers.
    pub fn get_coord(&self) -> (coord: Square)
        ensures
            coord == self.coord,
    {
        self.coord
    }

    /// The side that the pawn belongs to.
    pub fn get_color(&self) -> (color: Color)
        ensures
            color == self.color,
    {
        self.color
    }

    /// Moves the piece that stands on the remembered square of `board` to
    /// `coord_to`, as `Board::move_piece` does, and remembers the new square if
    /// that succeeds. Whether the move is a legal one is not asked.
    pub fn move_to(&mut self, board: &mut Board, coord_to: Square) -> (result: Result<
        (),
        &'static str,
    >)
        requires
            old(board).wf(),
        ensures
            final(board).wf(),
            result is Ok <==> old(board)@.pieces.contains_key(old(self).coord) && coord_to
                != Square::Unset,
            result is Ok ==> final(board)@ == old(board)@.relocated(old(self).coord, coord_to)
                && *final(self) == (Pawn { color: old(self).color, coord: coord_to }),
            result is Err ==> final(board)@ == old(board)@ && *final(self) == *old(self),
            result matches Err(text) ==> text@ == (if old(board)@.pieces.contains_key(
                old(self).coord,
            ) {
                off_board_text()
            } else {
                no_piece_text()
            }),
    {
        let result = board.move_piece(self.coord, coord_to);
        if result.is_ok() {
            self.coord = coord_to;
        }
        result
    }

    /// The destinations offered to this pawn if it stood on `coord_from`:
    /// exactly those that `pawn_destination` allows, each once.
    pub fn get_valid_moves(&self, board: &Board, coord_from: Square) -> (moves: Vec<
        (Square, MoveStatus),
    >)
        requires
            board.wf(),
        ensures
            forall|to: Square, status: MoveStatus| #[trigger]
                moves@.contains((to, status)) <==> pawn_destination(
                    board@.pieces,
                    self.color,
                    coord_from,
                    to,
                    status,
                ),
            moves@.no_duplicates(),
    {
        let mut moves: Vec<(Square, MoveStatus)> = Vec::new();
        if coord_from.is_none() {
            return moves;
        }
        let color = self.color;
        let file: i32 = coord_from.get_file();
        let rank: i32 = coord_from.get_rank();
        proof {
            coord_from.lemma_coordinates();
        }
        let step: i32 = match color {
            Color::White => 1,
            Color::Black => -1,
        };
        let start: i32 = match color {
            Color::White => 1,
            Color::Black => 6,
        };
        let ahead: i32 = rank + step;
        let one = Square::from_position((file, ahead));
        let two = Square::from_position((file, ahead + step));
        let left = Square::from_position((file - 1, ahead));
        let right = Square::from_position((file + 1, ahead));
        proof {
            Square::lemma_at(file as int, ahead as int);
            Square::lemma_at(file as int, ahead + step);
            Square::lemma_at(file - 1, ahead as int);
            Square::lemma_at(file + 1, ahead as int);
        }
        if !one.is_none() && board.is_empty(one) {
            offer(&mut moves, one, MoveStatus::Movable { by_color: color, activated: false });
            if rank == start && !two.is_none() && board.is_empty(two) {
                offer(&mut moves, two, MoveStatus::Movable { by_color: color, activated: false });
            }
        }
        if !left.is_none() && Self::holds_opponent(board, left, color) {
            offer(&mut moves, left, MoveStatus::Capturable { by_color: color, activated: false });
        }
        if !right.is_none() && Self::holds_opponent(board, right, color) {
            offer(&mut moves, right, MoveStatus::Capturable { by_color: color, activated: false });
        }
        if color == Color::White && rank == 4 {
            let beside_left = Square::from_position((file - 1, rank));
            let beside_right = Square::from_position((file + 1, rank));
            proof {
                Square::lemma_at(file - 1, rank as int);
                Square::lemma_at(file + 1, rank as int);
            }
            if Self::holds_opposing_pawn(board, beside_left, color) {
                offer(
                    &mut moves,
                    left,
                    MoveStatus::EnPassant { by_color: color, activated: false },
                );
            }
            if Self::holds_opposing_pawn(board, beside_right, color) {
                offer(
                    &mut moves,
                    right,
                    MoveStatus::EnPassant { by_color: color, activated: false },
                );
            }
        }
        moves
    }

    /// The queen that takes this pawn's place when it is promoted: same side,
    /// same remembered square. The conversion never fails.
    pub fn try_into_queen(self) -> (piece: Option<Queen>)
        ensures
            piece == Some(Queen { color: self.color, coord: self.coord }),
    {
        Some(Queen { color: self.color, coord: self.coord })
    }

    /// The knight that takes this pawn's place when it is promoted: same side,
    /// same remembered square. The conversion never fails.
    pub fn try_into_knight(self) -> (piece: Option<Knight>)
        ensures
            piece == Some(Knight { color: self.color, coord: self.coord }),
    {
        Some(Knight { color: self.color, coord: self.coord })
    }

    /// The bishop that takes this pawn's place when it is promoted: same side,
    /// same remembered square. The conversion never fails.
    pub fn try_into_bishop(self) -> (piece: Option<Bishop>)
        ensures
            piece == Some(Bishop { color: self.color, coord: self.coord }),
    {
        Some(Bishop { color: self.color, coord: self.coord })
    }

    /// The rook that takes this pawn's place when it is promoted: same side,
    /// same remembered square. The conversion never fails.
    pub fn try_into_rook(self) -> (piece: Option<Rook>)
        ensures
            piece == Some(Rook { color: self.color, coord: self.coord }),
    {
        Some(Rook { color: self.color, coord: self.coord })
    }

    /// Whether a piece of the side opposed to `color` stands on `square`.
    fn holds_opponent(board: &Board, square: Square, color: Color) -> (found: bool)
        requires
            board.wf(),
        ensures
            found == hostile(board@.pieces, square, color),
    {
        match board.get_piece(square) {
            Some(piece) => piece.get_color() != color,
            None => false,
        }
    }

    /// Whether a pawn of the side opposed to `color` stands on `square`.
    fn holds_opposing_pawn(board: &Board, square: Square, color: Color) -> (found: bool)
        requires
            board.wf(),
        ensures
            found == hostile_pawn(board@.pieces, square, color),
    {
        match board.get_piece(square) {
            Some(piece) => match piece {
                Piece::P(pawn) => pawn.color != color,
                _ => false,
            },
            None => false,
        }
    }
}

} // verus!
