use vstd::prelude::*;
use crate::board::{no_piece_text, off_board_text, Board};
use crate::moves::{landing, offer_landing};
use crate::pieces::{Color, MoveStatus, Piece};
use crate::square::Square;

verus! {

/// A knight: its side and the square it remembers standing on.
#[derive(Clone, Copy, Debug, PartialEq, Eq, Structural)]
pub struct Knight {
    pub color: Color,
    pub coord: Square,
}

/// `to` is a knight's jump away from `from`: one file and two ranks, or two
/// files and one rank, both squares on the board.
pub open spec fn knight_jump(from: Square, to: Square) -> bool {
    let files = to.file() - from.file();
    let ranks = to.rank() - from.rank();
    &&& from != Square::Unset
    &&& to != Square::Unset
    &&& {
        ||| (files == 1 || files == -1) && (ranks == 2 || ranks == -2)
        ||| (files == 2 || files == -2) && (ranks == 1 || ranks == -1)
    }
}

/// Whether a knight of `color` standing on `from` is offered `to` with
/// `status`: every jump to an empty square is a quiet move, every jump onto an
/// opposing piece a capture.
pub open spec fn knight_destination(
    pieces: Map<Square, Piece>,
    color: Color,
    from: Square,
    to: Square,
    status: MoveStatus,
) -> bool {
    knight_jump(from, to) && landing(pieces, color, to, status)
}

impl Knight {
    /// A knight of `color` that stands nowhere yet.
    pub fn new(color: Color) -> (piece: Knight)
        ensures
            piece == (Knight { color, coord: Square::Unset }),
    {
        Knight { color, coord: Square::Unset }
    }

    /// Makes the knight remember `coord`.
    pub fn set_coord(&mut self, coord: Square)
        ensures
            *final(self) == (Knight { color: old(self).color, coord }),
    {
        self.coord = coord;
    }

    /// The square that the knight remembers.
    pub fn get_coord(&self) -> (coord: Square)
        ensures
            coord == self.coord,
    {
        self.coord
    }

    /// The side that the knight belongs to.
    pub fn get_color(&self) -> (color: Color)
        ensures
            color == self.color,
    {
        self.color
    }

    /// Moves the piece that stands on the remembered square of `board` to
    /// `coord_to`, as `Board::move_piece` does, and remembers the new square if
    /// that succeeds. Whether the move is a legal one is not asked.
    pub fn move_to(&mut self, board: &mut Board, coord_to: Square) -> (result: Result<
        (),
        &'static str,
    >)
        requires
            old(board).wf(),
        ensures
            final(board).wf(),
            result is Ok <==> old(board)@.pieces.contains_key(old(self).coord) && coord_to
                != Square::Unset,
            result is Ok ==> final(board)@ == old(board)@.relocated(old(self).coord, coord_to)
                && *final(self) == (Knight { color: old(self).color, coord: coord_to }),
            result is Err ==> final(board)@ == old(board)@ && *final(self) == *old(self),
            result matches Err(text) ==> text@ == (if old(board)@.pieces.contains_key(
                old(self).coord,
            ) {
                off_board_text()
            } else {
                no_piece_text()
            }),
    {
        let result = board.move_piece(self.coord, coord_to);
        if result.is_ok() {
            self.coord = coord_to;
        }
        result
    }

    /// The destinations offered to this knight if it stood on `coord_from`:
    /// exactly those that `knight_destination` allows, each once.
    pub fn get_valid_moves(&self, board: &Board, coord_from: Square) -> (moves: Vec<
        (Square, MoveStatus),
    >)
        requires
            board.wf(),
        ensures
            forall|to: Square, status: MoveStatus| #[trigger]
                moves@.contains((to, status)) <==> knight_destination(
                    board@.pieces,
                    self.color,
                    coord_from,
                    to,
                    status,
                ),
            moves@.no_duplicates(),
    {
        let mut moves: Vec<(Square, MoveStatus)> = Vec::new();
        if coord_from.is_none() {
            return moves;
        }
        let color = self.color;
        let file: i32 = coord_from.get_file();
        let rank: i32 = coord_from.get_rank();
        proof {
            coord_from.lemma_coordinates();
            Square::lemma_at(file + 2, rank + 1);
            Square::lemma_at(file + 2, rank - 1);
            Square::lemma_at(file - 2, rank + 1);
            Square::lemma_at(file - 2, rank - 1);
            Square::lemma_at(file + 1, rank + 2);
            Square::lemma_at(file + 1, rank - 2);
            Square::lemma_at(file - 1, rank + 2);
            Square::lemma_at(file - 1, rank - 2);
        }
        offer_landing(&mut moves, board, color, Square::from_position((file + 2, rank + 1)));
        offer_landing(&mut moves, board, color, Square::from_position((file + 2, rank - 1)));
        offer_landing(&mut moves, board, color, Square::from_position((file - 2, rank + 1)));
        offer_landing(&mut moves, board, color, Square::from_position((file - 2, rank - 1)));
        offer_landing(&mut moves, board, color, Square::from_position((file + 1, rank + 2)));
        offer_landing(&mut moves, board, color, Square::from_position((file + 1, rank - 2)));
        offer_landing(&mut moves, board, color, Square::from_position((file - 1, rank + 2)));
        offer_landing(&mut moves, board, color, Square::from_position((file - 1, rank - 2)));
        proof {
            assert forall|to: Square, status: MoveStatus|
                knight_destination(
                    board@.pieces,
                    color,
                    coord_from,
                    to,
                    status,
                ) implies #[trigger] moves@.contains((to, status)) by {
                to.lemma_coordinates();
            }
        }
        moves
    }
}

} // verus!
