use vstd::prelude::*;
use crate::board::{no_piece_text, off_board_text, Board};
use crate::moves::offer_all;
use crate::moves::ray::{lemma_rays_apart, ray_destination, ray_moves};
use crate::pieces::{Color, MoveStatus, Piece};
use crate::square::Square;

verus! {

/// A bishop: its side and the square it remembers standing on.
#[derive(Clone, Copy, Debug, PartialEq, Eq, Structural)]
pub struct Bishop {
    pub color: Color,
    pub coord: Square,
}

/// Whether a bishop of `color` standing on `from` is offered `to` with `status`:
/// it slides along the four diagonals, and each ray offers what `ray_destination` says.
pub open spec fn bishop_destination(
    pieces: Map<Square, Piece>,
    color: Color,
    from: Square,
    to: Square,
    status: MoveStatus,
) -> bool {
    ||| ray_destination(pieces, color, from, -1, 1, to, status)
    ||| ray_destination(pieces, color, from, 1, 1, to, status)
    ||| ray_destination(pieces, color, from, 1, -1, to, status)
    ||| ray_destination(pieces, color, from, -1, -1, to, status)
}

impl Bishop {
    /// A bishop of `color` that stands nowhere yet.
    pub fn new(color: Color) -> (piece: Bishop)
        ensures
            piece == (Bishop { color, coord: Square::Unset }),
    {
        Bishop { color, coord: Square::Unset }
    }

    /// Makes the bishop remember `coord`.
    pub fn set_coord(&mut self, coord: Square)
        ensures
            *final(self) == (Bishop { color: old(self).color, coord }),
    {
        self.coord = coord;
    }

    /// The square that the bishop remembers.
    pub fn get_coord(&self) -> (coord: Square)
        ensures
            coord == self.coord,
    {
        self.coord
    }

    /// The side that the bishop belongs to.
    pub fn get_color(&self) -> (color: Color)
        ensures
            color == self.color,
    {
        self.color
    }

    /// Moves the piece that stands on the remembered square of `board` to
    /// `coord_to`, as `Board::move_piece` does, and remembers the new square if
    /// that succeeds. Whether the move is a legal one is not asked.
    pub fn move_to(&mut self, board: &mut Board, coord_to: Square) -> (result: Result<
        (),
        &'static str,
    >)
        requires
            old(board).wf(),
        ensures
            final(board).wf(),
            result is Ok <==> old(board)@.pieces.contains_key(old(self).coord) && coord_to
                != Square::Unset,
            result is Ok ==> final(board)@ == old(board)@.relocated(old(self).coord, coord_to)
                && *final(self) == (Bishop { color: old(self).color, coord: coord_to }),
            result is Err ==> final(board)@ == old(board)@ && *final(self) == *old(self),
            result matches Err(text) ==> text@ == (if old(board)@.pieces.contains_key(
                old(self).coord,
            ) {
                off_board_text()
            } else {
                no_piece_text()
            }),
    {
        let result = board.move_piece(self.coord, coord_to);
        if result.is_ok() {
            self.coord = coord_to;
        }
        result
    }

    /// The destinations offered to this bishop if it stood on `coord_from`:
    /// exactly those that `bishop_destination` allows, each once.
    pub fn get_valid_moves(&self, board: &Board, coord_from: Square) -> (moves: Vec<
        (Square, MoveStatus),
    >)
        requires
            board.wf(),
        ensures
            forall|to: Square, status: MoveStatus| #[trigger]
                moves@.contains((to, status)) <==> bishop_destination(
                    board@.pieces,
                    self.color,
                    coord_from,
                    to,
                    status,
                ),
            moves@.no_duplicates(),
    {
        let color = self.color;
        proof {
            lemma_rays_apart(board@.pieces, color, coord_from);
        }
        let mut moves = ray_moves(board, color, coord_from, -1, 1);
        let more = ray_moves(board, color, coord_from, 1, 1);
        offer_all(&mut moves, more);
        let more = ray_moves(board, color, coord_from, 1, -1);
        offer_all(&mut moves, more);
        let more = ray_moves(board, color, coord_from, -1, -1);
        offer_all(&mut moves, more);
        moves
    }
}

} // verus!
