use vstd::prelude::*;
use crate::moves::vacant;
use crate::pieces::bishop::bishop_destination;
use crate::pieces::knight::knight_destination;
use crate::pieces::pawn::pawn_destination;
use crate::pieces::queen::queen_destination;
use crate::pieces::rook::rook_destination;
use crate::pieces::{Color, MoveStatus, Piece};
use crate::square::Square;

verus! {

/// `to` is one of the up to eight squares next to `from`.
pub open spec fn adjacent(from: Square, to: Square) -> bool {
    &&& from != Square::Unset
    &&& to != Square::Unset
    &&& from != to
    &&& -1 <= to.file() - from.file() <= 1
    &&& -1 <= to.rank() - from.rank() <= 1
}

/// Whether a king of `color` on `from` could step to `to` if safety were not
/// asked for: the square is next to it and empty, and the step is a quiet move.
pub open spec fn king_step(
    pieces: Map<Square, Piece>,
    color: Color,
    from: Square,
    to: Square,
    status: MoveStatus,
) -> bool {
    adjacent(from, to) && vacant(pieces, to) && status == MoveStatus::movable(color)
}

/// Whether `piece`, standing on `from`, bears on `to` with `status` when the
/// safety of its own king is left aside. For every piece but the king these are
/// its destinations; for the king they are its steps to empty squares.
pub open spec fn reaches(
    pieces: Map<Square, Piece>,
    piece: Piece,
    from: Square,
    to: Square,
    status: MoveStatus,
) -> bool {
    match piece {
        Piece::P(pawn) => pawn_destination(pieces, pawn.color, from, to, status),
        Piece::N(knight) => knight_destination(pieces, knight.color, from, to, status),
        Piece::B(bishop) => bishop_destination(pieces, bishop.color, from, to, status),
        Piece::R(rook) => rook_destination(pieces, rook.color, from, to, status),
        Piece::Q(queen) => queen_destination(pieces, queen.color, from, to, status),
        Piece::K(king) => king_step(pieces, king.color, from, to, status),
    }
}

/// Whether `piece`, standing on `from`, threatens `to`: it bears on the square
/// with a quiet move or a capture, its own king's safety left aside.
pub open spec fn threatens(
    pieces: Map<Square, Piece>,
    piece: Piece,
    from: Square,
    to: Square,
) -> bool {
    ||| reaches(pieces, piece, from, to, MoveStatus::movable(piece.color()))
    ||| reaches(pieces, piece, from, to, MoveStatus::capturable(piece.color()))
}

/// Whether the piece on `from` belongs to `by` and threatens `to`.
pub open spec fn attacked_from(
    pieces: Map<Square, Piece>,
    from: Square,
    to: Square,
    by: Color,
) -> bool {
    &&& pieces.contains_key(from)
    &&& pieces[from].color() == by
    &&& threatens(pieces, pieces[from], from, to)
}

/// Whether `to` is under attack by the side `by`: some piece of that side
/// threatens it.
pub open spec fn attacked(pieces: Map<Square, Piece>, to: Square, by: Color) -> bool {
    exists|from: Square| #[trigger] attacked_from(pieces, from, to, by)
}

/// Whether a king of `color` stands on a square that the other side attacks.
pub open spec fn in_check(pieces: Map<Square, Piece>, color: Color) -> bool {
    exists|square: Square|
        {
            &&& #[trigger] pieces.contains_key(square)
            &&& pieces[square] is K
            &&& pieces[square].color() == color
            &&& attacked(pieces, square, color.other())
        }
}

/// Whatever a piece bears on, it does so in its own name and with the display
/// flag down.
pub proof fn lemma_reaches_status(
    pieces: Map<Square, Piece>,
    piece: Piece,
    from: Square,
    to: Square,
    status: MoveStatus,
)
    requires
        reaches(pieces, piece, from, to, status),
    ensures
        status.color() == piece.color(),
        !status.flag(),
        to != Square::Unset,
        from != Square::Unset,
{
}

} // verus!
