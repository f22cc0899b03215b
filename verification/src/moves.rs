use vstd::prelude::*;
use crate::board::Board;
use crate::pieces::{Color, MoveStatus, Piece};
use crate::square::Square;

pub mod attack;
pub mod placable;
pub mod ray;

verus! {

/// No piece stands on `square`.
pub open spec fn vacant(pieces: Map<Square, Piece>, square: Square) -> bool {
    !pieces.contains_key(square)
}

/// A piece of the side opposed to `color` stands on `square`.
pub open spec fn hostile(pieces: Map<Square, Piece>, square: Square, color: Color) -> bool {
    pieces.contains_key(square) && pieces[square].color() != color
}

/// A piece of the side `color` stands on `square`.
pub open spec fn friendly(pieces: Map<Square, Piece>, square: Square, color: Color) -> bool {
    pieces.contains_key(square) && pieces[square].color() == color
}

/// Appends one destination to a list of moves.
pub(crate) fn offer(moves: &mut Vec<(Square, MoveStatus)>, to: Square, status: MoveStatus)
    ensures
        final(moves)@ == old(moves)@.push((to, status)),
        forall|square: Square, other: MoveStatus| #[trigger]
            final(moves)@.contains((square, other)) <==> (old(moves)@.contains((square, other)) || (
            square == to && other == status)),
        old(moves)@.no_duplicates() && !old(moves)@.contains((to, status))
            ==> final(moves)@.no_duplicates(),
{
    moves.push((to, status));
    proof {
        let before = old(moves)@;
        let after = moves@;
        assert forall|square: Square, other: MoveStatus| #[trigger]
            after.contains((square, other)) <==> (before.contains((square, other)) || (square == to
                && other == status)) by {
            if before.contains((square, other)) {
                let i = choose|i: int| 0 <= i < before.len() && before[i] == (square, other);
                assert(after[i] == (square, other));
            }
            if square == to && other == status {
                assert(after[before.len() as int] == (square, other));
            }
        }
    }
}

/// Whether `to` stands in the list with exactly this `status`.
pub fn is_offered(moves: &Vec<(Square, MoveStatus)>, to: Square, status: MoveStatus) -> (found: bool)
    ensures
        found == moves@.contains((to, status)),
{
    let mut i: usize = 0;
    while i < moves.len()
        invariant
            i <= moves.len(),
            forall|j: int| 0 <= j < i ==> moves@[j] != (to, status),
        decreases moves.len() - i,
    {
        if moves[i].0 == to && moves[i].1 == status {
            return true;
        }
        i += 1;
    }
    false
}

/// Appends every destination of `more` to a list of moves.
pub(crate) fn offer_all(moves: &mut Vec<(Square, MoveStatus)>, more: Vec<(Square, MoveStatus)>)
    ensures
        final(moves)@ == old(moves)@ + more@,
        forall|square: Square, status: MoveStatus| #[trigger]
            final(moves)@.contains((square, status)) <==> (old(moves)@.contains((square, status))
                || more@.contains((square, status))),
        old(moves)@.no_duplicates() && more@.no_duplicates() && (forall|
            square: Square,
            status: MoveStatus,
        |
            !(old(moves)@.contains((square, status)) && #[trigger] more@.contains(
                (square, status),
            ))) ==> final(moves)@.no_duplicates(),
{
    let mut rest = more;
    moves.append(&mut rest);
    proof {
        let before = old(moves)@;
        let after = moves@;
        assert forall|square: Square, status: MoveStatus| #[trigger]
            after.contains((square, status)) <==> (before.contains((square, status))
                || more@.contains((square, status))) by {
            if before.contains((square, status)) {
                let i = choose|i: int| 0 <= i < before.len() && before[i] == (square, status);
                assert(after[i] == (square, status));
            }
            if more@.contains((square, status)) {
                let i = choose|i: int| 0 <= i < more@.len() && more@[i] == (square, status);
                assert(after[before.len() + i] == (square, status));
            }
            if after.contains((square, status)) {
                let i = choose|i: int| 0 <= i < after.len() && after[i] == (square, status);
                if i < before.len() {
                    assert(before[i] == (square, status));
                } else {
                    assert(more@[i - before.len()] == (square, status));
                }
            }
        }
        if before.no_duplicates() && more@.no_duplicates() && (forall|
            square: Square,
            status: MoveStatus,
        |
            !(before.contains((square, status)) && #[trigger] more@.contains((square, status)))) {
            assert forall|i: int, j: int|
                0 <= i < before.len() && 0 <= j < more@.len() implies before[i] != more@[j] by {
                let entry = more@[j];
                assert(more@.contains((entry.0, entry.1)));
                if before[i] == entry {
                    assert(before.contains((entry.0, entry.1)));
                }
            }
            vstd::seq_lib::lemma_no_dup_in_concat(before, more@);
        }
    }
}

/// Whether a piece of `color` that can reach `to` unhindered, stopping there, is
/// offered it with `status`: an empty square as a quiet move, a square held by
/// the other side as a capture, and a square held by its own side not at all.
pub open spec fn landing(
    pieces: Map<Square, Piece>,
    color: Color,
    to: Square,
    status: MoveStatus,
) -> bool {
    &&& to != Square::Unset
    &&& {
        ||| status == MoveStatus::movable(color) && vacant(pieces, to)
        ||| status == MoveStatus::capturable(color) && hostile(pieces, to, color)
    }
}

/// Offers `to` to a piece of `color` as `landing` says.
pub(crate) fn offer_landing(
    moves: &mut Vec<(Square, MoveStatus)>,
    board: &Board,
    color: Color,
    to: Square,
)
    requires
        board.wf(),
    ensures
        final(moves)@ == (if landing(board@.pieces, color, to, MoveStatus::movable(color)) {
            old(moves)@.push((to, MoveStatus::movable(color)))
        } else if landing(board@.pieces, color, to, MoveStatus::capturable(color)) {
            old(moves)@.push((to, MoveStatus::capturable(color)))
        } else {
            old(moves)@
        }),
        forall|square: Square, status: MoveStatus| #[trigger]
            final(moves)@.contains((square, status)) <==> (old(moves)@.contains((square, status))
                || (square == to && landing(board@.pieces, color, to, status))),
        old(moves)@.no_duplicates() && (forall|status: MoveStatus|
            !old(moves)@.contains((to, status))) ==> final(moves)@.no_duplicates(),
{
    if to.is_none() {
        return ;
    }
    match board.get_piece(to) {
        None => {
            offer(moves, to, MoveStatus::Movable { by_color: color, activated: false });
        },
        Some(piece) => {
            if piece.get_color() != color {
                offer(moves, to, MoveStatus::Capturable { by_color: color, activated: false });
            }
        },
    }
}

} // verus!
