use vstd::prelude::*;
use crate::board::{BoardView, CastlingRights};
use crate::game::{outcome, promotes, GameState, GameView};
use crate::moves::attack::{attacked, attacked_from, reaches};
use crate::moves::ray::{clear, direction, pierces, ray_at, ray_destination, ray_reach};
use crate::moves::{friendly, hostile, vacant};
use crate::pieces::king::king_destination;
use crate::pieces::pawn::pawn_destination;
use crate::pieces::{destination, Color, MoveStatus, Piece};
use crate::square::Square;

verus! {

/// Between `from` and the square at distance `k` along the ray there is no
/// piece of the slider's own side, and at most one piece at all.
pub open spec fn stops_short(
    pieces: Map<Square, Piece>,
    color: Color,
    from: Square,
    files: int,
    ranks: int,
    k: int,
) -> bool {
    &&& forall|j: int|
        1 <= j < k ==> !friendly(pieces, #[trigger] ray_at(from, files, ranks, j), color)
    &&& forall|i: int, j: int|
        1 <= i < j < k ==> vacant(pieces, #[trigger] ray_at(from, files, ranks, i)) || vacant(
            pieces,
            #[trigger] ray_at(from, files, ranks, j),
        )
}

/// A capture is only ever offered on a square held by the other side, and a
/// quiet move only on an empty square, whatever the piece and the board.
pub proof fn lemma_captures_and_quiet_moves(
    pieces: Map<Square, Piece>,
    rights: CastlingRights,
    piece: Piece,
    from: Square,
    to: Square,
    status: MoveStatus,
)
    requires
        destination(pieces, rights, piece, from, to, status),
    ensures
        status is Capturable ==> hostile(pieces, to, piece.color()),
        status is Movable ==> vacant(pieces, to),
{
}

/// What a ray offers at distance `k` lies no further than the second piece on
/// the ray and behind no piece of the slider's own side.
pub proof fn lemma_ray_stops_short(
    pieces: Map<Square, Piece>,
    color: Color,
    from: Square,
    files: int,
    ranks: int,
    k: int,
    status: MoveStatus,
)
    requires
        ray_reach(pieces, color, from, files, ranks, k, status),
    ensures
        stops_short(pieces, color, from, files, ranks, k),
{
    if clear(pieces, from, files, ranks, 1, k) {
    } else {
        assert(pierces(pieces, color, from, files, ranks, k));
        let b = choose|b: int|
            {
                &&& 1 <= b < k
                &&& hostile(pieces, #[trigger] ray_at(from, files, ranks, b), color)
                &&& clear(pieces, from, files, ranks, 1, b)
                &&& clear(pieces, from, files, ranks, b + 1, k)
            };
        assert forall|j: int| 1 <= j < k implies !friendly(
            pieces,
            #[trigger] ray_at(from, files, ranks, j),
            color,
        ) by {
            if j != b {
                assert(vacant(pieces, ray_at(from, files, ranks, j)));
            }
        }
        assert forall|i: int, j: int| 1 <= i < j < k implies vacant(
            pieces,
            #[trigger] ray_at(from, files, ranks, i),
        ) || vacant(pieces, #[trigger] ray_at(from, files, ranks, j)) by {
            if i != b {
                assert(vacant(pieces, ray_at(from, files, ranks, i)));
            } else {
                assert(vacant(pieces, ray_at(from, files, ranks, j)));
            }
        }
    }
}

/// Whatever a bishop, a rook or a queen is offered lies on one of the eight
/// rays from its square, no further than the second piece on that ray and
/// behind no piece of its own side.
pub proof fn lemma_sliders_stop_short(
    pieces: Map<Square, Piece>,
    piece: Piece,
    from: Square,
    to: Square,
    status: MoveStatus,
)
    requires
        piece is B || piece is R || piece is Q,
        reaches(pieces, piece, from, to, status),
    ensures
        exists|files: int, ranks: int, k: int|
            {
                &&& direction(files, ranks)
                &&& 1 <= k < 8
                &&& to == #[trigger] ray_at(from, files, ranks, k)
                &&& stops_short(pieces, piece.color(), from, files, ranks, k)
            },
{
    let color = piece.color();
    let (files, ranks): (int, int) = choose|files: int, ranks: int|
        direction(files, ranks) && #[trigger] ray_destination(
            pieces,
            color,
            from,
            files,
            ranks,
            to,
            status,
        );
    let k = choose|k: int|
        {
            &&& 1 <= k < 8
            &&& to == #[trigger] ray_at(from, files, ranks, k)
            &&& to != Square::Unset
            &&& ray_reach(pieces, color, from, files, ranks, k, status)
        };
    lemma_ray_stops_short(pieces, color, from, files, ranks, k, status);
}

/// A king is never offered a square that the other side attacks: neither by a
/// step nor by castling.
pub proof fn lemma_king_avoids_attack(
    pieces: Map<Square, Piece>,
    rights: CastlingRights,
    color: Color,
    from: Square,
    to: Square,
    status: MoveStatus,
)
    requires
        king_destination(pieces, rights, color, from, to, status),
    ensures
        !attacked(pieces, to, color.other()),
{
}

/// A king is never offered a square that any piece of the other side is
/// offered as a quiet move or as a capture.
pub proof fn lemma_king_avoids_destinations(
    board: BoardView,
    color: Color,
    from: Square,
    to: Square,
    status: MoveStatus,
)
    requires
        king_destination(board.pieces, board.rights, color, from, to, status),
    ensures
        !board.offers(color.other(), to, MoveStatus::movable(color.other())),
        !board.offers(color.other(), to, MoveStatus::capturable(color.other())),
{
    let enemy = color.other();
    lemma_king_avoids_attack(board.pieces, board.rights, color, from, to, status);
    assert forall|other: Square|
        !(#[trigger] board.offers_from(enemy, other, to, MoveStatus::movable(enemy))
            || board.offers_from(enemy, other, to, MoveStatus::capturable(enemy))) by {
        if board.offers_from(enemy, other, to, MoveStatus::movable(enemy)) || board.offers_from(
            enemy,
            other,
            to,
            MoveStatus::capturable(enemy),
        ) {
            assert(attacked_from(board.pieces, other, to, enemy));
        }
    }
}

/// A white pawn on its starting rank with the two squares ahead of it empty is
/// offered both of them.
pub proof fn lemma_pawn_first_move(pieces: Map<Square, Piece>, from: Square)
    requires
        from != Square::Unset,
        from.rank() == 1,
        vacant(pieces, Square::at(from.file(), 2)),
        vacant(pieces, Square::at(from.file(), 3)),
    ensures
        pawn_destination(
            pieces,
            Color::White,
            from,
            Square::at(from.file(), 2),
            MoveStatus::movable(Color::White),
        ),
        pawn_destination(
            pieces,
            Color::White,
            from,
            Square::at(from.file(), 3),
            MoveStatus::movable(Color::White),
        ),
{
    from.lemma_coordinates();
    Square::lemma_at(from.file(), 2);
    Square::lemma_at(from.file(), 3);
}

/// A pawn is offered a capture on exactly those squares diagonally ahead of it
/// on which a piece of the other side stands.
pub proof fn lemma_pawn_captures(
    pieces: Map<Square, Piece>,
    color: Color,
    from: Square,
    to: Square,
)
    requires
        from != Square::Unset,
    ensures
        pawn_destination(pieces, color, from, to, MoveStatus::capturable(color)) <==> {
            &&& to != Square::Unset
            &&& to.rank() == from.rank() + color.forward()
            &&& (to.file() == from.file() - 1 || to.file() == from.file() + 1)
            &&& hostile(pieces, to, color)
        },
{
    from.lemma_coordinates();
    to.lemma_coordinates();
    Square::lemma_at(from.file() - 1, from.rank() + color.forward());
    Square::lemma_at(from.file() + 1, from.rank() + color.forward());
}

/// The state that `outcome` gives for a side names that side, unless it is a
/// stalemate, which names none.
pub proof fn lemma_outcome_names_side(board: BoardView, color: Color)
    ensures
        outcome(board, color) != GameState::Stalemate ==> outcome(board, color).color() == color,
        outcome(board, color) == GameState::Stalemate ==> !board.can_move(color),
{
}

/// After a move that was accepted, the state names the side opposed to the one
/// that moved. Two outcomes are left aside: a pawn that has reached its last
/// rank, after which its own side has to choose a piece, and a stalemate,
/// which names no side.
pub proof fn lemma_turn_alternates(game: GameView, from: Square, to: Square)
    requires
        game.accepts(from, to),
        !promotes(game.selected->0, to),
        game.after_move(from, to).state != GameState::Stalemate,
    ensures
        game.after_move(from, to).state.color() == (game.selected->0).color().other(),
        game.after_move(from, to).state.color() == game.state.color().other(),
{
}

/// A castling right that a move has ended does not come back: whatever right
/// is there after a move was there before it.
pub proof fn lemma_rights_do_not_return(game: GameView, from: Square, to: Square, color: Color)
    requires
        game.accepts(from, to),
    ensures
        game.after_move(from, to).board.rights.kingside(color) ==> game.board.rights.kingside(
            color,
        ),
        game.after_move(from, to).board.rights.queenside(color) ==> game.board.rights.queenside(
            color,
        ),
{
}

/// A king or a rook that leaves its starting square ends its side's castling
/// rights that depend on it.
pub proof fn lemma_leaving_home_ends_rights(rights: CastlingRights, from: Square, to: Square)
    ensures
        from == Square::E1 ==> !rights.after(from, to).kingside(Color::White) && !rights.after(
            from,
            to,
        ).queenside(Color::White),
        from == Square::E8 ==> !rights.after(from, to).kingside(Color::Black) && !rights.after(
            from,
            to,
        ).queenside(Color::Black),
        from == Square::H1 ==> !rights.after(from, to).kingside(Color::White),
        from == Square::A1 ==> !rights.after(from, to).queenside(Color::White),
        from == Square::H8 ==> !rights.after(from, to).kingside(Color::Black),
        from == Square::A8 ==> !rights.after(from, to).queenside(Color::Black),
{
}

/// Selecting the same square twice in a row leaves the match as the first
/// selection left it: the same marks, the same selected piece, and the state
/// that the match had before.
pub proof fn lemma_select_twice(game: GameView, coord: Square)
    ensures
        game.after_select(coord).after_select(coord) == game.after_select(coord),
        game.after_select(coord).state == game.state,
        game.after_select(coord).board.pieces == game.board.pieces,
{
    let once = game.after_select(coord);
    let twice = once.after_select(coord);
    assert(twice.board.capturable =~= once.board.capturable);
    assert(twice.board.vulnerable =~= once.board.vulnerable);
}

} // verus!
