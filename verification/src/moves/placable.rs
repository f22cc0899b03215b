use vstd::prelude::*;
use crate::board::Board;
use crate::game::playable_to;
use crate::moves::attack::{lemma_reaches_status, threatens};
use crate::pieces::bishop::Bishop;
use crate::pieces::king::King;
use crate::pieces::knight::Knight;
use crate::pieces::pawn::Pawn;
use crate::pieces::queen::Queen;
use crate::pieces::rook::Rook;
use crate::pieces::{lemma_destination_status, Color, MoveStatus, Piece};
use crate::square::Square;

verus! {

/// `piece` stands on `square`.
pub open spec fn stands_on(pieces: Map<Square, Piece>, piece: Piece, square: Square) -> bool {
    pieces.contains_key(square) && pieces[square] == piece
}

/// Whether `position` is where `piece` is found on the board: the first square,
/// counting rank by rank from A1, on which it stands, and nothing if it stands
/// on none.
pub open spec fn found_at(
    pieces: Map<Square, Piece>,
    piece: Piece,
    position: Option<Square>,
) -> bool {
    match position {
        Some(square) => stands_on(pieces, piece, square) && forall|other: Square| #[trigger]
            stands_on(pieces, piece, other) ==> square.index() <= other.index(),
        None => forall|other: Square| !#[trigger] stands_on(pieces, piece, other),
    }
}

/// Where `piece` is found on `board`, going by the board alone.
pub fn locate(board: &Board, piece: Piece) -> (position: Option<Square>)
    requires
        board.wf(),
    ensures
        found_at(board@.pieces, piece, position),
{
    let mut i: usize = 0;
    proof {
        assert forall|other: Square| other.index() >= 0 by {
            other.lemma_index();
        }
    }
    while i < 64
        invariant
            i <= 64,
            board.wf(),
            forall|other: Square|
                other.index() < i ==> !#[trigger] stands_on(board@.pieces, piece, other),
        decreases 64 - i,
    {
        let square = Square::from_index(i);
        proof {
            Square::lemma_of_index(i as int);
        }
        let here = match board.get_piece(square) {
            Some(found) => *found == piece,
            None => false,
        };
        if here {
            return Some(square);
        }
        proof {
            assert forall|other: Square| other.index() < i + 1 implies !#[trigger] stands_on(
                board@.pieces,
                piece,
                other,
            ) by {
                other.lemma_index();
            }
        }
        i += 1;
    }
    proof {
        assert forall|other: Square| !#[trigger] stands_on(board@.pieces, piece, other) by {
            other.lemma_index();
        }
    }
    None
}

/// The squares that `piece` would have from `coord`: with `is_threaten` those
/// that it threatens, without it those that it can be played to.
pub fn squares_of(board: &Board, piece: Piece, coord: Square, is_threaten: bool) -> (squares: Vec<
    Square,
>)
    requires
        board.wf(),
    ensures
        forall|to: Square| #[trigger]
            squares@.contains(to) <==> (if is_threaten {
                threatens(board@.pieces, piece, coord, to)
            } else {
                playable_to(board@, piece, coord, to)
            }),
{
    let moves = if is_threaten {
        piece.get_threats(board, coord)
    } else {
        piece.get_valid_moves(board, coord)
    };
    let ghost wanted = |status: MoveStatus|
        if is_threaten {
            status.attacking()
        } else {
            status.playable()
        };
    let mut squares: Vec<Square> = Vec::new();
    let mut i: usize = 0;
    while i < moves.len()
        invariant
            i <= moves.len(),
            wanted == |status: MoveStatus|
                if is_threaten {
                    status.attacking()
                } else {
                    status.playable()
                },
            forall|to: Square| #[trigger]
                squares@.contains(to) <==> exists|j: int|
                    0 <= j < i && (#[trigger] moves@[j]).0 == to && wanted(moves@[j].1),
        decreases moves.len() - i,
    {
        let to = moves[i].0;
        let keep = if is_threaten {
            moves[i].1.is_attacking()
        } else {
            moves[i].1.is_playable()
        };
        let ghost before = squares@;
        if keep {
            squares.push(to);
        }
        proof {
            assert forall|square: Square| #[trigger]
                squares@.contains(square) <==> exists|j: int|
                    0 <= j < i + 1 && (#[trigger] moves@[j]).0 == square && wanted(
                        moves@[j].1,
                    ) by {
                if before.contains(square) {
                    let k = choose|k: int| 0 <= k < before.len() && before[k] == square;
                    assert(squares@[k] == square);
                    let j = choose|j: int|
                        0 <= j < i && (#[trigger] moves@[j]).0 == square && wanted(moves@[j].1);
                    assert(0 <= j < i + 1);
                }
                if keep && square == to {
                    assert(squares@[before.len() as int] == square);
                    assert(moves@[i as int].0 == square && wanted(moves@[i as int].1));
                }
                if squares@.contains(square) {
                    let k = choose|k: int| 0 <= k < squares@.len() && squares@[k] == square;
                    if k < before.len() {
                        assert(before[k] == square);
                        assert(before.contains(square));
                    }
                }
                if exists|j: int|
                    0 <= j < i + 1 && (#[trigger] moves@[j]).0 == square && wanted(moves@[j].1) {
                    let j = choose|j: int|
                        0 <= j < i + 1 && (#[trigger] moves@[j]).0 == square && wanted(
                            moves@[j].1,
                        );
                    if j < i {
                        assert(before.contains(square));
                    }
                }
            }
        }
        i += 1;
    }
    proof {
        let color = piece.color();
        assert forall|to: Square| #[trigger]
            squares@.contains(to) <==> (if is_threaten {
                threatens(board@.pieces, piece, coord, to)
            } else {
                playable_to(board@, piece, coord, to)
            }) by {
            if squares@.contains(to) {
                let j = choose|j: int|
                    0 <= j < i && (#[trigger] moves@[j]).0 == to && wanted(moves@[j].1);
                let status = moves@[j].1;
                assert(moves@.contains((to, status)));
                if is_threaten {
                    lemma_reaches_status(board@.pieces, piece, coord, to, status);
                } else {
                    lemma_destination_status(
                        board@.pieces,
                        board@.rights,
                        piece,
                        coord,
                        to,
                        status,
                    );
                }
            }
            let quiet = MoveStatus::movable(color);
            let capture = MoveStatus::capturable(color);
            let castle = MoveStatus::castling(color);
            if moves@.contains((to, quiet)) {
                let j = choose|j: int| 0 <= j < moves@.len() && moves@[j] == (to, quiet);
                assert(moves@[j].0 == to && wanted(moves@[j].1));
            }
            if moves@.contains((to, capture)) {
                let j = choose|j: int| 0 <= j < moves@.len() && moves@[j] == (to, capture);
                assert(moves@[j].0 == to && wanted(moves@[j].1));
            }
            if !is_threaten && moves@.contains((to, castle)) {
                let j = choose|j: int| 0 <= j < moves@.len() && moves@[j] == (to, castle);
                assert(moves@[j].0 == to && wanted(moves@[j].1));
            }
        }
    }
    squares
}

/// What every kind of piece can say of itself on a board.
pub trait Placable {
    /// The value as a piece of one of the six kinds.
    spec fn as_piece(&self) -> Piece;

    /// The side that the piece belongs to.
    fn get_color(&self) -> (color: Color)
        ensures
            color == self.as_piece().color(),
    ;

    /// Where the piece is found on `board`, going by the board and not by what
    /// the piece remembers.
    fn get_position(&self, board: &Board) -> (position: Option<Square>)
        requires
            board.wf(),
        ensures
            found_at(board@.pieces, self.as_piece(), position),
    ;

    /// The squares that the piece would have from `coord`: with `is_threaten`
    /// those that it threatens, without it those that it can be played to.
    fn get_valid_moves(&self, board: &Board, coord: Square, is_threaten: bool) -> (squares: Vec<
        Square,
    >)
        requires
            board.wf(),
        ensures
            forall|to: Square| #[trigger]
                squares@.contains(to) <==> (if is_threaten {
                    threatens(board@.pieces, self.as_piece(), coord, to)
                } else {
                    playable_to(board@, self.as_piece(), coord, to)
                }),
    ;
}

impl Placable for Pawn {
    open spec fn as_piece(&self) -> Piece {
        Piece::P(*self)
    }

    fn get_color(&self) -> (color: Color) {
        self.color
    }

    fn get_position(&self, board: &Board) -> (position: Option<Square>) {
        locate(board, Piece::P(*self))
    }

    fn get_valid_moves(&self, board: &Board, coord: Square, is_threaten: bool) -> (squares: Vec<
        Square,
    >) {
        squares_of(board, Piece::P(*self), coord, is_threaten)
    }
}

impl Placable for Knight {
    open spec fn as_piece(&self) -> Piece {
        Piece::N(*self)
    }

    fn get_color(&self) -> (color: Color) {
        self.color
    }

    fn get_position(&self, board: &Board) -> (position: Option<Square>) {
        locate(board, Piece::N(*self))
    }

    fn get_valid_moves(&self, board: &Board, coord: Square, is_threaten: bool) -> (squares: Vec<
        Square,
    >) {
        squares_of(board, Piece::N(*self), coord, is_threaten)
    }
}

impl Placable for Bishop {
    open spec fn as_piece(&self) -> Piece {
        Piece::B(*self)
    }

    fn get_color(&self) -> (color: Color) {
        self.color
    }

    fn get_position(&self, board: &Board) -> (position: Option<Square>) {
        locate(board, Piece::B(*self))
    }

    fn get_valid_moves(&self, board: &Board, coord: Square, is_threaten: bool) -> (squares: Vec<
        Square,
    >) {
        squares_of(board, Piece::B(*self), coord, is_threaten)
    }
}

impl Placable for Rook {
    open spec fn as_piece(&self) -> Piece {
        Piece::R(*self)
    }

    fn get_color(&self) -> (color: Color) {
        self.color
    }

    fn get_position(&self, board: &Board) -> (position: Option<Square>) {
        locate(board, Piece::R(*self))
    }

    fn get_valid_moves(&self, board: &Board, coord: Square, is_threaten: bool) -> (squares: Vec<
        Square,
    >) {
        squares_of(board, Piece::R(*self), coord, is_threaten)
    }
}

impl Placable for Queen {
    open spec fn as_piece(&self) -> Piece {
        Piece::Q(*self)
    }

    fn get_color(&self) -> (color: Color) {
        self.color
    }

    fn get_position(&self, board: &Board) -> (position: Option<Square>) {
        locate(board, Piece::Q(*self))
    }

    fn get_valid_moves(&self, board: &Board, coord: Square, is_threaten: bool) -> (squares: Vec<
        Square,
    >) {
        squares_of(board, Piece::Q(*self), coord, is_threaten)
    }
}

impl Placable for King {
    open spec fn as_piece(&self) -> Piece {
        Piece::K(*self)
    }

    fn get_color(&self) -> (color: Color) {
        self.color
    }

    fn get_position(&self, board: &Board) -> (position: Option<Square>) {
        locate(board, Piece::K(*self))
    }

    fn get_valid_moves(&self, board: &Board, coord: Square, is_threaten: bool) -> (squares: Vec<
        Square,
    >) {
        squares_of(board, Piece::K(*self), coord, is_threaten)
    }
}

impl Placable for Piece {
    open spec fn as_piece(&self) -> Piece {
        *self
    }

    fn get_color(&self) -> (color: Color) {
        Piece::get_color(self)
    }

    fn get_position(&self, board: &Board) -> (position: Option<Square>) {
        locate(board, *self)
    }

    fn get_valid_moves(&self, board: &Board, coord: Square, is_threaten: bool) -> (squares: Vec<
        Square,
    >) {
        squares_of(board, *self, coord, is_threaten)
    }
}

} // verus!
