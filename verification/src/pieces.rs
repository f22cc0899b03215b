use vstd::prelude::*;
use crate::board::{Board, CastlingRights};
use crate::moves::attack::reaches;
use crate::pieces::king::king_destination;
use crate::square::Square;
use crate::pieces::bishop::Bishop;
use crate::pieces::king::King;
use crate::pieces::knight::Knight;
use crate::pieces::pawn::Pawn;
use crate::pieces::queen::Queen;
use crate::pieces::rook::Rook;

pub mod bishop;
pub mod king;
pub mod knight;
pub mod pawn;
pub mod queen;
pub mod rook;

verus! {

/// The two sides of a match.
#[derive(Clone, Copy, Debug, PartialEq, Eq, Hash, Structural)]
pub enum Color {
    White,
    Black,
}

impl Color {
    /// The other side.
    pub open spec fn other(&self) -> Color {
        match *self {
            Color::White => Color::Black,
            Color::Black => Color::White,
        }
    }

    /// The rank on which this side's king and rooks start.
    pub open spec fn back_rank(self) -> int {
        match self {
            Color::White => 0,
            Color::Black => 7,
        }
    }

    /// The rank on which this side's pawns start.
    pub open spec fn pawn_rank(self) -> int {
        match self {
            Color::White => 1,
            Color::Black => 6,
        }
    }

    /// The rank on which this side's pawns are promoted.
    pub open spec fn last_rank(self) -> int {
        match self {
            Color::White => 7,
            Color::Black => 0,
        }
    }

    /// The change of rank when a pawn of this side advances one square.
    pub open spec fn forward(self) -> int {
        match self {
            Color::White => 1,
            Color::Black => -1,
        }
    }

    /// The other side.
    #[verifier::when_used_as_spec(other)]
    pub fn opposite(&self) -> (color: Color)
        ensures
            color == self.other(),
    {
        match self {
            Color::White => Color::Black,
            Color::Black => Color::White,
        }
    }
}

/// Why a destination square is offered to a piece. Every variant names the
/// side of the moving piece and carries a display flag that the rules never read.
#[derive(Clone, Copy, Debug, PartialEq, Eq, Structural)]
pub enum MoveStatus {
    /// A move to an empty square.
    Movable { by_color: Color, activated: bool },
    /// A capture of the opposing piece on the square.
    Capturable { by_color: Color, activated: bool },
    /// A pawn capturing in passing.
    EnPassant { by_color: Color, activated: bool },
    /// The king's part of castling.
    Castling { by_color: Color, activated: bool },
    /// A square behind the first piece met along a sliding ray.
    Pierced { by_color: Color, activated: bool },
}

impl MoveStatus {
    /// A fresh quiet move by `color`.
    pub open spec fn movable(color: Color) -> MoveStatus {
        MoveStatus::Movable { by_color: color, activated: false }
    }

    /// A fresh capture by `color`.
    pub open spec fn capturable(color: Color) -> MoveStatus {
        MoveStatus::Capturable { by_color: color, activated: false }
    }

    /// A fresh capture in passing by `color`.
    pub open spec fn en_passant(color: Color) -> MoveStatus {
        MoveStatus::EnPassant { by_color: color, activated: false }
    }

    /// A fresh castling move by `color`.
    pub open spec fn castling(color: Color) -> MoveStatus {
        MoveStatus::Castling { by_color: color, activated: false }
    }

    /// A fresh pierced square of `color`.
    pub open spec fn pierced(color: Color) -> MoveStatus {
        MoveStatus::Pierced { by_color: color, activated: false }
    }

    /// The side of the moving piece.
    pub open spec fn color(self) -> Color {
        match self {
            MoveStatus::Movable { by_color, .. } => by_color,
            MoveStatus::Capturable { by_color, .. } => by_color,
            MoveStatus::EnPassant { by_color, .. } => by_color,
            MoveStatus::Castling { by_color, .. } => by_color,
            MoveStatus::Pierced { by_color, .. } => by_color,
        }
    }

    /// The display flag.
    pub open spec fn flag(self) -> bool {
        match self {
            MoveStatus::Movable { activated, .. } => activated,
            MoveStatus::Capturable { activated, .. } => activated,
            MoveStatus::EnPassant { activated, .. } => activated,
            MoveStatus::Castling { activated, .. } => activated,
            MoveStatus::Pierced { activated, .. } => activated,
        }
    }

    /// The same status with the display flag replaced.
    pub open spec fn flagged(self, activated: bool) -> MoveStatus {
        match self {
            MoveStatus::Movable { by_color, .. } => MoveStatus::Movable { by_color, activated },
            MoveStatus::Capturable { by_color, .. } => MoveStatus::Capturable {
                by_color,
                activated,
            },
            MoveStatus::EnPassant { by_color, .. } => MoveStatus::EnPassant { by_color, activated },
            MoveStatus::Castling { by_color, .. } => MoveStatus::Castling { by_color, activated },
            MoveStatus::Pierced { by_color, .. } => MoveStatus::Pierced { by_color, activated },
        }
    }

    /// Whether a move with this status can be played: a quiet move, a capture or castling.
    pub open spec fn playable(self) -> bool {
        self is Movable || self is Capturable || self is Castling
    }

    /// Whether this status makes the square one that the moving side attacks:
    /// a quiet move or a capture.
    pub open spec fn attacking(self) -> bool {
        self is Movable || self is Capturable
    }

    /// The side of the moving piece.
    pub fn by_color(&self) -> (color: Color)
        ensures
            color == self.color(),
    {
        match self {
            MoveStatus::Movable { by_color, .. } => *by_color,
            MoveStatus::Capturable { by_color, .. } => *by_color,
            MoveStatus::EnPassant { by_color, .. } => *by_color,
            MoveStatus::Castling { by_color, .. } => *by_color,
            MoveStatus::Pierced { by_color, .. } => *by_color,
        }
    }

    /// The display flag.
    pub fn is_activated(&self) -> (activated: bool)
        ensures
            activated == self.flag(),
    {
        match self {
            MoveStatus::Movable { activated, .. } => *activated,
            MoveStatus::Capturable { activated, .. } => *activated,
            MoveStatus::EnPassant { activated, .. } => *activated,
            MoveStatus::Castling { activated, .. } => *activated,
            MoveStatus::Pierced { activated, .. } => *activated,
        }
    }

    /// Replaces the display flag and leaves the rest as it is.
    pub fn set_activated(&mut self, activated: bool)
        ensures
            *final(self) == old(self).flagged(activated),
    {
        *self = match *self {
            MoveStatus::Movable { by_color, .. } => MoveStatus::Movable { by_color, activated },
            MoveStatus::Capturable { by_color, .. } => MoveStatus::Capturable {
                by_color,
                activated,
            },
            MoveStatus::EnPassant { by_color, .. } => MoveStatus::EnPassant { by_color, activated },
            MoveStatus::Castling { by_color, .. } => MoveStatus::Castling { by_color, activated },
            MoveStatus::Pierced { by_color, .. } => MoveStatus::Pierced { by_color, activated },
        };
    }

    /// Whether a move with this status can be played.
    pub fn is_playable(&self) -> (playable: bool)
        ensures
            playable == self.playable(),
    {
        match self {
            MoveStatus::Movable { .. } => true,
            MoveStatus::Capturable { .. } => true,
            MoveStatus::Castling { .. } => true,
            _ => false,
        }
    }

    /// Whether this status is a quiet move or a capture.
    pub fn is_attacking(&self) -> (attacking: bool)
        ensures
            attacking == self.attacking(),
    {
        match self {
            MoveStatus::Movable { .. } => true,
            MoveStatus::Capturable { .. } => true,
            _ => false,
        }
    }
}

/// Whether `piece`, standing on `from`, is offered `to` with `status`: the
/// destinations of its kind, which for a king take the castling rights and the
/// other side's attacks into account.
pub open spec fn destination(
    pieces: Map<Square, Piece>,
    rights: CastlingRights,
    piece: Piece,
    from: Square,
    to: Square,
    status: MoveStatus,
) -> bool {
    match piece {
        Piece::K(king) => king_destination(pieces, rights, king.color, from, to, status),
        _ => reaches(pieces, piece, from, to, status),
    }
}

/// Whatever a piece is offered, it is offered in its own name, with the
/// display flag down, from a square of the board to a square of the board.
pub proof fn lemma_destination_status(
    pieces: Map<Square, Piece>,
    rights: CastlingRights,
    piece: Piece,
    from: Square,
    to: Square,
    status: MoveStatus,
)
    requires
        destination(pieces, rights, piece, from, to, status),
    ensures
        status.color() == piece.color(),
        !status.flag(),
        to != Square::Unset,
        from != Square::Unset,
        status is Castling ==> piece is K,
{
    Square::lemma_at(1, piece.color().back_rank());
    Square::lemma_at(2, piece.color().back_rank());
    Square::lemma_at(4, piece.color().back_rank());
    Square::lemma_at(6, piece.color().back_rank());
}

/// A piece of one of the six kinds.
#[derive(Clone, Copy, Debug, PartialEq, Eq, Structural)]
pub enum Piece {
    P(Pawn),
    N(Knight),
    B(Bishop),
    R(Rook),
    Q(Queen),
    K(King),
}

impl Piece {
    /// The side that the piece belongs to.
    pub open spec fn color(self) -> Color {
        match self {
            Piece::P(pawn) => pawn.color,
            Piece::N(knight) => knight.color,
            Piece::B(bishop) => bishop.color,
            Piece::R(rook) => rook.color,
            Piece::Q(queen) => queen.color,
            Piece::K(king) => king.color,
        }
    }

    /// The square that the piece remembers; a king remembers none.
    pub open spec fn coord(self) -> Square {
        match self {
            Piece::P(pawn) => pawn.coord,
            Piece::N(knight) => knight.coord,
            Piece::B(bishop) => bishop.coord,
            Piece::R(rook) => rook.coord,
            Piece::Q(queen) => queen.coord,
            Piece::K(_) => Square::Unset,
        }
    }

    /// The same piece remembering `coord`; a king is left as it is.
    pub open spec fn placed(self, coord: Square) -> Piece {
        match self {
            Piece::P(pawn) => Piece::P(Pawn { coord, ..pawn }),
            Piece::N(knight) => Piece::N(Knight { coord, ..knight }),
            Piece::B(bishop) => Piece::B(Bishop { coord, ..bishop }),
            Piece::R(rook) => Piece::R(Rook { coord, ..rook }),
            Piece::Q(queen) => Piece::Q(Queen { coord, ..queen }),
            Piece::K(king) => Piece::K(king),
        }
    }

    /// The destinations offered to the piece if it stood on `coord_from`:
    /// exactly those that `destination` allows, each once. The board is only read.
    pub fn get_valid_moves(&self, board: &Board, coord_from: Square) -> (moves: Vec<
        (Square, MoveStatus),
    >)
        requires
            board.wf(),
        ensures
            forall|to: Square, status: MoveStatus| #[trigger]
                moves@.contains((to, status)) <==> destination(
                    board@.pieces,
                    board@.rights,
                    *self,
                    coord_from,
                    to,
                    status,
                ),
            moves@.no_duplicates(),
    {
        match self {
            Piece::P(pawn) => pawn.get_valid_moves(board, coord_from),
            Piece::N(knight) => knight.get_valid_moves(board, coord_from),
            Piece::B(bishop) => bishop.get_valid_moves(board, coord_from),
            Piece::R(rook) => rook.get_valid_moves(board, coord_from),
            Piece::Q(queen) => queen.get_valid_moves(board, coord_from),
            Piece::K(king) => king.get_valid_moves(board, coord_from),
        }
    }

    /// What the piece bears on from `coord_from` when the safety of its own king
    /// is left aside: exactly what `reaches` allows, each entry once.
    pub fn get_threats(&self, board: &Board, coord_from: Square) -> (moves: Vec<
        (Square, MoveStatus),
    >)
        requires
            board.wf(),
        ensures
            forall|to: Square, status: MoveStatus| #[trigger]
                moves@.contains((to, status)) <==> reaches(
                    board@.pieces,
                    *self,
                    coord_from,
                    to,
                    status,
                ),
            moves@.no_duplicates(),
    {
        match self {
            Piece::P(pawn) => pawn.get_valid_moves(board, coord_from),
            Piece::N(knight) => knight.get_valid_moves(board, coord_from),
            Piece::B(bishop) => bishop.get_valid_moves(board, coord_from),
            Piece::R(rook) => rook.get_valid_moves(board, coord_from),
            Piece::Q(queen) => queen.get_valid_moves(board, coord_from),
            Piece::K(king) => king.get_steps(board, coord_from),
        }
    }

    /// The side that the piece belongs to.
    pub fn get_color(&self) -> (color: Color)
        ensures
            color == self.color(),
    {
        match self {
            Piece::P(pawn) => pawn.color,
            Piece::N(knight) => knight.color,
            Piece::B(bishop) => bishop.color,
            Piece::R(rook) => rook.color,
            Piece::Q(queen) => queen.color,
            Piece::K(king) => king.color,
        }
    }

    /// The square that the piece remembers; `Unset` for a king.
    pub fn get_coord(&self) -> (coord: Square)
        ensures
            coord == self.coord(),
    {
        match self {
            Piece::P(pawn) => pawn.coord,
            Piece::N(knight) => knight.coord,
            Piece::B(bishop) => bishop.coord,
            Piece::R(rook) => rook.coord,
            Piece::Q(queen) => queen.coord,
            Piece::K(_) => Square::Unset,
        }
    }

    /// Makes the piece remember `coord`; a king is left as it is.
    pub fn set_coord(&mut self, coord: Square)
        ensures
            *final(self) == old(self).placed(coord),
    {
        *self = match *self {
            Piece::P(pawn) => Piece::P(Pawn { coord, ..pawn }),
            Piece::N(knight) => Piece::N(Knight { coord, ..knight }),
            Piece::B(bishop) => Piece::B(Bishop { coord, ..bishop }),
            Piece::R(rook) => Piece::R(Rook { coord, ..rook }),
            Piece::Q(queen) => Piece::Q(Queen { coord, ..queen }),
            Piece::K(king) => Piece::K(king),
        };
    }
}

} // verus!
