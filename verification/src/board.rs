use vstd::prelude::*;
use crate::moves::attack::{attacked, attacked_from, in_check, lemma_reaches_status, reaches};
use crate::moves::offer_all;
use crate::pieces::destination;
use crate::pieces::bishop::Bishop;
use crate::pieces::king::King;
use crate::pieces::knight::Knight;
use crate::pieces::pawn::Pawn;
use crate::pieces::queen::Queen;
use crate::pieces::rook::Rook;
use crate::pieces::{Color, MoveStatus, Piece};
use crate::square::Square;

verus! {

/// Which castling moves each side still has the right to make: a right is lost
/// for good once the king or the rook concerned has left its starting square.
#[derive(Clone, Copy, Debug, PartialEq, Eq, Structural)]
pub struct CastlingRights {
    pub white_kingside: bool,
    pub white_queenside: bool,
    pub black_kingside: bool,
    pub black_queenside: bool,
}

impl CastlingRights {
    /// Every right intact, as at the start of a match.
    pub open spec fn all() -> CastlingRights {
        CastlingRights {
            white_kingside: true,
            white_queenside: true,
            black_kingside: true,
            black_queenside: true,
        }
    }

    /// Whether `color` may still castle on the king's side.
    pub open spec fn kingside(self, color: Color) -> bool {
        match color {
            Color::White => self.white_kingside,
            Color::Black => self.black_kingside,
        }
    }

    /// Whether `color` may still castle on the queen's side.
    pub open spec fn queenside(self, color: Color) -> bool {
        match color {
            Color::White => self.white_queenside,
            Color::Black => self.black_queenside,
        }
    }

    /// The rights that remain after a piece has gone from `from` to `to`: a move
    /// that starts or ends on a king's or a rook's starting square ends the
    /// rights that depend on that square.
    pub open spec fn after(self, from: Square, to: Square) -> CastlingRights {
        CastlingRights {
            white_kingside: self.white_kingside && from != Square::E1 && from != Square::H1 && to
                != Square::E1 && to != Square::H1,
            white_queenside: self.white_queenside && from != Square::E1 && from != Square::A1 && to
                != Square::E1 && to != Square::A1,
            black_kingside: self.black_kingside && from != Square::E8 && from != Square::H8 && to
                != Square::E8 && to != Square::H8,
            black_queenside: self.black_queenside && from != Square::E8 && from != Square::A8 && to
                != Square::E8 && to != Square::A8,
        }
    }
}

/// The piece of `color` that starts a match on the given file of its back rank,
/// before it is set down: rooks outermost, then knights, then bishops, the
/// queen on the D file and the king on the E file.
pub open spec fn back_piece(color: Color, file: int) -> Piece {
    if file == 0 || file == 7 {
        Piece::R(Rook { color, coord: Square::Unset })
    } else if file == 1 || file == 6 {
        Piece::N(Knight { color, coord: Square::Unset })
    } else if file == 2 || file == 5 {
        Piece::B(Bishop { color, coord: Square::Unset })
    } else if file == 3 {
        Piece::Q(Queen { color, coord: Square::Unset })
    } else {
        Piece::K(King { color, is_checked: false })
    }
}

/// The piece that stands on `square` when a match starts. Meant for squares of
/// the first two and the last two ranks: White below, Black above, pawns on the
/// second and the seventh rank.
pub open spec fn initial_piece(square: Square) -> Piece {
    let color = if square.rank() <= 1 {
        Color::White
    } else {
        Color::Black
    };
    if square.rank() == 1 || square.rank() == 6 {
        Piece::P(Pawn { color, coord: square })
    } else {
        back_piece(color, square.file()).placed(square)
    }
}

/// What a board holds, as plain mathematics.
pub struct BoardView {
    /// The piece on each occupied square.
    pub pieces: Map<Square, Piece>,
    /// The squares marked as captures of the current selection, with the marking side.
    pub capturable: Map<Square, Color>,
    /// The squares marked as other destinations of the current selection, with the marking side.
    pub vulnerable: Map<Square, Color>,
    /// The occupied squares recorded as open to capture when the record was last refreshed.
    pub threatened: Set<Square>,
    /// The castling rights that are left.
    pub rights: CastlingRights,
}

impl BoardView {
    /// Nothing stands or is marked off the board, and every piece that remembers
    /// a square remembers the one it stands on.
    pub open spec fn wf(self) -> bool {
        &&& !self.pieces.contains_key(Square::Unset)
        &&& !self.capturable.contains_key(Square::Unset)
        &&& !self.vulnerable.contains_key(Square::Unset)
        &&& !self.threatened.contains(Square::Unset)
        &&& forall|square: Square| #[trigger]
            self.pieces.contains_key(square) ==> self.pieces[square].placed(square)
                == self.pieces[square]
    }

    /// The standard starting position: all castling rights, no marks, no record
    /// of threatened pieces.
    pub open spec fn initial() -> BoardView {
        BoardView {
            pieces: Map::new(
                |square: Square| square != Square::Unset && (square.rank() <= 1 || square.rank() >= 6),
                |square: Square| initial_piece(square),
            ),
            capturable: Map::empty(),
            vulnerable: Map::empty(),
            threatened: Set::empty(),
            rights: CastlingRights::all(),
        }
    }

    /// Whether the piece on `from` belongs to `color` and is offered `to` with `status`.
    pub open spec fn offers_from(
        self,
        color: Color,
        from: Square,
        to: Square,
        status: MoveStatus,
    ) -> bool {
        &&& self.pieces.contains_key(from)
        &&& self.pieces[from].color() == color
        &&& destination(self.pieces, self.rights, self.pieces[from], from, to, status)
    }

    /// Whether some piece of `color` is offered `to` with `status`.
    pub open spec fn offers(self, color: Color, to: Square, status: MoveStatus) -> bool {
        exists|from: Square| #[trigger] self.offers_from(color, from, to, status)
    }

    /// Whether `color` has a move that can be played: some piece of that side is
    /// offered a quiet move, a capture or castling.
    pub open spec fn can_move(self, color: Color) -> bool {
        exists|from: Square, to: Square, status: MoveStatus| #[trigger]
            self.offers_from(color, from, to, status) && status.playable()
    }

    /// Whether a piece stands on `square` that the other side attacks.
    pub open spec fn exposed(self, square: Square) -> bool {
        self.pieces.contains_key(square) && attacked(
            self.pieces,
            square,
            self.pieces[square].color().other(),
        )
    }

    /// The piece on `square` with what it remembers brought up to date: a king
    /// remembers whether it is attacked, every other piece stays as it is.
    pub open spec fn refreshed_piece(self, square: Square) -> Piece {
        match self.pieces[square] {
            Piece::K(king) => Piece::K(King { is_checked: self.exposed(square), ..king }),
            other => other,
        }
    }

    /// The board with its record of threatened pieces brought up to date: the
    /// record names exactly the pieces that the other side attacks, and every
    /// king remembers whether it is one of them.
    pub open spec fn refreshed(self) -> BoardView {
        BoardView {
            pieces: Map::new(
                |square: Square| self.pieces.contains_key(square),
                |square: Square| self.refreshed_piece(square),
            ),
            threatened: Set::new(|square: Square| self.exposed(square)),
            ..self
        }
    }

    /// The same board without any selection mark.
    pub open spec fn unmarked(self) -> BoardView {
        BoardView { capturable: Map::empty(), vulnerable: Map::empty(), ..self }
    }

    /// The board after the piece on `from` has been set down on `to`, replacing
    /// whatever stood there. Meant for an occupied `from` and a `to` on the board.
    pub open spec fn relocated(self, from: Square, to: Square) -> BoardView {
        BoardView {
            pieces: self.pieces.remove(from).insert(to, self.pieces[from].placed(to)),
            rights: self.rights.after(from, to),
            ..self
        }
    }
}

/// The reason given when a move starts on an empty square.
pub open spec fn no_piece_text() -> Seq<char> {
    "no piece on the source square"@
}

/// The reason given when a move ends off the board.
pub open spec fn off_board_text() -> Seq<char> {
    "destination is off the board"@
}

/// The 64 squares with their pieces, the selection marks, the record of pieces
/// open to capture, and the castling rights.
pub struct Board {
    squares: Vec<Option<Piece>>,
    capturable: Vec<Option<Color>>,
    vulnerable: Vec<Option<Color>>,
    threatened: Vec<bool>,
    rights: CastlingRights,
}

impl View for Board {
    type V = BoardView;

    closed spec fn view(&self) -> BoardView {
        BoardView {
            pieces: Map::new(
                |square: Square| square != Square::Unset && self.squares@[square.index()] is Some,
                |square: Square| self.squares@[square.index()]->0,
            ),
            capturable: Map::new(
                |square: Square|
                    square != Square::Unset && self.capturable@[square.index()] is Some,
                |square: Square| self.capturable@[square.index()]->0,
            ),
            vulnerable: Map::new(
                |square: Square|
                    square != Square::Unset && self.vulnerable@[square.index()] is Some,
                |square: Square| self.vulnerable@[square.index()]->0,
            ),
            threatened: Set::new(
                |square: Square| square != Square::Unset && self.threatened@[square.index()],
            ),
            rights: self.rights,
        }
    }
}

impl Board {
    /// The storage has one slot per square.
    pub closed spec fn sized(&self) -> bool {
        &&& self.squares@.len() == 64
        &&& self.capturable@.len() == 64
        &&& self.vulnerable@.len() == 64
        &&& self.threatened@.len() == 64
    }

    /// The board is sound: its storage is complete and its contents are well formed.
    pub open spec fn wf(&self) -> bool {
        self.sized() && self@.wf()
    }

    /// A board without pieces or marks, with every castling right intact.
    pub fn empty() -> (board: Board)
        ensures
            board.wf(),
            board@.pieces == Map::<Square, Piece>::empty(),
            board@.capturable == Map::<Square, Color>::empty(),
            board@.vulnerable == Map::<Square, Color>::empty(),
            board@.threatened == Set::<Square>::empty(),
            board@.rights == CastlingRights::all(),
    {
        let mut squares: Vec<Option<Piece>> = Vec::new();
        let mut capturable: Vec<Option<Color>> = Vec::new();
        let mut vulnerable: Vec<Option<Color>> = Vec::new();
        let mut threatened: Vec<bool> = Vec::new();
        let mut i: usize = 0;
        while i < 64
            invariant
                i <= 64,
                squares@.len() == i,
                capturable@.len() == i,
                vulnerable@.len() == i,
                threatened@.len() == i,
                forall|j: int| 0 <= j < i ==> squares@[j] is None,
                forall|j: int| 0 <= j < i ==> capturable@[j] is None,
                forall|j: int| 0 <= j < i ==> vulnerable@[j] is None,
                forall|j: int| 0 <= j < i ==> !threatened@[j],
            decreases 64 - i,
        {
            squares.push(None);
            capturable.push(None);
            vulnerable.push(None);
            threatened.push(false);
            i += 1;
        }
        let board = Board {
            squares,
            capturable,
            vulnerable,
            threatened,
            rights: CastlingRights {
                white_kingside: true,
                white_queenside: true,
                black_kingside: true,
                black_queenside: true,
            },
        };
        proof {
            assert forall|square: Square| !board@.pieces.contains_key(square) by {
                square.lemma_index();
            }
            assert forall|square: Square| !board@.capturable.contains_key(square) by {
                square.lemma_index();
            }
            assert forall|square: Square| !board@.vulnerable.contains_key(square) by {
                square.lemma_index();
            }
            assert forall|square: Square| !board@.threatened.contains(square) by {
                square.lemma_index();
            }
            assert(board@.pieces =~= Map::<Square, Piece>::empty());
            assert(board@.capturable =~= Map::<Square, Color>::empty());
            assert(board@.vulnerable =~= Map::<Square, Color>::empty());
            assert(board@.threatened =~= Set::<Square>::empty());
        }
        board
    }

    /// The piece of `color` that starts on the given file of its back rank.
    fn back_piece(color: Color, file: i32) -> (piece: Piece)
        ensures
            piece == back_piece(color, file as int),
    {
        if file == 0 || file == 7 {
            Piece::R(Rook { color, coord: Square::Unset })
        } else if file == 1 || file == 6 {
            Piece::N(Knight { color, coord: Square::Unset })
        } else if file == 2 || file == 5 {
            Piece::B(Bishop { color, coord: Square::Unset })
        } else if file == 3 {
            Piece::Q(Queen { color, coord: Square::Unset })
        } else {
            Piece::K(King { color, is_checked: false })
        }
    }

    /// A board in the standard starting position.
    pub fn new() -> (board: Board)
        ensures
            board.wf(),
            board@ == BoardView::initial(),
    {
        let mut board = Board::empty();
        let mut file: i32 = 0;
        while file < 8
            invariant
                0 <= file <= 8,
                board.wf(),
                board@.capturable == Map::<Square, Color>::empty(),
                board@.vulnerable == Map::<Square, Color>::empty(),
                board@.threatened == Set::<Square>::empty(),
                board@.rights == CastlingRights::all(),
                forall|square: Square| #[trigger]
                    board@.pieces.contains_key(square) <==> (square != Square::Unset
                        && square.file() < file && (square.rank() <= 1 || square.rank() >= 6)),
                forall|square: Square| #[trigger]
                    board@.pieces.contains_key(square) ==> board@.pieces[square] == initial_piece(
                        square,
                    ),
            decreases 8 - file,
        {
            let ghost before = board@.pieces;
            let first = Square::from_position((file, 0));
            let second = Square::from_position((file, 1));
            let seventh = Square::from_position((file, 6));
            let eighth = Square::from_position((file, 7));
            proof {
                Square::lemma_at(file as int, 0);
                Square::lemma_at(file as int, 1);
                Square::lemma_at(file as int, 6);
                Square::lemma_at(file as int, 7);
            }
            board.put_piece(first, Self::back_piece(Color::White, file));
            board.put_piece(second, Piece::P(Pawn { color: Color::White, coord: second }));
            board.put_piece(seventh, Piece::P(Pawn { color: Color::Black, coord: seventh }));
            board.put_piece(eighth, Self::back_piece(Color::Black, file));
            proof {
                assert forall|square: Square| #[trigger]
                    board@.pieces.contains_key(square) <==> (square != Square::Unset
                        && square.file() < file + 1 && (square.rank() <= 1 || square.rank()
                        >= 6)) by {
                    square.lemma_coordinates();
                }
            }
            file += 1;
        }
        proof {
            assert forall|square: Square| #[trigger]
                board@.pieces.contains_key(square) <==> BoardView::initial().pieces.contains_key(
                    square,
                ) by {
                square.lemma_coordinates();
            }
            assert(board@.pieces =~= BoardView::initial().pieces);
        }
        board
    }

    /// The castling rights that are left.
    pub fn castling_rights(&self) -> (rights: CastlingRights)
        ensures
            rights == self@.rights,
    {
        self.rights
    }

    /// The piece on `square`, if one stands there.
    pub fn get_piece(&self, square: Square) -> (piece: Option<&Piece>)
        requires
            self.wf(),
        ensures
            match piece {
                Some(p) => self@.pieces.contains_key(square) && *p == self@.pieces[square],
                None => !self@.pieces.contains_key(square),
            },
    {
        proof {
            square.lemma_index();
        }
        let index: usize = square.to_index();
        if index < 64 {
            self.squares[index].as_ref()
        } else {
            None
        }
    }

    /// `after` is `before` with the piece on `square` replaced by `piece` and
    /// nothing else changed.
    pub closed spec fn replaced(before: Board, square: Square, piece: Piece, after: Board) -> bool {
        &&& after.squares@ =~= before.squares@.update(square.index(), Some(piece))
        &&& after.capturable == before.capturable
        &&& after.vulnerable == before.vulnerable
        &&& after.threatened == before.threatened
        &&& after.rights == before.rights
    }

    /// What `replaced` means for the contents of the board.
    pub proof fn lemma_replaced(before: Board, square: Square, piece: Piece, after: Board)
        requires
            before.wf(),
            before@.pieces.contains_key(square),
            Board::replaced(before, square, piece, after),
        ensures
            after.sized(),
            after@ == (BoardView { pieces: before@.pieces.insert(square, piece), ..before@ }),
    {
        let goal = BoardView { pieces: before@.pieces.insert(square, piece), ..before@ };
        square.lemma_index();
        assert forall|s: Square| #[trigger]
            after@.pieces.contains_key(s) == goal.pieces.contains_key(s) && (
            after@.pieces.contains_key(s) ==> after@.pieces[s] == goal.pieces[s]) by {
            s.lemma_index();
        }
        assert(after@.pieces =~= goal.pieces);
        assert(after@.capturable =~= goal.capturable);
        assert(after@.vulnerable =~= goal.vulnerable);
        assert(after@.threatened =~= goal.threatened);
    }

    /// The piece on `square`, if one stands there, open to change. Whatever the
    /// caller makes of the piece is what the square holds afterwards and nothing
    /// else changes (`lemma_replaced` says what that means for the contents),
    /// so the caller answers for the board still being well formed.
    pub fn get_piece_mut(&mut self, square: Square) -> (piece: Option<&mut Piece>)
        requires
            old(self).wf(),
        ensures
            match piece {
                Some(p) => {
                    &&& old(self)@.pieces.contains_key(square)
                    &&& *p == old(self)@.pieces[square]
                    &&& Board::replaced(*old(self), square, *final(p), *final(self))
                },
                None => !old(self)@.pieces.contains_key(square) && *final(self) == *old(self),
            },
    {
        proof {
            square.lemma_index();
        }
        let index: usize = square.to_index();
        if index >= 64 || self.squares[index].is_none() {
            return None;
        }
        let slot = &mut self.squares[index];
        slot.as_mut()
    }

    /// Whether no piece stands on `square`. The off-board square is always empty.
    pub fn is_empty(&self, square: Square) -> (empty: bool)
        requires
            self.wf(),
        ensures
            empty == !self@.pieces.contains_key(square),
    {
        self.get_piece(square).is_none()
    }

    /// Sets `piece` down on `square`, remembering that square, in place of
    /// whatever stood there. Nothing happens for the off-board square.
    pub fn put_piece(&mut self, square: Square, piece: Piece)
        requires
            old(self).wf(),
        ensures
            final(self).wf(),
            square != Square::Unset ==> final(self)@ == (BoardView {
                pieces: old(self)@.pieces.insert(square, piece.placed(square)),
                ..old(self)@
            }),
            square == Square::Unset ==> final(self)@ == old(self)@,
    {
        proof {
            square.lemma_index();
        }
        let index: usize = square.to_index();
        if index < 64 {
            let mut placed = piece;
            placed.set_coord(square);
            self.squares[index] = Some(placed);
            proof {
                let goal = BoardView {
                    pieces: old(self)@.pieces.insert(square, piece.placed(square)),
                    ..old(self)@
                };
                assert forall|s: Square| #[trigger]
                    self@.pieces.contains_key(s) == goal.pieces.contains_key(s) && (
                    self@.pieces.contains_key(s) ==> self@.pieces[s] == goal.pieces[s]) by {
                    s.lemma_index();
                }
                assert(self@.pieces =~= goal.pieces);
                assert(self@.capturable =~= goal.capturable);
                assert(self@.vulnerable =~= goal.vulnerable);
                assert(self@.threatened =~= goal.threatened);
            }
        }
    }

    /// Takes the piece off `square` and hands it back, if one stands there.
    pub fn remove_piece(&mut self, square: Square) -> (piece: Option<Piece>)
        requires
            old(self).wf(),
        ensures
            final(self).wf(),
            final(self)@ == (BoardView {
                pieces: old(self)@.pieces.remove(square),
                ..old(self)@
            }),
            match piece {
                Some(p) => old(self)@.pieces.contains_key(square) && p == old(self)@.pieces[square],
                None => !old(self)@.pieces.contains_key(square),
            },
    {
        proof {
            square.lemma_index();
        }
        let index: usize = square.to_index();
        if index < 64 {
            let piece = self.squares[index];
            self.squares[index] = None;
            proof {
                let goal = BoardView {
                    pieces: old(self)@.pieces.remove(square),
                    ..old(self)@
                };
                assert forall|s: Square| #[trigger]
                    self@.pieces.contains_key(s) == goal.pieces.contains_key(s) && (
                    self@.pieces.contains_key(s) ==> self@.pieces[s] == goal.pieces[s]) by {
                    s.lemma_index();
                }
                assert(self@.pieces =~= goal.pieces);
                assert(self@.capturable =~= goal.capturable);
                assert(self@.vulnerable =~= goal.vulnerable);
                assert(self@.threatened =~= goal.threatened);
            }
            piece
        } else {
            proof {
                assert(old(self)@.pieces.remove(square) =~= old(self)@.pieces);
            }
            None
        }
    }

    /// Replaces the castling rights, for setting up a position.
    pub fn set_castling_rights(&mut self, rights: CastlingRights)
        requires
            old(self).wf(),
        ensures
            final(self).wf(),
            final(self)@ == (BoardView { rights, ..old(self)@ }),
    {
        self.rights = rights;
        proof {
            let goal = BoardView { rights, ..old(self)@ };
            assert(self@.pieces =~= goal.pieces);
            assert(self@.capturable =~= goal.capturable);
            assert(self@.vulnerable =~= goal.vulnerable);
            assert(self@.threatened =~= goal.threatened);
        }
    }

    /// Sets the piece on `from` down on `to`, replacing whatever stood there,
    /// and ends the castling rights that the move touches. Whether the move is a
    /// legal one is not asked. Fails, and changes nothing, when no piece stands
    /// on `from` or when `to` is off the board.
    pub fn move_piece(&mut self, from: Square, to: Square) -> (result: Result<(), &'static str>)
        requires
            old(self).wf(),
        ensures
            final(self).wf(),
            result is Ok <==> old(self)@.pieces.contains_key(from) && to != Square::Unset,
            result is Ok ==> final(self)@ == old(self)@.relocated(from, to),
            result is Err ==> final(self)@ == old(self)@,
            result matches Err(text) ==> text@ == (if old(self)@.pieces.contains_key(from) {
                off_board_text()
            } else {
                no_piece_text()
            }),
    {
        let piece = match self.get_piece(from) {
            Some(piece) => *piece,
            None => { return Err("no piece on the source square"); },
        };
        if to.is_none() {
            return Err("destination is off the board");
        }
        let ghost start = self@;
        self.remove_piece(from);
        self.put_piece(to, piece);
        self.rights =
        CastlingRights {
            white_kingside: self.rights.white_kingside && Self::keeps(from, to, Square::E1, Square::H1),
            white_queenside: self.rights.white_queenside && Self::keeps(
                from,
                to,
                Square::E1,
                Square::A1,
            ),
            black_kingside: self.rights.black_kingside && Self::keeps(from, to, Square::E8, Square::H8),
            black_queenside: self.rights.black_queenside && Self::keeps(
                from,
                to,
                Square::E8,
                Square::A8,
            ),
        };
        proof {
            let goal = start.relocated(from, to);
            assert(self@.pieces =~= goal.pieces);
            assert(self@.capturable =~= goal.capturable);
            assert(self@.vulnerable =~= goal.vulnerable);
            assert(self@.threatened =~= goal.threatened);
        }
        Ok(())
    }

    /// Whether a move from `from` to `to` touches neither `king` nor `rook`.
    fn keeps(from: Square, to: Square, king: Square, rook: Square) -> (kept: bool)
        ensures
            kept == (from != king && from != rook && to != king && to != rook),
    {
        from != king && from != rook && to != king && to != rook
    }

    /// Marks `square` as a capture of the current selection, made by `by_color`.
    /// Nothing happens for the off-board square.
    pub fn mark_capturable(&mut self, square: Square, by_color: Color)
        requires
            old(self).wf(),
        ensures
            final(self).wf(),
            square != Square::Unset ==> final(self)@ == (BoardView {
                capturable: old(self)@.capturable.insert(square, by_color),
                ..old(self)@
            }),
            square == Square::Unset ==> final(self)@ == old(self)@,
    {
        proof {
            square.lemma_index();
        }
        let index: usize = square.to_index();
        if index < 64 {
            self.capturable[index] = Some(by_color);
            proof {
                let goal = BoardView {
                    capturable: old(self)@.capturable.insert(square, by_color),
                    ..old(self)@
                };
                assert forall|s: Square| #[trigger]
                    self@.capturable.contains_key(s) == goal.capturable.contains_key(s) && (
                    self@.capturable.contains_key(s) ==> self@.capturable[s] == goal.capturable[s]) by {
                    s.lemma_index();
                }
                assert(self@.pieces =~= goal.pieces);
                assert(self@.capturable =~= goal.capturable);
                assert(self@.vulnerable =~= goal.vulnerable);
                assert(self@.threatened =~= goal.threatened);
            }
        }
    }

    /// The side that marked `square` as a capture, if it is so marked.
    pub fn capturable_mark(&self, square: Square) -> (mark: Option<Color>)
        requires
            self.wf(),
        ensures
            mark == (if self@.capturable.contains_key(square) {
                Some(self@.capturable[square])
            } else {
                None
            }),
    {
        proof {
            square.lemma_index();
        }
        let index: usize = square.to_index();
        if index < 64 {
            self.capturable[index]
        } else {
            None
        }
    }

    /// Marks `square` as another destination of the current selection, made by `by_color`.
    /// Nothing happens for the off-board square.
    pub fn mark_vulnerable(&mut self, square: Square, by_color: Color)
        requires
            old(self).wf(),
        ensures
            final(self).wf(),
            square != Square::Unset ==> final(self)@ == (BoardView {
                vulnerable: old(self)@.vulnerable.insert(square, by_color),
                ..old(self)@
            }),
            square == Square::Unset ==> final(self)@ == old(self)@,
    {
        proof {
            square.lemma_index();
        }
        let index: usize = square.to_index();
        if index < 64 {
            self.vulnerable[index] = Some(by_color);
            proof {
                let goal = BoardView {
                    vulnerable: old(self)@.vulnerable.insert(square, by_color),
                    ..old(self)@
                };
                assert forall|s: Square| #[trigger]
                    self@.vulnerable.contains_key(s) == goal.vulnerable.contains_key(s) && (
                    self@.vulnerable.contains_key(s) ==> self@.vulnerable[s] == goal.vulnerable[s]) by {
                    s.lemma_index();
                }
                assert(self@.pieces =~= goal.pieces);
                assert(self@.capturable =~= goal.capturable);
                assert(self@.vulnerable =~= goal.vulnerable);
                assert(self@.threatened =~= goal.threatened);
            }
        }
    }

    /// The side that marked `square` as another destination, if it is so marked.
    pub fn vulnerable_mark(&self, square: Square) -> (mark: Option<Color>)
        requires
            self.wf(),
        ensures
            mark == (if self@.vulnerable.contains_key(square) {
                Some(self@.vulnerable[square])
            } else {
                None
            }),
    {
        proof {
            square.lemma_index();
        }
        let index: usize = square.to_index();
        if index < 64 {
            self.vulnerable[index]
        } else {
            None
        }
    }

    /// Removes every selection mark.
    pub fn clear_marks(&mut self)
        requires
            old(self).wf(),
        ensures
            final(self).wf(),
            final(self)@ == old(self)@.unmarked(),
    {
        let mut i: usize = 0;
        while i < 64
            invariant
                i <= 64,
                self.sized(),
                self.squares == old(self).squares,
                self.threatened == old(self).threatened,
                self.rights == old(self).rights,
                forall|j: int| 0 <= j < i ==> self.capturable@[j] is None,
                forall|j: int| 0 <= j < i ==> self.vulnerable@[j] is None,
            decreases 64 - i,
        {
            self.capturable[i] = None;
            self.vulnerable[i] = None;
            i += 1;
        }
        proof {
            let goal = old(self)@.unmarked();
            assert forall|s: Square| !self@.capturable.contains_key(s) by {
                s.lemma_index();
            }
            assert forall|s: Square| !self@.vulnerable.contains_key(s) by {
                s.lemma_index();
            }
            assert(self@.pieces =~= goal.pieces);
            assert(self@.capturable =~= goal.capturable);
            assert(self@.vulnerable =~= goal.vulnerable);
            assert(self@.threatened =~= goal.threatened);
        }
    }

    /// Whether the piece on `square` was open to capture when the record of
    /// threatened pieces was last refreshed.
    pub fn is_threatened(&self, square: Square) -> (threatened: bool)
        requires
            self.wf(),
        ensures
            threatened == self@.threatened.contains(square),
    {
        proof {
            square.lemma_index();
        }
        let index: usize = square.to_index();
        if index < 64 {
            self.threatened[index]
        } else {
            false
        }
    }

    /// Whether the piece on `from` belongs to `by_color` and bears on `square`
    /// with a quiet move or a capture.
    pub fn is_attacked_from(&self, from: Square, square: Square, by_color: Color) -> (under: bool)
        requires
            self.wf(),
        ensures
            under == attacked_from(self@.pieces, from, square, by_color),
    {
        let piece = match self.get_piece(from) {
            Some(piece) => *piece,
            None => { return false; },
        };
        if piece.get_color() != by_color {
            return false;
        }
        let threats = piece.get_threats(self, from);
        let mut i: usize = 0;
        while i < threats.len()
            invariant
                i <= threats.len(),
                piece.color() == by_color,
                self@.pieces.contains_key(from),
                self@.pieces[from] == piece,
                forall|to: Square, status: MoveStatus| #[trigger]
                    threats@.contains((to, status)) <==> reaches(
                        self@.pieces,
                        piece,
                        from,
                        to,
                        status,
                    ),
                forall|j: int|
                    0 <= j < i ==> !(threats@[j].0 == square && threats@[j].1.attacking()),
            decreases threats.len() - i,
        {
            if threats[i].0 == square && threats[i].1.is_attacking() {
                proof {
                    let status = threats@[i as int].1;
                    assert(threats@.contains((square, status)));
                    lemma_reaches_status(self@.pieces, piece, from, square, status);
                }
                return true;
            }
            i += 1;
        }
        proof {
            let quiet = MoveStatus::movable(by_color);
            let capture = MoveStatus::capturable(by_color);
            if reaches(self@.pieces, piece, from, square, quiet) {
                assert(threats@.contains((square, quiet)));
                let j = choose|j: int| 0 <= j < threats@.len() && threats@[j] == (square, quiet);
                assert(threats@[j].1.attacking());
            }
            if reaches(self@.pieces, piece, from, square, capture) {
                assert(threats@.contains((square, capture)));
                let j = choose|j: int| 0 <= j < threats@.len() && threats@[j] == (square, capture);
                assert(threats@[j].1.attacking());
            }
        }
        false
    }

    /// Whether `square` is under attack by the side `by_color`. The board is
    /// only read.
    pub fn is_under_attack(&self, square: Square, by_color: Color) -> (under: bool)
        requires
            self.wf(),
        ensures
            under == attacked(self@.pieces, square, by_color),
    {
        let mut i: usize = 0;
        proof {
            assert forall|other: Square| other.index() >= 0 by {
                other.lemma_index();
            }
        }
        while i < 64
            invariant
                self.wf(),
                i <= 64,
                forall|from: Square|
                    from.index() < i ==> !#[trigger] attacked_from(
                        self@.pieces,
                        from,
                        square,
                        by_color,
                    ),
            decreases 64 - i,
        {
            let from = Square::from_index(i);
            proof {
                Square::lemma_of_index(i as int);
            }
            if self.is_attacked_from(from, square, by_color) {
                return true;
            }
            proof {
                assert forall|other: Square| other.index() < i + 1 implies !#[trigger] attacked_from(
                    self@.pieces,
                    other,
                    square,
                    by_color,
                ) by {
                    other.lemma_index();
                }
            }
            i += 1;
        }
        proof {
            assert forall|other: Square|
                !#[trigger] attacked_from(self@.pieces, other, square, by_color) by {
                other.lemma_index();
            }
        }
        false
    }

    /// The destinations offered to the piece on `from` if it belongs to
    /// `color`; none otherwise.
    pub fn get_valid_moves_from(&self, color: Color, from: Square) -> (moves: Vec<
        (Square, MoveStatus),
    >)
        requires
            self.wf(),
        ensures
            forall|to: Square, status: MoveStatus| #[trigger]
                moves@.contains((to, status)) <==> self@.offers_from(color, from, to, status),
            moves@.no_duplicates(),
    {
        match self.get_piece(from) {
            Some(piece) => {
                if piece.get_color() == color {
                    piece.get_valid_moves(self, from)
                } else {
                    Vec::new()
                }
            },
            None => Vec::new(),
        }
    }

    /// Every destination offered to any piece of `color`, gathered square by
    /// square. An entry stands in the list exactly if some piece of that side is
    /// offered it. The board is only read.
    pub fn get_valid_moves_all(&self, color: Color) -> (moves: Vec<(Square, MoveStatus)>)
        requires
            self.wf(),
        ensures
            forall|to: Square, status: MoveStatus| #[trigger]
                moves@.contains((to, status)) <==> self@.offers(color, to, status),
    {
        let mut moves: Vec<(Square, MoveStatus)> = Vec::new();
        let mut i: usize = 0;
        proof {
            assert forall|other: Square| other.index() >= 0 by {
                other.lemma_index();
            }
        }
        while i < 64
            invariant
                self.wf(),
                i <= 64,
                forall|to: Square, status: MoveStatus| #[trigger]
                    moves@.contains((to, status)) <==> exists|from: Square|
                        from.index() < i && #[trigger] self@.offers_from(color, from, to, status),
            decreases 64 - i,
        {
            let from = Square::from_index(i);
            proof {
                Square::lemma_of_index(i as int);
            }
            let ghost before = moves@;
            let more = self.get_valid_moves_from(color, from);
            offer_all(&mut moves, more);
            proof {
                assert forall|to: Square, status: MoveStatus| #[trigger]
                    moves@.contains((to, status)) <==> exists|other: Square|
                        other.index() < i + 1 && #[trigger] self@.offers_from(
                            color,
                            other,
                            to,
                            status,
                        ) by {
                    if exists|other: Square|
                        other.index() < i + 1 && #[trigger] self@.offers_from(
                            color,
                            other,
                            to,
                            status,
                        ) {
                        let other = choose|other: Square|
                            other.index() < i + 1 && #[trigger] self@.offers_from(
                                color,
                                other,
                                to,
                                status,
                            );
                        other.lemma_index();
                        if other.index() < i {
                            assert(before.contains((to, status)));
                        } else {
                            assert(other == from);
                        }
                    }
                    if before.contains((to, status)) {
                        let other = choose|other: Square|
                            other.index() < i && #[trigger] self@.offers_from(
                                color,
                                other,
                                to,
                                status,
                            );
                        assert(other.index() < i + 1);
                    }
                    if more@.contains((to, status)) {
                        assert(from.index() < i + 1 && self@.offers_from(color, from, to, status));
                    }
                }
            }
            i += 1;
        }
        proof {
            assert forall|to: Square, status: MoveStatus| #[trigger]
                moves@.contains((to, status)) <==> self@.offers(color, to, status) by {
                if self@.offers(color, to, status) {
                    let from = choose|from: Square| #[trigger]
                        self@.offers_from(color, from, to, status);
                    from.lemma_index();
                }
            }
        }
        moves
    }

    /// Whether `color` has a move that can be played. The board is only read.
    pub fn can_move(&self, color: Color) -> (able: bool)
        requires
            self.wf(),
        ensures
            able == self@.can_move(color),
    {
        let mut i: usize = 0;
        proof {
            assert forall|other: Square| other.index() >= 0 by {
                other.lemma_index();
            }
        }
        while i < 64
            invariant
                self.wf(),
                i <= 64,
                forall|from: Square, to: Square, status: MoveStatus|
                    from.index() < i && #[trigger] self@.offers_from(color, from, to, status)
                        ==> !status.playable(),
            decreases 64 - i,
        {
            let from = Square::from_index(i);
            proof {
                Square::lemma_of_index(i as int);
            }
            let moves = self.get_valid_moves_from(color, from);
            let mut j: usize = 0;
            while j < moves.len()
                invariant
                    j <= moves.len(),
                    forall|to: Square, status: MoveStatus| #[trigger]
                        moves@.contains((to, status)) <==> self@.offers_from(
                            color,
                            from,
                            to,
                            status,
                        ),
                    forall|k: int| 0 <= k < j ==> !moves@[k].1.playable(),
                decreases moves.len() - j,
            {
                if moves[j].1.is_playable() {
                    proof {
                        let entry = moves@[j as int];
                        assert(moves@.contains((entry.0, entry.1)));
                        assert(self@.offers_from(color, from, entry.0, entry.1));
                    }
                    return true;
                }
                j += 1;
            }
            proof {
                assert forall|other: Square, to: Square, status: MoveStatus|
                    other.index() < i + 1 && #[trigger] self@.offers_from(
                        color,
                        other,
                        to,
                        status,
                    ) implies !status.playable() by {
                    other.lemma_index();
                    if other.index() == i {
                        assert(other == from);
                        assert(moves@.contains((to, status)));
                        let k = choose|k: int| 0 <= k < moves@.len() && moves@[k] == (to, status);
                    }
                }
            }
            i += 1;
        }
        proof {
            assert forall|other: Square, to: Square, status: MoveStatus| #[trigger]
                self@.offers_from(color, other, to, status) implies !status.playable() by {
                other.lemma_index();
            }
        }
        false
    }

    /// Whether a king of `color` stands on a square that the other side
    /// attacks. The answer is worked out from the board, which is only read.
    pub fn king_in_check(&self, color: Color) -> (checked: bool)
        requires
            self.wf(),
        ensures
            checked == in_check(self@.pieces, color),
    {
        let enemy = color.opposite();
        let mut i: usize = 0;
        proof {
            assert forall|other: Square| other.index() >= 0 by {
                other.lemma_index();
            }
        }
        while i < 64
            invariant
                self.wf(),
                i <= 64,
                enemy == color.other(),
                forall|square: Square|
                    square.index() < i && #[trigger] self@.pieces.contains_key(square)
                        && self@.pieces[square] is K && self@.pieces[square].color() == color
                        ==> !attacked(self@.pieces, square, enemy),
            decreases 64 - i,
        {
            let square = Square::from_index(i);
            proof {
                Square::lemma_of_index(i as int);
            }
            let found = match self.get_piece(square) {
                Some(piece) => match piece {
                    Piece::K(king) => king.color == color && self.is_under_attack(square, enemy),
                    _ => false,
                },
                None => false,
            };
            if found {
                return true;
            }
            proof {
                assert forall|other: Square|
                    other.index() < i + 1 && #[trigger] self@.pieces.contains_key(other)
                        && self@.pieces[other] is K && self@.pieces[other].color()
                        == color implies !attacked(self@.pieces, other, enemy) by {
                    other.lemma_index();
                }
            }
            i += 1;
        }
        proof {
            assert forall|other: Square| #[trigger]
                self@.pieces.contains_key(other) implies other.index() < 64 by {
                other.lemma_index();
            }
        }
        false
    }

    /// Brings the record of threatened pieces up to date, as `refreshed` says.
    pub fn update_capture_board(&mut self)
        requires
            old(self).wf(),
        ensures
            final(self).wf(),
            final(self)@ == old(self)@.refreshed(),
    {
        let ghost start = self@;
        let mut exposed: Vec<bool> = Vec::new();
        let mut i: usize = 0;
        while i < 64
            invariant
                i <= 64,
                self.wf(),
                *self == *old(self),
                start == self@,
                exposed@.len() == i,
                forall|j: int| 0 <= j < i ==> exposed@[j] == start.exposed(Square::of_index(j)),
            decreases 64 - i,
        {
            let square = Square::from_index(i);
            let open = match self.get_piece(square) {
                Some(piece) => {
                    let enemy = piece.get_color().opposite();
                    self.is_under_attack(square, enemy)
                },
                None => false,
            };
            exposed.push(open);
            i += 1;
        }
        i = 0;
        while i < 64
            invariant
                i <= 64,
                self.sized(),
                old(self).sized(),
                exposed@.len() == 64,
                forall|j: int| 0 <= j < 64 ==> exposed@[j] == start.exposed(Square::of_index(j)),
                self.capturable == old(self).capturable,
                self.vulnerable == old(self).vulnerable,
                self.rights == old(self).rights,
                forall|j: int| i <= j < 64 ==> self.squares@[j] == old(self).squares@[j],
                forall|j: int|
                    0 <= j < i ==> self.squares@[j] == (match old(self).squares@[j] {
                        Some(Piece::K(king)) => Some(
                            Piece::K(King { is_checked: exposed@[j], ..king }),
                        ),
                        other => other,
                    }),
                forall|j: int| 0 <= j < i ==> self.threatened@[j] == exposed@[j],
            decreases 64 - i,
        {
            let open = exposed[i];
            self.threatened[i] = open;
            match self.squares[i] {
                Some(Piece::K(king)) => {
                    self.squares[i] = Some(Piece::K(King { color: king.color, is_checked: open }));
                },
                _ => {},
            }
            i += 1;
        }
        proof {
            let goal = start.refreshed();
            assert forall|s: Square| #[trigger]
                self@.pieces.contains_key(s) == goal.pieces.contains_key(s) && (
                self@.pieces.contains_key(s) ==> self@.pieces[s] == goal.pieces[s]) by {
                s.lemma_index();
            }
            assert forall|s: Square| self@.threatened.contains(s) == goal.threatened.contains(
                s,
            ) by {
                s.lemma_index();
                if s != Square::Unset {
                    assert(self.threatened@[s.index()] == exposed@[s.index()]);
                    assert(exposed@[s.index()] == start.exposed(Square::of_index(s.index())));
                }
            }
            assert(self@.pieces =~= goal.pieces);
            assert(self@.capturable =~= goal.capturable);
            assert(self@.vulnerable =~= goal.vulnerable);
            assert(self@.threatened =~= goal.threatened);
        }
    }
}

} // verus!
