use vstd::prelude::*;
use vstd::string::StringExecFns;
use crate::board::{Board, BoardView};
use crate::moves::attack::in_check;
use crate::moves::is_offered;
use crate::pieces::bishop::Bishop;
use crate::pieces::king::back_square;
use crate::pieces::knight::Knight;
use crate::pieces::pawn::Pawn;
use crate::pieces::queen::Queen;
use crate::pieces::rook::Rook;
use crate::pieces::{destination, lemma_destination_status, Color, MoveStatus, Piece};
use crate::square::Square;

verus! {

/// Where a match stands. Every state but `Stalemate` names the side concerned:
/// the side to move, the side mated, or the side that has to choose a piece
/// for a pawn that has reached the last rank.
#[derive(Clone, Copy, Debug, PartialEq, Eq, Structural)]
pub enum GameState {
    Playing { by_color: Color },
    InCheck { by_color: Color },
    Checkmate { by_color: Color },
    Promoting { by_color: Color },
    Stalemate,
}

impl GameState {
    /// The side that the state names; White for `Stalemate`, which names none.
    pub open spec fn color(self) -> Color {
        match self {
            GameState::Playing { by_color } => by_color,
            GameState::InCheck { by_color } => by_color,
            GameState::Checkmate { by_color } => by_color,
            GameState::Promoting { by_color } => by_color,
            GameState::Stalemate => Color::White,
        }
    }

    /// Whether `color` may move a piece in this state: it is that side's turn,
    /// in check or not.
    pub open spec fn to_move(self, color: Color) -> bool {
        self == (GameState::Playing { by_color: color }) || self == (GameState::InCheck {
            by_color: color,
        })
    }

    /// The side that the state names; White for `Stalemate`.
    pub fn get_by_color(&self) -> (color: Color)
        ensures
            color == self.color(),
    {
        match self {
            GameState::Playing { by_color } => *by_color,
            GameState::InCheck { by_color } => *by_color,
            GameState::Checkmate { by_color } => *by_color,
            GameState::Promoting { by_color } => *by_color,
            GameState::Stalemate => Color::White,
        }
    }
}

/// The piece that a pawn becomes on the last rank.
#[derive(Clone, Copy, Debug, PartialEq, Eq, Structural)]
pub enum Promotion {
    Queen,
    Rook,
    Bishop,
    Knight,
}

impl Promotion {
    /// The piece of this kind that takes the place of `pawn`: same side, same square.
    pub open spec fn of(self, pawn: Pawn) -> Piece {
        match self {
            Promotion::Queen => Piece::Q(Queen { color: pawn.color, coord: pawn.coord }),
            Promotion::Rook => Piece::R(Rook { color: pawn.color, coord: pawn.coord }),
            Promotion::Bishop => Piece::B(Bishop { color: pawn.color, coord: pawn.coord }),
            Promotion::Knight => Piece::N(Knight { color: pawn.color, coord: pawn.coord }),
        }
    }

    /// The piece of this kind that takes the place of `pawn`.
    pub fn apply(&self, pawn: Pawn) -> (piece: Piece)
        ensures
            piece == self.of(pawn),
    {
        match self {
            Promotion::Queen => Piece::Q(pawn.try_into_queen().unwrap()),
            Promotion::Rook => Piece::R(pawn.try_into_rook().unwrap()),
            Promotion::Bishop => Piece::B(pawn.try_into_bishop().unwrap()),
            Promotion::Knight => Piece::N(pawn.try_into_knight().unwrap()),
        }
    }
}

/// The state in which `color` finds itself when it is its turn on `board`:
/// without a playable move it is mated if its king is attacked and the match is
/// a stalemate if not; otherwise it is in check or plainly to move.
pub open spec fn outcome(board: BoardView, color: Color) -> GameState {
    if !board.can_move(color) {
        if in_check(board.pieces, color) {
            GameState::Checkmate { by_color: color }
        } else {
            GameState::Stalemate
        }
    } else if in_check(board.pieces, color) {
        GameState::InCheck { by_color: color }
    } else {
        GameState::Playing { by_color: color }
    }
}

/// The reason given when a move is asked for while no piece is selected.
pub open spec fn no_selection_text() -> Seq<char> {
    "no piece selected"@
}

/// The reason given when a move from `from` to `to` is refused.
pub open spec fn illegal_move_text(from: Square, to: Square) -> Seq<char> {
    "cannot move piece from "@ + from.name_of() + " to "@ + to.name_of()
}

/// The reason given when a promotion is asked for and no pawn awaits one.
pub open spec fn no_promotion_text() -> Seq<char> {
    "no pawn to promote"@
}

/// Whether `piece`, standing on `from`, is offered `to` as castling.
pub open spec fn castles(board: BoardView, piece: Piece, from: Square, to: Square) -> bool {
    destination(board.pieces, board.rights, piece, from, to, MoveStatus::castling(piece.color()))
}

/// Whether `piece`, standing on `from`, is offered `to` as a move that can be
/// played: a quiet move, a capture or castling.
pub open spec fn playable_to(board: BoardView, piece: Piece, from: Square, to: Square) -> bool {
    ||| destination(
        board.pieces,
        board.rights,
        piece,
        from,
        to,
        MoveStatus::movable(piece.color()),
    )
    ||| destination(
        board.pieces,
        board.rights,
        piece,
        from,
        to,
        MoveStatus::capturable(piece.color()),
    )
    ||| castles(board, piece, from, to)
}

/// The pieces after `piece` has been played from `from` to `to`, before the
/// record of threatened pieces is refreshed.
///
/// Castling named by the G square takes the rook from the H file to the F file
/// and the king to the G file. Castling named by the C or the B square takes
/// the rook from the A file to the D file and the king to the C file. Any
/// other move sets the piece down on `to`.
pub open spec fn carried_out(board: BoardView, piece: Piece, from: Square, to: Square) -> BoardView {
    let color = piece.color();
    if castles(board, piece, from, to) {
        if to == back_square(color, 6) {
            board.relocated(back_square(color, 7), back_square(color, 5)).relocated(from, to)
        } else {
            board.relocated(back_square(color, 0), back_square(color, 3)).relocated(
                from,
                back_square(color, 2),
            )
        }
    } else {
        board.relocated(from, to)
    }
}

/// Whether playing `piece` to `to` brings a pawn to its last rank.
pub open spec fn promotes(piece: Piece, to: Square) -> bool {
    piece is P && to.rank() == piece.color().last_rank()
}

/// The squares marked as captures when the piece on `coord` is selected: the
/// squares offered to it as captures, marked in its colour.
pub open spec fn capture_marks(board: BoardView, coord: Square) -> Map<Square, Color> {
    let piece = board.pieces[coord];
    Map::new(
        |square: Square|
            board.pieces.contains_key(coord) && destination(
                board.pieces,
                board.rights,
                piece,
                coord,
                square,
                MoveStatus::capturable(piece.color()),
            ),
        |square: Square| piece.color(),
    )
}

/// The squares marked as other destinations when the piece on `coord` is
/// selected: the squares offered to it in any way but as a capture, marked in
/// its colour.
pub open spec fn other_marks(board: BoardView, coord: Square) -> Map<Square, Color> {
    let piece = board.pieces[coord];
    Map::new(
        |square: Square|
            board.pieces.contains_key(coord) && exists|status: MoveStatus|
                !(status is Capturable) && #[trigger] destination(
                    board.pieces,
                    board.rights,
                    piece,
                    coord,
                    square,
                    status,
                ),
        |square: Square| piece.color(),
    )
}

/// What a match holds, as plain mathematics.
pub struct GameView {
    /// The board.
    pub board: BoardView,
    /// The state of the match.
    pub state: GameState,
    /// The piece picked by the last selection, if any.
    pub selected: Option<Piece>,
    /// The square of the pawn that awaits promotion; `Unset` when none does.
    pub promoting: Square,
}

impl GameView {
    /// Whether a move from `from` to `to` is accepted: a piece is selected, it
    /// is that piece's side's turn, the piece stands on `from`, and it is
    /// offered `to` as a move that can be played.
    pub open spec fn accepts(self, from: Square, to: Square) -> bool {
        &&& self.selected matches Some(piece)
        &&& self.state.to_move(piece.color())
        &&& self.board.pieces.contains_key(from)
        &&& self.board.pieces[from] == piece
        &&& playable_to(self.board, piece, from, to)
    }

    /// The match after the selection has been dropped: no marks, no selected
    /// piece, everything else as before.
    pub open spec fn deselected(self) -> GameView {
        GameView { board: self.board.unmarked(), selected: None, ..self }
    }

    /// The match after the selected piece has been played from `from` to `to`.
    /// The pieces are moved as `carried_out` says, the record of threatened
    /// pieces is refreshed, and marks and selection are dropped. A pawn that
    /// has reached its last rank makes its side choose a piece; otherwise the
    /// turn passes to the other side, in the state that `outcome` gives.
    pub open spec fn after_move(self, from: Square, to: Square) -> GameView {
        let piece = self.selected->0;
        let board = carried_out(self.board, piece, from, to).refreshed().unmarked();
        if promotes(piece, to) {
            GameView {
                board,
                state: GameState::Promoting { by_color: piece.color() },
                selected: None,
                promoting: to,
            }
        } else {
            GameView {
                board,
                state: outcome(board, piece.color().other()),
                selected: None,
                promoting: Square::Unset,
            }
        }
    }

    /// The match after the piece on `coord` has been selected: the marks are
    /// those of that piece, and those of nothing if the square is empty.
    pub open spec fn after_select(self, coord: Square) -> GameView {
        GameView {
            board: BoardView {
                capturable: capture_marks(self.board, coord),
                vulnerable: other_marks(self.board, coord),
                ..self.board
            },
            selected: if self.board.pieces.contains_key(coord) {
                Some(self.board.pieces[coord])
            } else {
                None
            },
            ..self
        }
    }

    /// Whether a promotion can be carried out: the state asks for one and the
    /// pawn of that side stands on the square noted.
    pub open spec fn awaits_promotion(self) -> bool {
        &&& self.state is Promoting
        &&& self.board.pieces.contains_key(self.promoting)
        &&& self.board.pieces[self.promoting] is P
        &&& self.board.pieces[self.promoting].color() == self.state.color()
    }

    /// The match after the waiting pawn has become a piece of kind `choice`:
    /// the turn passes to the other side, in the state that `outcome` gives.
    pub open spec fn after_promotion(self, choice: Promotion) -> GameView {
        let pawn = self.board.pieces[self.promoting]->P_0;
        let board = (BoardView {
            pieces: self.board.pieces.insert(self.promoting, choice.of(pawn).placed(self.promoting)),
            ..self.board
        }).refreshed();
        GameView {
            board,
            state: outcome(board, self.state.color().other()),
            selected: self.selected,
            promoting: Square::Unset,
        }
    }
}

/// One match: the board, whose turn it is, and the piece picked for the next move.
pub struct GameManager {
    board: Board,
    pub state: GameState,
    piece_selected: Option<Piece>,
    promotion_square: Square,
}

impl View for GameManager {
    type V = GameView;

    open spec fn view(&self) -> GameView {
        GameView {
            board: self.board_of()@,
            state: self.state_of(),
            selected: self.selected_of(),
            promoting: self.promoting_of(),
        }
    }
}

impl GameManager {
    /// The board of the match.
    pub closed spec fn board_of(&self) -> Board {
        self.board
    }

    /// The state of the match.
    pub closed spec fn state_of(&self) -> GameState {
        self.state
    }

    /// The piece picked by the last selection, if any.
    pub closed spec fn selected_of(&self) -> Option<Piece> {
        self.piece_selected
    }

    /// The square of the pawn that awaits promotion.
    pub closed spec fn promoting_of(&self) -> Square {
        self.promotion_square
    }

    /// The match is sound: its board is.
    pub open spec fn wf(&self) -> bool {
        self.board_of().wf()
    }

    /// A match at the standard starting position, White to move.
    pub fn new() -> (game: GameManager)
        ensures
            game.wf(),
            game@.board == BoardView::initial(),
            game@.state == (GameState::Playing { by_color: Color::White }),
            game@.selected is None,
            game@.promoting == Square::Unset,
    {
        GameManager {
            board: Board::new(),
            state: GameState::Playing { by_color: Color::White },
            piece_selected: None,
            promotion_square: Square::Unset,
        }
    }

    /// The side that the state names.
    pub fn get_turn(&self) -> (color: Color)
        ensures
            color == self@.state.color(),
    {
        self.state.get_by_color()
    }

    /// The state of the match.
    pub fn get_state(&self) -> (state: &GameState)
        ensures
            *state == self@.state,
    {
        &self.state
    }

    /// The board, to read.
    pub fn get_board(&self) -> (board: &Board)
        ensures
            *board == self.board_of(),
    {
        &self.board
    }

    /// The board, to change. The state and the selection stay as they are; what
    /// the caller makes of the board is the board of the match afterwards.
    pub fn get_board_mut(&mut self) -> (board: &mut Board)
        ensures
            *board == old(self).board_of(),
            final(self).board_of() == *final(board),
            final(self).state_of() == old(self).state_of(),
            final(self).selected_of() == old(self).selected_of(),
            final(self).promoting_of() == old(self).promoting_of(),
    {
        &mut self.board
    }

    /// Selects the piece on `coord` and marks what it is offered: captures as
    /// such, everything else as other destinations, in place of the marks that
    /// were there. With an empty square nothing is selected and nothing marked.
    /// Pieces, rights and state stay as they are, and so the same call made
    /// again leaves the same match.
    pub fn select_piece(&mut self, coord: Square) -> (piece: Option<&Piece>)
        requires
            old(self).wf(),
        ensures
            final(self).wf(),
            final(self)@ == old(self)@.after_select(coord),
            match piece {
                Some(p) => final(self)@.selected == Some(*p),
                None => final(self)@.selected is None,
            },
    {
        let ghost start = self@.board;
        let ghost goal = self@.after_select(coord);
        self.board.clear_marks();
        let piece = match self.board.get_piece(coord) {
            Some(piece) => *piece,
            None => {
                self.piece_selected = None;
                proof {
                    assert(self@.board.capturable =~= goal.board.capturable);
                    assert(self@.board.vulnerable =~= goal.board.vulnerable);
                }
                return None;
            },
        };
        self.piece_selected = Some(piece);
        let color = piece.get_color();
        let moves = piece.get_valid_moves(&self.board, coord);
        let mut i: usize = 0;
        while i < moves.len()
            invariant
                i <= moves.len(),
                self.board.wf(),
                self.board@.pieces == start.pieces,
                self.board@.rights == start.rights,
                self.board@.threatened == start.threatened,
                self.piece_selected == Some(piece),
                self.state == old(self).state,
                self.promotion_square == old(self).promotion_square,
                color == piece.color(),
                forall|to: Square, status: MoveStatus| #[trigger]
                    moves@.contains((to, status)) <==> destination(
                        start.pieces,
                        start.rights,
                        piece,
                        coord,
                        to,
                        status,
                    ),
                forall|square: Square| #[trigger]
                    self.board@.capturable.contains_key(square) <==> exists|j: int|
                        0 <= j < i && (#[trigger] moves@[j]).0 == square
                            && moves@[j].1 is Capturable,
                forall|square: Square| #[trigger]
                    self.board@.vulnerable.contains_key(square) <==> exists|j: int|
                        0 <= j < i && (#[trigger] moves@[j]).0 == square && !(
                        moves@[j].1 is Capturable),
                forall|square: Square| #[trigger]
                    self.board@.capturable.contains_key(square) ==> self.board@.capturable[square]
                        == color,
                forall|square: Square| #[trigger]
                    self.board@.vulnerable.contains_key(square) ==> self.board@.vulnerable[square]
                        == color,
            decreases moves.len() - i,
        {
            let to = moves[i].0;
            let status = moves[i].1;
            let ghost before = self.board@;
            proof {
                assert(moves@.contains((to, status)));
                lemma_destination_status(start.pieces, start.rights, piece, coord, to, status);
            }
            match status {
                MoveStatus::Capturable { .. } => {
                    self.board.mark_capturable(to, color);
                },
                _ => {
                    self.board.mark_vulnerable(to, color);
                },
            }
            proof {
                assert forall|square: Square| #[trigger]
                    self.board@.capturable.contains_key(square) <==> exists|j: int|
                        0 <= j < i + 1 && (#[trigger] moves@[j]).0 == square
                            && moves@[j].1 is Capturable by {
                    if exists|j: int|
                        0 <= j < i + 1 && (#[trigger] moves@[j]).0 == square
                            && moves@[j].1 is Capturable {
                        let j = choose|j: int|
                            0 <= j < i + 1 && (#[trigger] moves@[j]).0 == square
                                && moves@[j].1 is Capturable;
                        if j < i {
                            assert(before.capturable.contains_key(square));
                        }
                    }
                    if before.capturable.contains_key(square) {
                        let j = choose|j: int|
                            0 <= j < i && (#[trigger] moves@[j]).0 == square
                                && moves@[j].1 is Capturable;
                        assert(0 <= j < i + 1);
                    }
                    if square == to && status is Capturable {
                        assert(moves@[i as int].0 == square);
                    }
                }
                assert forall|square: Square| #[trigger]
                    self.board@.vulnerable.contains_key(square) <==> exists|j: int|
                        0 <= j < i + 1 && (#[trigger] moves@[j]).0 == square && !(
                        moves@[j].1 is Capturable) by {
                    if exists|j: int|
                        0 <= j < i + 1 && (#[trigger] moves@[j]).0 == square && !(
                        moves@[j].1 is Capturable) {
                        let j = choose|j: int|
                            0 <= j < i + 1 && (#[trigger] moves@[j]).0 == square && !(
                            moves@[j].1 is Capturable);
                        if j < i {
                            assert(before.vulnerable.contains_key(square));
                        }
                    }
                    if before.vulnerable.contains_key(square) {
                        let j = choose|j: int|
                            0 <= j < i && (#[trigger] moves@[j]).0 == square && !(
                            moves@[j].1 is Capturable);
                        assert(0 <= j < i + 1);
                    }
                    if square == to && !(status is Capturable) {
                        assert(moves@[i as int].0 == square);
                    }
                }
            }
            i += 1;
        }
        proof {
            assert forall|square: Square| #[trigger]
                self.board@.capturable.contains_key(square)
                    == goal.board.capturable.contains_key(square) by {
                let capture = MoveStatus::capturable(color);
                if self.board@.capturable.contains_key(square) {
                    let j = choose|j: int|
                        0 <= j < i && (#[trigger] moves@[j]).0 == square
                            && moves@[j].1 is Capturable;
                    let status = moves@[j].1;
                    assert(moves@.contains((square, status)));
                    lemma_destination_status(
                        start.pieces,
                        start.rights,
                        piece,
                        coord,
                        square,
                        status,
                    );
                    assert(status == capture);
                }
                if goal.board.capturable.contains_key(square) {
                    assert(moves@.contains((square, capture)));
                    let j = choose|j: int| 0 <= j < moves@.len() && moves@[j] == (square, capture);
                    assert(moves@[j].0 == square && moves@[j].1 is Capturable);
                }
            }
            assert forall|square: Square| #[trigger]
                self.board@.vulnerable.contains_key(square)
                    == goal.board.vulnerable.contains_key(square) by {
                if self.board@.vulnerable.contains_key(square) {
                    let j = choose|j: int|
                        0 <= j < i && (#[trigger] moves@[j]).0 == square && !(
                        moves@[j].1 is Capturable);
                    let status = moves@[j].1;
                    assert(moves@.contains((square, status)));
                    assert(destination(start.pieces, start.rights, piece, coord, square, status));
                }
                if goal.board.vulnerable.contains_key(square) {
                    let status = choose|status: MoveStatus|
                        !(status is Capturable) && #[trigger] destination(
                            start.pieces,
                            start.rights,
                            piece,
                            coord,
                            square,
                            status,
                        );
                    assert(moves@.contains((square, status)));
                    let j = choose|j: int| 0 <= j < moves@.len() && moves@[j] == (square, status);
                    assert(moves@[j].0 == square && !(moves@[j].1 is Capturable));
                }
            }
            assert(self.board@.capturable =~= goal.board.capturable);
            assert(self.board@.vulnerable =~= goal.board.vulnerable);
        }
        self.piece_selected.as_ref()
    }

    /// The state in which `color` finds itself when it is its turn on `board`.
    fn outcome_of(board: &Board, color: Color) -> (state: GameState)
        requires
            board.wf(),
        ensures
            state == outcome(board@, color),
    {
        let checked = board.king_in_check(color);
        if !board.can_move(color) {
            if checked {
                GameState::Checkmate { by_color: color }
            } else {
                GameState::Stalemate
            }
        } else if checked {
            GameState::InCheck { by_color: color }
        } else {
            GameState::Playing { by_color: color }
        }
    }

    /// The reason for refusing a move from `from` to `to`.
    fn refusal(from: Square, to: Square) -> (text: String)
        ensures
            text@ == illegal_move_text(from, to),
    {
        let mut text = String::from_str("cannot move piece from ");
        text.append(from.name());
        text.append(" to ");
        text.append(to.name());
        text
    }

    /// Plays the selected piece from `coord_from` to `coord_to`.
    ///
    /// - Without a selected piece the call fails and says so.
    /// - With `coord_from == coord_to` the selection is dropped, marks
    ///   included, and nothing else changes.
    /// - Otherwise the move is made if `accepts` allows it, as `after_move`
    ///   says; if not, the call fails with a text that names both squares and
    ///   the match stays exactly as it was.
    pub fn move_piece(&mut self, coord_from: Square, coord_to: Square) -> (result: Result<
        (),
        String,
    >)
        requires
            old(self).wf(),
        ensures
            final(self).wf(),
            match result {
                Ok(_) => {
                    &&& old(self)@.selected is Some
                    &&& coord_from == coord_to ==> final(self)@ == old(self)@.deselected()
                    &&& coord_from != coord_to ==> old(self)@.accepts(coord_from, coord_to)
                        && final(self)@ == old(self)@.after_move(coord_from, coord_to)
                },
                Err(text) => {
                    &&& final(self)@ == old(self)@
                    &&& old(self)@.selected is None ==> text@ == no_selection_text()
                    &&& old(self)@.selected is Some ==> {
                        &&& coord_from != coord_to
                        &&& !old(self)@.accepts(coord_from, coord_to)
                        &&& text@ == illegal_move_text(coord_from, coord_to)
                    }
                },
            },
    {
        let ghost start = self@;
        let piece = match self.piece_selected {
            Some(piece) => piece,
            None => { return Err(String::from_str("no piece selected")); },
        };
        if coord_from == coord_to {
            self.board.clear_marks();
            self.piece_selected = None;
            return Ok(());
        }
        let color = piece.get_color();
        let in_turn = match self.state {
            GameState::Playing { by_color } => by_color == color,
            GameState::InCheck { by_color } => by_color == color,
            _ => false,
        };
        let in_place = match self.board.get_piece(coord_from) {
            Some(found) => *found == piece,
            None => false,
        };
        if !in_turn || !in_place {
            return Err(Self::refusal(coord_from, coord_to));
        }
        let moves = piece.get_valid_moves(&self.board, coord_from);
        let castle = is_offered(
            &moves,
            coord_to,
            MoveStatus::Castling { by_color: color, activated: false },
        );
        let plain = is_offered(
            &moves,
            coord_to,
            MoveStatus::Movable { by_color: color, activated: false },
        ) || is_offered(
            &moves,
            coord_to,
            MoveStatus::Capturable { by_color: color, activated: false },
        );
        if !castle && !plain {
            return Err(Self::refusal(coord_from, coord_to));
        }
        let rank: i32 = match color {
            Color::White => 0,
            Color::Black => 7,
        };
        proof {
            if castle {
                lemma_destination_status(
                    start.board.pieces,
                    start.board.rights,
                    piece,
                    coord_from,
                    coord_to,
                    MoveStatus::castling(color),
                );
            } else if start.board.pieces.contains_key(coord_from) && plain {
                if destination(
                    start.board.pieces,
                    start.board.rights,
                    piece,
                    coord_from,
                    coord_to,
                    MoveStatus::movable(color),
                ) {
                    lemma_destination_status(
                        start.board.pieces,
                        start.board.rights,
                        piece,
                        coord_from,
                        coord_to,
                        MoveStatus::movable(color),
                    );
                } else {
                    lemma_destination_status(
                        start.board.pieces,
                        start.board.rights,
                        piece,
                        coord_from,
                        coord_to,
                        MoveStatus::capturable(color),
                    );
                }
            }
            Square::lemma_at(0, rank as int);
            Square::lemma_at(1, rank as int);
            Square::lemma_at(2, rank as int);
            Square::lemma_at(3, rank as int);
            Square::lemma_at(4, rank as int);
            Square::lemma_at(5, rank as int);
            Square::lemma_at(6, rank as int);
            Square::lemma_at(7, rank as int);
        }
        let mut landing = coord_to;
        if castle {
            if coord_to == Square::from_position((6, rank)) {
                let _ = self.board.move_piece(
                    Square::from_position((7, rank)),
                    Square::from_position((5, rank)),
                );
            } else {
                let _ = self.board.move_piece(
                    Square::from_position((0, rank)),
                    Square::from_position((3, rank)),
                );
                landing = Square::from_position((2, rank));
            }
        }
        let _ = self.board.move_piece(coord_from, landing);
        assert(self.board@ == carried_out(start.board, piece, coord_from, coord_to));
        self.board.update_capture_board();
        self.board.clear_marks();
        self.piece_selected = None;
        let last: i32 = match color {
            Color::White => 7,
            Color::Black => 0,
        };
        let is_pawn = match piece {
            Piece::P(_) => true,
            _ => false,
        };
        if is_pawn && coord_to.get_rank() == last {
            self.state = GameState::Promoting { by_color: color };
            self.promotion_square = coord_to;
        } else {
            self.state = Self::outcome_of(&self.board, color.opposite());
            self.promotion_square = Square::Unset;
        }
        Ok(())
    }

    /// Replaces the pawn that awaits promotion by a piece of kind `choice` of
    /// the same side on the same square, and passes the turn to the other side.
    /// Fails, and changes nothing, when no pawn awaits promotion.
    pub fn promote(&mut self, choice: Promotion) -> (result: Result<(), String>)
        requires
            old(self).wf(),
        ensures
            final(self).wf(),
            result is Ok <==> old(self)@.awaits_promotion(),
            result is Ok ==> final(self)@ == old(self)@.after_promotion(choice),
            result matches Err(text) ==> final(self)@ == old(self)@ && text@
                == no_promotion_text(),
    {
        let color = match self.state {
            GameState::Promoting { by_color } => by_color,
            _ => { return Err(String::from_str("no pawn to promote")); },
        };
        let square = self.promotion_square;
        let pawn = match self.board.get_piece(square) {
            Some(Piece::P(pawn)) => *pawn,
            _ => { return Err(String::from_str("no pawn to promote")); },
        };
        if pawn.color != color {
            return Err(String::from_str("no pawn to promote"));
        }
        self.board.put_piece(square, choice.apply(pawn));
        self.board.update_capture_board();
        self.state = Self::outcome_of(&self.board, color.opposite());
        self.promotion_square = Square::Unset;
        Ok(())
    }
}

} // verus!
