//! A rules engine for two-player chess.
//!
//! Given a board configuration and whose turn it is, the engine computes the
//! exact set of legal moves for a selected piece, applies a chosen move while
//! updating all derived state (turn, check/mate/draw status, castling rights,
//! en-passant eligibility, move counters, repeated-position history), and
//! rejects illegal input without side effects.

pub mod board;
pub mod check;
pub mod fen;
pub mod king_moves;
pub mod model;
pub mod pawn_moves;
pub mod piece;
pub mod position;
pub mod prelude;

use vstd::prelude::*;

use crate::board::{Board, GameState, MoveType, Turn};
use crate::model::{
    king_move_at, pawn_move_at, sq, square_attacked, standard_move_at, BoardView,
};
use crate::piece::{internal_of, is_color, Color, PawnState, Piece};
use crate::position::{position_index, BoardPosition, File, Rank};

verus! {

broadcast use
    crate::position::lemma_position_index_bounds,
    crate::position::lemma_position_index_injective,
    crate::position::lemma_position_at_inverse,
    crate::position::lemma_position_of_index_inverse,
    crate::position::lemma_position_index_of_index,
    crate::board::lemma_board_len,
;

/// The reasons an operation on a chess game can be refused.
#[derive(Debug, Clone, Copy, PartialEq, Eq, Structural)]
pub enum ChessError {
    /// Position arithmetic left the board.
    OutOfBounds,
    /// The origin square is empty.
    NoPiece,
    /// The origin square holds a piece of the non-moving color.
    NotYourPiece,
    /// No legal destination exists from the origin square.
    NoMoves,
    /// The destination is not legal, or a promotion was attempted outside
    /// the promotion phase.
    InvalidMove,
    /// The move would leave the mover's own king attacked.
    SelfCheck,
    /// A board-placement import string was malformed.
    IncorrectFenString,
    /// An internal invariant was found violated; indicates a bug, not user
    /// error.
    InternalError,
}

/// The state of a chess game, as mathematics: the board as a sequence of 64
/// optional pieces, whose turn it is, the phase, the cached king squares,
/// the squares eligible for en-passant capture, the two move counters, and
/// the two per-color position-repetition tallies.
pub struct GameView {
    pub board: BoardView,
    pub turn: Turn,
    pub state: GameState,
    pub white_king_position: BoardPosition,
    pub black_king_position: BoardPosition,
    pub en_passant: Seq<BoardPosition>,
    pub half_move: u8,
    pub full_move: u8,
    pub white_history: Seq<(BoardView, u8)>,
    pub black_history: Seq<(BoardView, u8)>,
}

/// The square the given color's king is cached at.
pub open spec fn king_position_of(g: GameView, color: Turn) -> BoardPosition {
    match color {
        Turn::White => g.white_king_position,
        Turn::Black => g.black_king_position,
    }
}

/// What `get_valid_moves` records for the square `to` when asked about the
/// square `from`: nothing when `from` is empty or holds a piece of the
/// non-moving color, and otherwise the verdict of the generator for the
/// piece's kind.
pub open spec fn valid_move_at(g: GameView, from: BoardPosition, to: BoardPosition) -> Option<
    MoveType,
> {
    match sq(g.board, from) {
        None => None,
        Some(piece) => if !is_color(piece, g.turn) {
            None
        } else {
            match internal_of(piece) {
                Piece::King { check_state: _, castling_state } => king_move_at(
                    g.board,
                    piece,
                    from,
                    castling_state,
                    g.turn,
                    to,
                ),
                Piece::Pawn { state: _ } => pawn_move_at(
                    g.board,
                    piece,
                    from,
                    king_position_of(g, g.turn),
                    to,
                ),
                _ => standard_move_at(
                    g.board,
                    piece,
                    from,
                    king_position_of(g, g.turn),
                    g.turn,
                    to,
                ),
            }
        },
    }
}

/// A struct holding the state of a chess game, with the functions to
/// interface with it: querying squares and legal moves, applying moves,
/// resolving promotions, and asking about draws.
pub struct ChessGame {
    pub(crate) board: Board<Color<Piece>>,
    pub(crate) turn: Turn,
    pub(crate) state: GameState,
    pub(crate) white_king_position: BoardPosition,
    pub(crate) black_king_position: BoardPosition,
    pub(crate) en_passant: Vec<BoardPosition>,
    pub(crate) half_move: u8,
    pub(crate) full_move: u8,
    pub(crate) white_position_history: Vec<(Board<Color<Piece>>, u8)>,
    pub(crate) black_position_history: Vec<(Board<Color<Piece>>, u8)>,
}

impl View for ChessGame {
    type V = GameView;

    closed spec fn view(&self) -> GameView {
        GameView {
            board: self.board@,
            turn: self.turn,
            state: self.state,
            white_king_position: self.white_king_position,
            black_king_position: self.black_king_position,
            en_passant: self.en_passant@,
            half_move: self.half_move,
            full_move: self.full_move,
            white_history: self.white_position_history@.map_values(
                |e: (Board<Color<Piece>>, u8)| (e.0@, e.1),
            ),
            black_history: self.black_position_history@.map_values(
                |e: (Board<Color<Piece>>, u8)| (e.0@, e.1),
            ),
        }
    }
}

/// What the standard starting layout puts on each square: the two back
/// ranks of pieces with full castling rights on the kings, the two ranks of
/// pawns still on their first move, and 32 empty squares.
pub open spec fn starting_square(p: BoardPosition) -> Option<Color<Piece>> {
    let f = crate::model::fi(p);
    let r = crate::model::ri(p);
    if r == 0 {
        Some(Color::White(starting_back_rank_piece(f)))
    } else if r == 1 {
        Some(Color::White(Piece::Pawn { state: PawnState::FirstMove }))
    } else if r == 6 {
        Some(Color::Black(Piece::Pawn { state: PawnState::FirstMove }))
    } else if r == 7 {
        Some(Color::Black(starting_back_rank_piece(f)))
    } else {
        None
    }
}

/// The piece kind a back rank starts with on the given file.
pub open spec fn starting_back_rank_piece(f: int) -> Piece {
    if f == 0 || f == 7 {
        Piece::Rook
    } else if f == 1 || f == 6 {
        Piece::Knight
    } else if f == 2 || f == 5 {
        Piece::Bishop
    } else if f == 3 {
        Piece::Queen
    } else {
        Piece::King { check_state: None, castling_state: (true, true) }
    }
}

impl core::default::Default for ChessGame {
    /// The standard starting position: White to move, full castling rights
    /// on both sides, empty history.
    fn default() -> (r: Self)
        ensures
            forall|p: BoardPosition| sq(r@.board, p) == starting_square(p),
            r@.turn == Turn::White,
            r@.state is Ongoing,
            r@.white_king_position == (BoardPosition { file: File::E, rank: Rank::One }),
            r@.black_king_position == (BoardPosition { file: File::E, rank: Rank::Eight }),
            r@.en_passant.len() == 0,
            r@.half_move == 0,
            r@.full_move == 0,
            r@.white_history.len() == 0,
            r@.black_history.len() == 0,
    {
        let mut board: Board<Color<Piece>> = Board::new();
        let files: [File; 8] = [
            File::A,
            File::B,
            File::C,
            File::D,
            File::E,
            File::F,
            File::G,
            File::H,
        ];
        let mut i: usize = 0;
        while i < 8
            invariant
                i <= 8,
                board@.len() == 64,
                forall|j: int| 0 <= j < 8 ==> files@[j] == crate::position::file_at(j),
                forall|p: BoardPosition|
                    crate::model::fi(p) < i && (crate::model::ri(p) == 1 || crate::model::ri(p)
                        == 6) ==> sq(board@, p) == starting_square(p),
                forall|p: BoardPosition|
                    !(crate::model::ri(p) == 1 || crate::model::ri(p) == 6) ==> sq(board@, p)
                        is None,
            decreases 8 - i,
        {
            board.set(
                &BoardPosition { file: files[i], rank: Rank::Two },
                Some(Color::White(Piece::Pawn { state: PawnState::FirstMove })),
            );
            board.set(
                &BoardPosition { file: files[i], rank: Rank::Seven },
                Some(Color::Black(Piece::Pawn { state: PawnState::FirstMove })),
            );
            proof {
                assert forall|p: BoardPosition|
                    crate::model::fi(p) < i + 1 && (crate::model::ri(p) == 1 || crate::model::ri(p)
                        == 6) implies sq(board@, p) == starting_square(p) by {
                    if crate::model::fi(p) == i {
                        assert(p == BoardPosition { file: crate::position::file_at(i as int), rank: crate::position::rank_at(crate::model::ri(p)) });
                    }
                };
            }
            i += 1;
        }
        board.set(&BoardPosition { file: File::A, rank: Rank::One }, Some(Color::White(Piece::Rook)));
        board.set(&BoardPosition { file: File::H, rank: Rank::One }, Some(Color::White(Piece::Rook)));
        board.set(
            &BoardPosition { file: File::B, rank: Rank::One },
            Some(Color::White(Piece::Knight)),
        );
        board.set(
            &BoardPosition { file: File::G, rank: Rank::One },
            Some(Color::White(Piece::Knight)),
        );
        board.set(
            &BoardPosition { file: File::C, rank: Rank::One },
            Some(Color::White(Piece::Bishop)),
        );
        board.set(
            &BoardPosition { file: File::F, rank: Rank::One },
            Some(Color::White(Piece::Bishop)),
        );
        board.set(
            &BoardPosition { file: File::D, rank: Rank::One },
            Some(Color::White(Piece::Queen)),
        );
        board.set(
            &BoardPosition { file: File::E, rank: Rank::One },
            Some(Color::White(Piece::King { check_state: None, castling_state: (true, true) })),
        );
        board.set(&BoardPosition { file: File::A, rank: Rank::Eight }, Some(Color::Black(Piece::Rook)));
        board.set(&BoardPosition { file: File::H, rank: Rank::Eight }, Some(Color::Black(Piece::Rook)));
        board.set(
            &BoardPosition { file: File::B, rank: Rank::Eight },
            Some(Color::Black(Piece::Knight)),
        );
        board.set(
            &BoardPosition { file: File::G, rank: Rank::Eight },
            Some(Color::Black(Piece::Knight)),
        );
        board.set(
            &BoardPosition { file: File::C, rank: Rank::Eight },
            Some(Color::Black(Piece::Bishop)),
        );
        board.set(
            &BoardPosition { file: File::F, rank: Rank::Eight },
            Some(Color::Black(Piece::Bishop)),
        );
        board.set(
            &BoardPosition { file: File::D, rank: Rank::Eight },
            Some(Color::Black(Piece::Queen)),
        );
        board.set(
            &BoardPosition { file: File::E, rank: Rank::Eight },
            Some(Color::Black(Piece::King { check_state: None, castling_state: (true, true) })),
        );
        let game = ChessGame {
            board,
            turn: Turn::White,
            state: GameState::Ongoing,
            white_king_position: BoardPosition { file: File::E, rank: Rank::One },
            black_king_position: BoardPosition { file: File::E, rank: Rank::Eight },
            en_passant: Vec::new(),
            half_move: 0,
            full_move: 0,
            white_position_history: Vec::new(),
            black_position_history: Vec::new(),
        };
        proof {
            assert forall|p: BoardPosition| sq(game@.board, p) == starting_square(p) by {
                crate::position::lemma_position_index_bounds(p);
            };
        }
        game
    }
}

impl ChessGame {
    /// Returns a reference to a specific square on the board.
    pub fn get_square(&self, position: &BoardPosition) -> (r: &Option<Color<Piece>>)
        ensures
            r == sq(self@.board, *position),
    {
        self.board.get(position)
    }

    /// Returns the square the given color's king is cached at.
    pub(crate) fn get_king_position(&self, player_color: &Turn) -> (r: &BoardPosition)
        ensures
            r == king_position_of(self@, *player_color),
    {
        match player_color {
            Turn::White => &self.white_king_position,
            Turn::Black => &self.black_king_position,
        }
    }

    /// Returns the color whose turn it is to move.
    pub fn get_player_turn(&self) -> (r: &Turn)
        ensures
            r == self@.turn,
    {
        &self.turn
    }

    /// Returns the phase the game is in.
    pub fn get_game_state(&self) -> (r: &GameState)
        ensures
            r == self@.state,
    {
        &self.state
    }

    /// Returns the legality map of the square: what moves can be made from
    /// it, empty when it is empty, holds the non-moving color, or has no
    /// legal moves.
    pub fn get_valid_moves(&self, position: &BoardPosition) -> (r: Board<MoveType>)
        ensures
            forall|to: BoardPosition|
                r@[position_index(to)] == valid_move_at(self@, *position, to),
            r@.len() == 64,
    {
        let piece = match self.board.get(position) {
            Some(piece) => *piece,
            None => {
                return Board::new();
            },
        };
        if !piece.same_color(&self.turn) {
            return Board::new();
        }
        let king_position = *self.get_king_position(&self.turn);
        match piece.get_internal() {
            Piece::King { check_state: _, castling_state } => {
                let castling = *castling_state;
                crate::king_moves::get_king_moves(&self.board, position, &piece, &castling, &self.turn)
            },
            Piece::Pawn { state: _ } => crate::pawn_moves::get_pawn_moves(
                &self.board,
                position,
                &piece,
                &king_position,
            ),
            _ => piece.get_standard_valid_move(&self.board, position, &king_position, &self.turn),
        }
    }
}

/// The board after the rook relocation that accompanies castling: when a
/// king moves two or more files onto one of the four castling destinations,
/// the rook of that corner is lifted to its post-castling square.
pub open spec fn castling_rook_applied(
    board: BoardView,
    piece: Color<Piece>,
    from: BoardPosition,
    to: BoardPosition,
) -> BoardView {
    if internal_of(piece) is King && crate::model::abs(
        crate::model::fi(from) - crate::model::fi(to),
    ) >= 2 {
        if to == crate::position::position_at(6, 0) {
            board.update(position_index(crate::position::position_at(7, 0)), None).update(
                position_index(crate::position::position_at(5, 0)),
                Some(Color::White(Piece::Rook)),
            )
        } else if to == crate::position::position_at(1, 0) {
            board.update(position_index(crate::position::position_at(0, 0)), None).update(
                position_index(crate::position::position_at(2, 0)),
                Some(Color::White(Piece::Rook)),
            )
        } else if to == crate::position::position_at(6, 7) {
            board.update(position_index(crate::position::position_at(7, 7)), None).update(
                position_index(crate::position::position_at(5, 7)),
                Some(Color::Black(Piece::Rook)),
            )
        } else if to == crate::position::position_at(1, 7) {
            board.update(position_index(crate::position::position_at(0, 7)), None).update(
                position_index(crate::position::position_at(2, 7)),
                Some(Color::Black(Piece::Rook)),
            )
        } else {
            board
        }
    } else {
        board
    }
}

/// The moving piece after its castling rights are revoked: a king loses
/// both rights by moving; any other piece is unchanged.
pub open spec fn piece_after_rights(piece: Color<Piece>) -> Color<Piece> {
    if internal_of(piece) is King {
        crate::piece::with_internal(
            piece,
            Piece::King { check_state: None, castling_state: (false, false) },
        )
    } else {
        piece
    }
}

/// Whether the castling-rights bookkeeping can be carried out: it reads the
/// mover's cached king square, which must be occupied unless the mover is
/// the king itself.
pub open spec fn rights_update_ok(
    board: BoardView,
    piece: Color<Piece>,
    king_position: BoardPosition,
) -> bool {
    internal_of(piece) is King || sq(board, king_position) is Some
}

/// The board after the castling rights held by the piece on the mover's
/// cached king square are updated: a rook moving away from the `A`-file
/// corner of its own home rank clears the queen-side right, one moving
/// away from the `H`-file corner clears the king-side right.
pub open spec fn castling_rights_applied(
    board: BoardView,
    piece: Color<Piece>,
    from: BoardPosition,
    king_position: BoardPosition,
) -> BoardView {
    if internal_of(piece) is King {
        board
    } else {
        match sq(board, king_position) {
            None => board,
            Some(king_square_piece) => match internal_of(king_square_piece) {
                Piece::King { check_state: _, castling_state } => if internal_of(piece)
                    == Piece::Rook {
                    if from == crate::position::position_at(
                        0,
                        crate::model::home_rank(crate::piece::color_of(piece)),
                    ) {
                        board.update(
                            position_index(king_position),
                            Some(
                                crate::piece::with_internal(
                                    king_square_piece,
                                    Piece::King {
                                        check_state: None,
                                        castling_state: (castling_state.0, false),
                                    },
                                ),
                            ),
                        )
                    } else if from == crate::position::position_at(
                        7,
                        crate::model::home_rank(crate::piece::color_of(piece)),
                    ) {
                        board.update(
                            position_index(king_position),
                            Some(
                                crate::piece::with_internal(
                                    king_square_piece,
                                    Piece::King {
                                        check_state: None,
                                        castling_state: (false, castling_state.1),
                                    },
                                ),
                            ),
                        )
                    } else {
                        board
                    }
                } else {
                    board
                },
                _ => board,
            },
        }
    }
}

/// The board after the prior turn's en-passant eligibility is cleared:
/// every listed square that still holds a piece has it reverted to a pawn
/// in its default state.
pub open spec fn en_passant_cleared(board: BoardView, list: Seq<BoardPosition>) -> BoardView
    decreases list.len(),
{
    if list.len() == 0 {
        board
    } else {
        let cleared = match sq(board, list[0]) {
            Some(piece) => board.update(
                position_index(list[0]),
                Some(crate::piece::with_internal(piece, Piece::Pawn { state: PawnState::Default })),
            ),
            None => board,
        };
        en_passant_cleared(cleared, list.drop_first())
    }
}

/// The board after an en-passant capture: the enemy pawn one rank behind
/// the destination, towards the mover's side, is removed.
pub open spec fn en_passant_capture_applied(
    board: BoardView,
    turn: Turn,
    to: BoardPosition,
) -> BoardView {
    let behind = match turn {
        Turn::White => crate::position::position_add(to, 0, -1),
        Turn::Black => crate::position::position_add(to, 0, 1),
    };
    match behind {
        Ok(p) => board.update(position_index(p), None),
        Err(_) => board,
    }
}

/// Whether the move flags the moved pawn as capturable en passant: a pawn
/// making a two-square first move.
pub open spec fn flags_en_passant(
    piece: Color<Piece>,
    from: BoardPosition,
    to: BoardPosition,
) -> bool {
    internal_of(piece) == (Piece::Pawn { state: PawnState::FirstMove }) && crate::model::abs(
        crate::model::ri(to) - crate::model::ri(from),
    ) == 2
}

/// The moved piece as it lands on its destination: castling rights revoked
/// when it is the king, the en-passant flag raised when it is a pawn that
/// just double-stepped.
pub open spec fn moved_piece(
    piece: Color<Piece>,
    from: BoardPosition,
    to: BoardPosition,
) -> Color<Piece> {
    let after_rights = piece_after_rights(piece);
    if flags_en_passant(after_rights, from, to) {
        crate::piece::with_internal(
            after_rights,
            Piece::Pawn { state: PawnState::PosibleEnPassant },
        )
    } else {
        after_rights
    }
}

/// The game after a validated move is applied to the board and the derived
/// state: the rook relocation of castling, castling-rights revocation,
/// en-passant clearing, en-passant capture, the en-passant eligibility of a
/// double-stepping pawn, the cached king squares, and the move itself.  The
/// turn, phase and counters are not yet advanced.
pub open spec fn move_applied(
    g: GameView,
    from: BoardPosition,
    to: BoardPosition,
    piece0: Color<Piece>,
    move_type: MoveType,
) -> GameView {
    let rook_moved = castling_rook_applied(g.board, piece0, from, to);
    let rights_done = castling_rights_applied(
        rook_moved,
        piece0,
        from,
        king_position_of(g, g.turn),
    );
    let passant_cleared = en_passant_cleared(rights_done, g.en_passant);
    let piece1 = piece_after_rights(piece0);
    let captured = if move_type is Capture && internal_of(piece1) is Pawn && sq(
        passant_cleared,
        to,
    ) is None {
        en_passant_capture_applied(passant_cleared, g.turn, to)
    } else {
        passant_cleared
    };
    let piece2 = moved_piece(piece0, from, to);
    let eligibility = if flags_en_passant(piece1, from, to) {
        seq![to]
    } else {
        Seq::<BoardPosition>::empty()
    };
    let white_king = if internal_of(piece2) is King && g.turn is White {
        to
    } else {
        g.white_king_position
    };
    let black_king = if internal_of(piece2) is King && g.turn is Black {
        to
    } else {
        g.black_king_position
    };
    let moved = captured.update(position_index(from), None).update(
        position_index(to),
        Some(piece2),
    );
    GameView {
        board: moved,
        en_passant: eligibility,
        white_king_position: white_king,
        black_king_position: black_king,
        ..g
    }
}

/// Whether the move leaves a pawn on the farthest rank for its color, so
/// that the game suspends in the promotion phase.
pub open spec fn is_promotion_move(piece: Color<Piece>, turn: Turn, to: BoardPosition) -> bool {
    internal_of(piece) is Pawn && ((turn is White && crate::model::ri(to) == 7) || (turn is Black
        && crate::model::ri(to) == 0))
}

/// A counter bumped by one, stopping at its largest value.
pub open spec fn counter_bumped(c: u8) -> u8 {
    if c < 255 {
        (c + 1) as u8
    } else {
        c
    }
}

/// A repetition tally with one more occurrence of the given configuration:
/// the occurrence count of its entry is bumped, or an entry is opened at
/// one occurrence.
pub open spec fn history_recorded(h: Seq<(BoardView, u8)>, board: BoardView) -> Seq<
    (BoardView, u8),
>
    decreases h.len(),
{
    if h.len() == 0 {
        seq![(board, 1u8)]
    } else if h[0].0 == board {
        seq![(h[0].0, counter_bumped(h[0].1))] + h.drop_first()
    } else {
        seq![h[0]] + history_recorded(h.drop_first(), board)
    }
}

/// Whether the color to move has any legal move at all.
pub open spec fn any_move_exists(g: GameView) -> bool {
    exists|from: BoardPosition, to: BoardPosition| valid_move_at(g, from, to) is Some
}

/// The game after the turn progresses: the position is tallied in the
/// mover's repetition history, the turn flips, the counters advance (the
/// half-move clock resetting on a capture or a pawn move), and the new
/// phase is derived: `Check` or `CheckMate` when the new mover's king is
/// attacked, by whether any legal move remains; else `Draw` once the
/// half-move clock reaches 100; else `Ongoing`.
pub open spec fn progressed(g: GameView, piece: Piece, move_type: MoveType) -> GameView {
    let white_history = if g.turn is White {
        history_recorded(g.white_history, g.board)
    } else {
        g.white_history
    };
    let black_history = if g.turn is Black {
        history_recorded(g.black_history, g.board)
    } else {
        g.black_history
    };
    let next_turn = crate::piece::other_color(g.turn);
    let full_move = counter_bumped(g.full_move);
    let half_move = if move_type is Capture || piece is Pawn {
        0u8
    } else {
        counter_bumped(g.half_move)
    };
    let advanced = GameView {
        white_history,
        black_history,
        turn: next_turn,
        full_move,
        half_move,
        ..g
    };
    let state = if square_attacked(g.board, king_position_of(g, next_turn), next_turn) {
        if any_move_exists(advanced) {
            GameState::Check
        } else {
            GameState::CheckMate
        }
    } else if half_move >= 100 {
        GameState::Draw
    } else {
        GameState::Ongoing
    };
    GameView { state, ..advanced }
}

/// What `move_piece` does: each rejection with the condition that raises
/// it, in the order they are tested, and on success the applied move
/// followed either by the suspension in the promotion phase or by the
/// progression of the turn.  A rejected call leaves the game unchanged.
pub open spec fn move_piece_outcome(g: GameView, from: BoardPosition, to: BoardPosition) -> (
    GameView,
    Result<GameState, ChessError>,
) {
    if g.state is Promotion {
        (g, Err(ChessError::InvalidMove))
    } else {
        match sq(g.board, from) {
            None => (g, Err(ChessError::NoPiece)),
            Some(piece0) => if !is_color(piece0, g.turn) {
                (g, Err(ChessError::NotYourPiece))
            } else {
                match valid_move_at(g, from, to) {
                    None => (g, Err(ChessError::InvalidMove)),
                    Some(move_type) => if !rights_update_ok(
                        castling_rook_applied(g.board, piece0, from, to),
                        piece0,
                        king_position_of(g, g.turn),
                    ) {
                        (g, Err(ChessError::InternalError))
                    } else {
                        let applied = move_applied(g, from, to, piece0, move_type);
                        let piece2 = moved_piece(piece0, from, to);
                        if is_promotion_move(piece2, g.turn, to) {
                            let state = GameState::Promotion(to, piece2, move_type);
                            (GameView { state, ..applied }, Ok(state))
                        } else {
                            let done = progressed(applied, internal_of(piece2), move_type);
                            (done, Ok(done.state))
                        }
                    },
                }
            },
        }
    }
}

/// What `promote_pawn` does: the call is rejected without side effects
/// outside the promotion phase, when the pending piece is not a pawn of
/// the color whose turn it is sitting on an extreme rank, or when the
/// requested kind is a king (a promotion can mint neither a second king
/// nor fresh castling rights).  Otherwise the pending pawn is replaced on
/// the board by the requested kind of the same color and the turn
/// progresses with the resolved piece and the recorded move type.
pub open spec fn promote_outcome(g: GameView, promotion_target: Piece) -> (
    GameView,
    Result<GameState, ChessError>,
) {
    match g.state {
        GameState::Promotion(position, piece, move_type) => {
            let pending_valid = internal_of(piece) is Pawn && is_color(piece, g.turn) && (
            crate::model::ri(position) == 7 || crate::model::ri(position) == 0);
            if !pending_valid || promotion_target is King {
                (g, Err(ChessError::InvalidMove))
            } else {
                let resolved = crate::piece::with_internal(piece, promotion_target);
                let board = g.board.update(position_index(position), Some(resolved));
                let done = progressed(
                    GameView { board, ..g },
                    internal_of(resolved),
                    move_type,
                );
                (done, Ok(done.state))
            }
        },
        _ => (g, Err(ChessError::InvalidMove)),
    }
}

/// A tally kept of all entries before `i` failing to match splits around
/// `i`: the entries up to `i` are kept as they are, and recording continues
/// in the rest.
proof fn lemma_history_recorded_prefix(h: Seq<(BoardView, u8)>, board: BoardView, i: int)
    requires
        0 <= i <= h.len(),
        forall|j: int| 0 <= j < i ==> (#[trigger] h[j]).0 != board,
    ensures
        history_recorded(h, board) == h.take(i) + history_recorded(h.skip(i), board),
    decreases i,
{
    if i == 0 {
        assert(h.skip(0) =~= h);
        assert(h.take(0) + history_recorded(h, board) =~= history_recorded(h, board));
    } else {
        let rest = h.drop_first();
        lemma_history_recorded_prefix(rest, board, i - 1);
        assert(h.take(i) =~= seq![h[0]] + rest.take(i - 1));
        assert(h.skip(i) =~= rest.skip(i - 1));
        assert(seq![h[0]] + (rest.take(i - 1) + history_recorded(rest.skip(i - 1), board)) =~= (
        seq![h[0]] + rest.take(i - 1)) + history_recorded(rest.skip(i - 1), board));
    }
}

/// Tallies one more occurrence of a board configuration in a repetition
/// history: the matching entry's occurrence count is bumped, or an entry is
/// opened at one occurrence.
fn record_position(history: &mut Vec<(Board<Color<Piece>>, u8)>, board: &Board<Color<Piece>>)
    ensures
        final(history)@.map_values(|e: (Board<Color<Piece>>, u8)| (e.0@, e.1))
            == history_recorded(
            old(history)@.map_values(|e: (Board<Color<Piece>>, u8)| (e.0@, e.1)),
            board@,
        ),
{
    let ghost mapped = history@.map_values(|e: (Board<Color<Piece>>, u8)| (e.0@, e.1));
    let mut i: usize = 0;
    while i < history.len()
        invariant
            i <= history@.len(),
            history@ == old(history)@,
            mapped == old(history)@.map_values(|e: (Board<Color<Piece>>, u8)| (e.0@, e.1)),
            forall|j: int| 0 <= j < i ==> (#[trigger] history@[j]).0@ != board@,
        decreases history@.len() - i,
    {
        if crate::piece::board_eq(&history[i].0, board) {
            let entry = history.remove(i);
            let bumped: u8 = if entry.1 < 255 {
                entry.1 + 1
            } else {
                entry.1
            };
            history.insert(i, (entry.0, bumped));
            proof {
                lemma_history_recorded_prefix(mapped, board@, i as int);
                assert(mapped.skip(i as int)[0].0 == board@);
                assert(history_recorded(mapped.skip(i as int), board@) == seq![
                    (mapped[i as int].0, counter_bumped(mapped[i as int].1)),
                ] + mapped.skip(i as int).drop_first());
                assert(history@ =~= old(history)@.update(i as int, (entry.0, bumped)));
                assert(history@.map_values(|e: (Board<Color<Piece>>, u8)| (e.0@, e.1)) =~= mapped.take(
                    i as int,
                ) + (seq![(mapped[i as int].0, counter_bumped(mapped[i as int].1))] + mapped.skip(
                    i as int,
                ).drop_first()));
            }
            return ;
        }
        i += 1;
    }
    history.push((*board, 1));
    proof {
        lemma_history_recorded_prefix(mapped, board@, mapped.len() as int);
        assert(mapped.skip(mapped.len() as int) =~= Seq::<(BoardView, u8)>::empty());
        assert(mapped.take(mapped.len() as int) =~= mapped);
        assert(history@.map_values(|e: (Board<Color<Piece>>, u8)| (e.0@, e.1)) =~= mapped + seq![
            (board@, 1u8),
        ]);
    }
}

/// Returns whether a legality map offers any destination at all.
fn map_has_move(move_map: &Board<MoveType>) -> (r: bool)
    ensures
        r == exists|to: BoardPosition| (#[trigger] move_map@[position_index(to)]) is Some,
{
    let positions = crate::position::iter();
    let mut i: usize = 0;
    while i < 64
        invariant
            i <= 64,
            positions@.len() == 64,
            forall|j: int|
                0 <= j < 64 ==> #[trigger] positions@[j] == crate::position::position_of_index(j),
            forall|p: BoardPosition|
                position_index(p) < i ==> (#[trigger] move_map@[position_index(p)]) is None,
        decreases 64 - i,
    {
        let p = positions[i];
        proof {
            assert(position_index(p) == i);
        }
        if move_map.get(&p).is_some() {
            return true;
        }
        i += 1;
    }
    proof {
        if exists|to: BoardPosition| (#[trigger] move_map@[position_index(to)]) is Some {
            let to = choose|to: BoardPosition| (#[trigger] move_map@[position_index(to)]) is Some;
            assert(position_index(to) < 64);
        }
    }
    false
}

impl ChessGame {
    /// Returns whether the color to move has any legal move at all.
    fn has_any_valid_move(&self) -> (r: bool)
        ensures
            r == any_move_exists(self@),
    {
        let positions = crate::position::iter();
        let mut i: usize = 0;
        while i < 64
            invariant
                i <= 64,
                positions@.len() == 64,
                forall|j: int|
                    0 <= j < 64 ==> #[trigger] positions@[j]
                        == crate::position::position_of_index(j),
                forall|p: BoardPosition, to: BoardPosition|
                    position_index(p) < i ==> !(valid_move_at(self@, p, to) is Some),
            decreases 64 - i,
        {
            let from = positions[i];
            proof {
                assert(position_index(from) == i);
            }
            let move_map = self.get_valid_moves(&from);
            if map_has_move(&move_map) {
                proof {
                    let to = choose|to: BoardPosition|
                        (#[trigger] move_map@[position_index(to)]) is Some;
                    assert(valid_move_at(self@, from, to) is Some);
                }
                return true;
            }
            proof {
                assert forall|to: BoardPosition| !(valid_move_at(self@, from, to) is Some) by {
                    assert(move_map@[position_index(to)] is None);
                };
            }
            i += 1;
        }
        proof {
            if any_move_exists(self@) {
                let (from, to) = choose|from: BoardPosition, to: BoardPosition|
                    valid_move_at(self@, from, to) is Some;
                assert(position_index(from) < 64);
            }
        }
        false
    }

    /// Returns whether either color's repetition history holds some
    /// configuration seen at least three times, so that a player may
    /// request a draw.
    pub fn request_draw_due_to_repeated_position(&self) -> (r: bool)
        ensures
            r == ((exists|i: int|
                0 <= i < self@.white_history.len() && (#[trigger] self@.white_history[i]).1 >= 3)
                || (exists|i: int|
                0 <= i < self@.black_history.len() && (#[trigger] self@.black_history[i]).1 >= 3)),
    {
        let mut i: usize = 0;
        while i < self.white_position_history.len()
            invariant
                i <= self@.white_history.len(),
                self@.white_history.len() == self.white_position_history@.len(),
                forall|j: int| 0 <= j < i ==> (#[trigger] self@.white_history[j]).1 < 3,
            decreases self.white_position_history@.len() - i,
        {
            if self.white_position_history[i].1 >= 3 {
                proof {
                    assert(self@.white_history[i as int].1 >= 3);
                }
                return true;
            }
            i += 1;
        }
        let mut i: usize = 0;
        while i < self.black_position_history.len()
            invariant
                i <= self@.black_history.len(),
                self@.black_history.len() == self.black_position_history@.len(),
                forall|j: int| 0 <= j < self@.white_history.len() ==> (#[trigger] self@.white_history[j]).1 < 3,
                forall|j: int| 0 <= j < i ==> (#[trigger] self@.black_history[j]).1 < 3,
            decreases self.black_position_history@.len() - i,
        {
            if self.black_position_history[i].1 >= 3 {
                proof {
                    assert(self@.black_history[i as int].1 >= 3);
                }
                return true;
            }
            i += 1;
        }
        false
    }
}

impl ChessGame {
    /// Revokes castling rights as the rules demand: a moving king loses
    /// both rights (on the moving piece itself), and a rook moving away
    /// from a corner of its own home rank clears that side's flag on the
    /// king cached for the turn.  When the mover is not the king and the
    /// cached king square is empty, nothing is changed and `InternalError`
    /// is returned.
    fn remove_castling_options(
        &mut self,
        piece: &mut Color<Piece>,
        initial_position: &BoardPosition,
    ) -> (r: Result<(), ChessError>)
        ensures
            r is Ok <==> rights_update_ok(
                old(self)@.board,
                *old(piece),
                king_position_of(old(self)@, old(self)@.turn),
            ),
            r is Ok ==> final(self)@ == (GameView {
                board: castling_rights_applied(
                    old(self)@.board,
                    *old(piece),
                    *initial_position,
                    king_position_of(old(self)@, old(self)@.turn),
                ),
                ..old(self)@
            }) && *final(piece) == piece_after_rights(*old(piece)),
            r is Err ==> final(self)@ == old(self)@ && *final(piece) == *old(piece) && r == Err::<
                (),
                ChessError,
            >(ChessError::InternalError),
    {
        if matches!(piece.get_internal(), Piece::King { .. }) {
            piece.change_internal(
                Piece::King { check_state: None, castling_state: (false, false) },
            );
            return Ok(());
        }
        let king_position = *self.get_king_position(&self.turn);
        let king_square = match self.board.get(&king_position) {
            Some(king_square) => *king_square,
            None => {
                return Err(ChessError::InternalError);
            },
        };
        let castling_state = match king_square.get_internal() {
            Piece::King { check_state: _, castling_state } => *castling_state,
            _ => {
                return Ok(());
            },
        };
        if matches!(piece.get_internal(), Piece::Rook) {
            let home = match piece {
                Color::White(_) => Rank::One,
                Color::Black(_) => Rank::Eight,
            };
            if *initial_position == (BoardPosition { file: File::A, rank: home }) {
                let mut king = king_square;
                king.change_internal(
                    Piece::King {
                        check_state: None,
                        castling_state: (castling_state.0, false),
                    },
                );
                self.board.set(&king_position, Some(king));
            } else if *initial_position == (BoardPosition { file: File::H, rank: home }) {
                let mut king = king_square;
                king.change_internal(
                    Piece::King {
                        check_state: None,
                        castling_state: (false, castling_state.1),
                    },
                );
                self.board.set(&king_position, Some(king));
            }
        }
        Ok(())
    }

    /// Advances the turn after a move: tallies the position, flips the
    /// turn, advances the counters, and derives the new phase.
    fn progress_turn(&mut self, piece: &Piece, move_type: &MoveType) -> (r: GameState)
        ensures
            final(self)@ == progressed(old(self)@, *piece, *move_type),
            r == progressed(old(self)@, *piece, *move_type).state,
    {
        match self.turn {
            Turn::White => record_position(&mut self.white_position_history, &self.board),
            Turn::Black => record_position(&mut self.black_position_history, &self.board),
        }
        self.turn = crate::piece::flip_color(&self.turn);
        if self.full_move < 255 {
            self.full_move = self.full_move + 1;
        }
        if matches!(move_type, MoveType::Capture) || matches!(piece, Piece::Pawn { .. }) {
            self.half_move = 0;
        } else if self.half_move < 255 {
            self.half_move = self.half_move + 1;
        }
        let king_position = *self.get_king_position(&self.turn);
        let state = if crate::check::is_in_check(&self.board, &king_position, &self.turn) {
            if self.has_any_valid_move() {
                GameState::Check
            } else {
                GameState::CheckMate
            }
        } else if self.half_move >= 100 {
            GameState::Draw
        } else {
            GameState::Ongoing
        };
        self.state = state;
        state
    }

    /// Moves a piece from one square to another, updating every piece of
    /// derived state, or fails without side effects: `NoPiece` when the
    /// origin is empty, `NotYourPiece` when it holds the non-moving color,
    /// `InvalidMove` when the destination is not legal or a promotion is
    /// pending, and `InternalError` when the cached king square holds no
    /// piece.
    #[verifier::rlimit(100)]
    pub fn move_piece(
        &mut self,
        initial_position: &BoardPosition,
        desired_position: &BoardPosition,
    ) -> (r: Result<GameState, ChessError>)
        ensures
            final(self)@ == move_piece_outcome(
                old(self)@,
                *initial_position,
                *desired_position,
            ).0,
            r == move_piece_outcome(old(self)@, *initial_position, *desired_position).1,
            r is Err ==> final(self)@ == old(self)@,
    {
        let ghost g0 = self@;
        let ghost from = *initial_position;
        let ghost to = *desired_position;
        if matches!(self.state, GameState::Promotion(_, _, _)) {
            return Err(ChessError::InvalidMove);
        }
        let piece0 = match self.board.get(initial_position) {
            Some(piece) => *piece,
            None => {
                return Err(ChessError::NoPiece);
            },
        };
        if !piece0.same_color(&self.turn) {
            return Err(ChessError::NotYourPiece);
        }
        let moves = self.get_valid_moves(initial_position);
        let move_type = match moves.get(desired_position) {
            Some(move_type) => *move_type,
            None => {
                return Err(ChessError::InvalidMove);
            },
        };
        if !matches!(piece0.get_internal(), Piece::King { .. }) {
            let king_position = *self.get_king_position(&self.turn);
            if self.board.get(&king_position).is_none() {
                proof {
                    assert(castling_rook_applied(g0.board, piece0, from, to) == g0.board);
                }
                return Err(ChessError::InternalError);
            }
        }
        // Relocate the rook when the king castles.
        if matches!(piece0.get_internal(), Piece::King { .. }) {
            let file_delta = crate::position::file_to_u8(&initial_position.file) as i32
                - crate::position::file_to_u8(&desired_position.file) as i32;
            if file_delta >= 2 || file_delta <= -2 {
                if *desired_position == (BoardPosition { file: File::G, rank: Rank::One }) {
                    self.board.set(&BoardPosition { file: File::H, rank: Rank::One }, None);
                    self.board.set(
                        &BoardPosition { file: File::F, rank: Rank::One },
                        Some(Color::White(Piece::Rook)),
                    );
                } else if *desired_position == (BoardPosition { file: File::B, rank: Rank::One }) {
                    self.board.set(&BoardPosition { file: File::A, rank: Rank::One }, None);
                    self.board.set(
                        &BoardPosition { file: File::C, rank: Rank::One },
                        Some(Color::White(Piece::Rook)),
                    );
                } else if *desired_position == (BoardPosition { file: File::G, rank: Rank::Eight })
                {
                    self.board.set(&BoardPosition { file: File::H, rank: Rank::Eight }, None);
                    self.board.set(
                        &BoardPosition { file: File::F, rank: Rank::Eight },
                        Some(Color::Black(Piece::Rook)),
                    );
                } else if *desired_position == (BoardPosition { file: File::B, rank: Rank::Eight })
                {
                    self.board.set(&BoardPosition { file: File::A, rank: Rank::Eight }, None);
                    self.board.set(
                        &BoardPosition { file: File::C, rank: Rank::Eight },
                        Some(Color::Black(Piece::Rook)),
                    );
                }
            }
        }
        proof {
            assert(self.board@ == castling_rook_applied(g0.board, piece0, from, to));
            assert(self@ == (GameView {
                board: castling_rook_applied(g0.board, piece0, from, to),
                ..g0
            }));
        }
        // Revoke castling rights where applicable.
        let mut piece = piece0;
        let rights_result = self.remove_castling_options(&mut piece, initial_position);
        if let Err(error) = rights_result {
            proof {
                assert(false);
            }
            return Err(error);
        }
        let ghost g_rights = self@;
        // Clear the prior turn's en-passant eligibility.
        let ghost board_before_clearing = self.board@;
        let ghost passant_list = self.en_passant@;
        proof {
            assert(passant_list.skip(0) =~= passant_list);
        }
        let mut i: usize = 0;
        while i < self.en_passant.len()
            invariant
                i <= self.en_passant@.len(),
                self.en_passant@ == passant_list,
                self@ == (GameView { board: self.board@, ..g_rights }),
                en_passant_cleared(board_before_clearing, passant_list) == en_passant_cleared(
                    self.board@,
                    passant_list.skip(i as int),
                ),
            decreases self.en_passant@.len() - i,
        {
            let ghost board_at_step = self.board@;
            let eligible = self.en_passant[i];
            match self.board.get(&eligible) {
                Some(occupant) => {
                    let mut reverted = *occupant;
                    reverted.change_internal(Piece::Pawn { state: PawnState::Default });
                    self.board.set(&eligible, Some(reverted));
                },
                None => {},
            }
            proof {
                assert(passant_list.skip(i as int)[0] == passant_list[i as int]);
                assert(passant_list.skip(i as int).drop_first() =~= passant_list.skip(i as int + 1));
                assert(en_passant_cleared(board_at_step, passant_list.skip(i as int))
                    == en_passant_cleared(self.board@, passant_list.skip(i as int + 1)));
            }
            i += 1;
        }
        proof {
            assert(passant_list.skip(passant_list.len() as int) =~= Seq::<BoardPosition>::empty());
            assert(self.board@ == en_passant_cleared(board_before_clearing, passant_list));
        }
        // Capture by en passant: a capturing pawn move onto an empty square
        // removes the pawn behind the destination.
        if matches!(move_type, MoveType::Capture) && matches!(
            piece.get_internal(),
            Piece::Pawn { .. },
        ) && self.board.get(desired_position).is_none() {
            match self.turn {
                Turn::White => {
                    if let Ok(behind) = desired_position.add((0, -1)) {
                        self.board.set(&behind, None);
                    }
                },
                Turn::Black => {
                    if let Ok(behind) = desired_position.add((0, 1)) {
                        self.board.set(&behind, None);
                    }
                },
            }
        }
        // A pawn that just made a two-square first move becomes capturable
        // en passant on the following move.
        self.en_passant = Vec::new();
        let rank_delta = crate::position::rank_to_u8(&desired_position.rank) as i32
            - crate::position::rank_to_u8(&initial_position.rank) as i32;
        if matches!(piece.get_internal(), Piece::Pawn { state: PawnState::FirstMove }) && (
        rank_delta == 2 || rank_delta == -2) {
            self.en_passant.push(*desired_position);
            piece.change_internal(Piece::Pawn { state: PawnState::PosibleEnPassant });
        }
        proof {
            assert(piece == moved_piece(piece0, from, to));
        }
        // Keep the cached king squares in step with the board.
        if matches!(piece.get_internal(), Piece::King { .. }) {
            match self.turn {
                Turn::White => self.white_king_position = *desired_position,
                Turn::Black => self.black_king_position = *desired_position,
            }
        }
        // Perform the move.
        self.board.set(initial_position, None);
        self.board.set(desired_position, Some(piece));
        proof {
            assert(self@ == move_applied(g0, from, to, piece0, move_type));
        }
        // A pawn reaching the farthest rank suspends the game in the
        // promotion phase; any other move advances the turn.
        let reaches_last_rank = (matches!(self.turn, Turn::White) && matches!(
            desired_position.rank,
            Rank::Eight,
        )) || (matches!(self.turn, Turn::Black) && matches!(desired_position.rank, Rank::One));
        if matches!(piece.get_internal(), Piece::Pawn { .. }) && reaches_last_rank {
            self.state = GameState::Promotion(*desired_position, piece, move_type);
            return Ok(self.state);
        }
        let moved_kind = *piece.get_internal();
        let state = self.progress_turn(&moved_kind, &move_type);
        self.state = state;
        Ok(state)
    }

    /// Promotes the pawn awaiting promotion to the requested kind of the
    /// same color, then advances the turn; fails with `InvalidMove`, the
    /// game unchanged, outside the promotion phase, when the pending piece
    /// is not the mover's pawn on an extreme rank, or when the requested
    /// kind is a king.
    pub fn promote_pawn(&mut self, promotion_target: Piece) -> (r: Result<GameState, ChessError>)
        ensures
            final(self)@ == promote_outcome(old(self)@, promotion_target).0,
            r == promote_outcome(old(self)@, promotion_target).1,
            r is Err ==> final(self)@ == old(self)@,
    {
        let (pawn_position, mut piece, move_type) = match self.state {
            GameState::Promotion(position, piece, move_type) => (position, piece, move_type),
            _ => {
                return Err(ChessError::InvalidMove);
            },
        };
        // The pending piece must still be a pawn of the mover's color on an
        // extreme rank: a pawn cannot reach the first or last rank except
        // on the far side.
        if !(matches!(piece.get_internal(), Piece::Pawn { .. }) && piece.same_color(&self.turn)
            && (matches!(pawn_position.rank, Rank::Eight) || matches!(
            pawn_position.rank,
            Rank::One,
        ))) {
            return Err(ChessError::InvalidMove);
        }
        // A promotion may not mint a second king.
        if matches!(promotion_target, Piece::King { .. }) {
            return Err(ChessError::InvalidMove);
        }
        piece.change_internal(promotion_target);
        self.board.set(&pawn_position, Some(piece));
        let resolved_kind = *piece.get_internal();
        let state = self.progress_turn(&resolved_kind, &move_type);
        Ok(state)
    }
}

/// Any two legality maps that `get_valid_moves` may return for the same
/// game state and the same square are identical: the map is a function of
/// the state alone, so querying twice without an intervening mutation
/// yields identical maps.
pub proof fn lemma_valid_moves_idempotent(
    g: GameView,
    position: BoardPosition,
    first: Seq<Option<MoveType>>,
    second: Seq<Option<MoveType>>,
)
    requires
        first.len() == 64,
        second.len() == 64,
        forall|to: BoardPosition| first[position_index(to)] == valid_move_at(g, position, to),
        forall|to: BoardPosition| second[position_index(to)] == valid_move_at(g, position, to),
    ensures
        first == second,
{
    assert forall|j: int| 0 <= j < 64 implies first[j] == second[j] by {
        let to = crate::position::position_of_index(j);
        assert(first[position_index(to)] == valid_move_at(g, position, to));
        assert(second[position_index(to)] == valid_move_at(g, position, to));
    };
    assert(first =~= second);
}

} // verus!
