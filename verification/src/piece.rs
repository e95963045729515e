//! The piece model: the closed set of piece kinds with their kind-specific
//! sub-state, wrapped in an ownership color, together with the per-piece
//! movement data and the move vector evaluator.

use vstd::prelude::*;

use crate::board::{Board, MoveType, Turn};
use crate::position::{position_index, BoardPosition};

verus! {

broadcast use
    crate::position::lemma_position_index_bounds,
    crate::position::lemma_position_index_injective,
    crate::position::lemma_position_at_inverse,
    crate::position::lemma_position_of_index_inverse,
    crate::position::lemma_position_index_of_index,
    crate::board::lemma_board_len,
;

/// The castling rights a king still holds: king-side, then queen-side.
/// Rights are monotonic: they can only be cleared, never re-granted.
pub type CastlingState = (bool, bool);

/// A piece or any other value tagged with the color that owns it.
#[derive(Debug, Clone, Copy, PartialEq, Eq, Hash)]
pub enum Color<T> {
    White(T),
    Black(T),
}

/// A piece kind, with the sub-state the kind carries: the king holds an
/// optional check flag and its castling rights, the pawn its progression
/// state.
#[derive(Debug, Clone, Copy, PartialEq, Eq, Hash)]
pub enum Piece {
    King { check_state: Option<CheckState>, castling_state: CastlingState },
    Queen,
    Rook,
    Bishop,
    Knight,
    Pawn { state: PawnState },
}

/// The progression state of a pawn: still on its first move, capturable en
/// passant on the immediately following move, or neither.
#[derive(Debug, Clone, Copy, PartialEq, Eq, Hash, Structural)]
pub enum PawnState {
    FirstMove,
    PosibleEnPassant,
    Default,
}

/// The flag a king may carry when its side is in check.
#[derive(Debug, Clone, Copy, PartialEq, Eq, Hash, Structural)]
pub enum CheckState {
    CheckMate,
    Check,
}

/// How many steps a piece may take along one of its base vectors: one
/// (king, knight, a pawn past its first move), two (a pawn's first move), or
/// as far as the board allows (sliding pieces).
#[derive(Debug, Clone, Copy, PartialEq, Eq, Structural)]
pub enum StepCount {
    One,
    Two,
    Infinty,
}

impl<T> Color<T> {
    /// Returns the value inside the color wrapper.
    pub fn get_internal(&self) -> (r: &T)
        ensures
            r == internal_of(*self),
    {
        match self {
            Color::White(value) => value,
            Color::Black(value) => value,
        }
    }

    /// Replaces the value inside the color wrapper; the ownership color is
    /// kept.
    pub fn change_internal(&mut self, value: T)
        ensures
            *final(self) == with_internal(*old(self), value),
    {
        *self = match self {
            Color::White(_) => Color::White(value),
            Color::Black(_) => Color::Black(value),
        }
    }

    /// Returns whether the wrapper's color is the given player color.
    pub fn same_color(&self, player_color: &Turn) -> (r: bool)
        ensures
            r == is_color(*self, *player_color),
    {
        match self {
            Color::White(_) => matches!(player_color, Turn::White),
            Color::Black(_) => matches!(player_color, Turn::Black),
        }
    }
}

/// The value inside a color wrapper.
pub open spec fn internal_of<T>(c: Color<T>) -> T {
    match c {
        Color::White(value) => value,
        Color::Black(value) => value,
    }
}

/// The same color wrapper around another value.
pub open spec fn with_internal<T>(c: Color<T>, value: T) -> Color<T> {
    match c {
        Color::White(_) => Color::White(value),
        Color::Black(_) => Color::Black(value),
    }
}

/// Whether a colored value belongs to the given player color.
pub open spec fn is_color<T>(c: Color<T>, player_color: Turn) -> bool {
    match c {
        Color::White(_) => player_color == Turn::White,
        Color::Black(_) => player_color == Turn::Black,
    }
}

/// The color wrapping a value, as a player color.
pub open spec fn color_of<T>(c: Color<T>) -> Turn {
    match c {
        Color::White(_) => Turn::White,
        Color::Black(_) => Turn::Black,
    }
}

/// The player color opposing the given one.
pub open spec fn other_color(color: Turn) -> Turn {
    match color {
        Turn::White => Turn::Black,
        Turn::Black => Turn::White,
    }
}

/// Returns the player color opposing the given one.
pub fn flip_color(color: &Turn) -> (r: Turn)
    ensures
        r == other_color(*color),
{
    match color {
        Turn::White => Turn::Black,
        Turn::Black => Turn::White,
    }
}

/// The base movement vectors of a piece, as (file, rank) displacements: a
/// single forward vector for pawns, the four straight or four diagonal
/// directions for rooks and bishops, all eight for queens and kings, and
/// the eight jump offsets for knights.
pub open spec fn base_vectors_of(piece: Color<Piece>) -> Seq<(i8, i8)> {
    match piece {
        Color::White(Piece::Pawn { state: _ }) => seq![(0i8, 1i8)],
        Color::Black(Piece::Pawn { state: _ }) => seq![(0i8, -1i8)],
        _ => match internal_of(piece) {
            Piece::King { check_state: _, castling_state: _ } => all_direction_vectors(),
            Piece::Queen => all_direction_vectors(),
            Piece::Rook => seq![(0i8, 1i8), (1i8, 0i8), (0i8, -1i8), (-1i8, 0i8)],
            Piece::Bishop => seq![(1i8, 1i8), (1i8, -1i8), (-1i8, -1i8), (-1i8, 1i8)],
            Piece::Knight => knight_vectors(),
            Piece::Pawn { state: _ } => Seq::empty(),
        },
    }
}

/// The eight one-step directions of a king or queen.
pub open spec fn all_direction_vectors() -> Seq<(i8, i8)> {
    seq![
        (0i8, 1i8),
        (1i8, 1i8),
        (1i8, 0i8),
        (1i8, -1i8),
        (0i8, -1i8),
        (-1i8, -1i8),
        (-1i8, 0i8),
        (-1i8, 1i8),
    ]
}

/// The eight jump offsets of a knight.
pub open spec fn knight_vectors() -> Seq<(i8, i8)> {
    seq![
        (-1i8, 2i8),
        (1i8, 2i8),
        (2i8, 1i8),
        (2i8, -1i8),
        (1i8, -2i8),
        (-1i8, -2i8),
        (-2i8, -1i8),
        (-2i8, 1i8),
    ]
}

/// The step budget of a piece, as a step count.
pub open spec fn step_count_of(piece: Color<Piece>) -> StepCount {
    match internal_of(piece) {
        Piece::King { check_state: _, castling_state: _ } => StepCount::One,
        Piece::Queen => StepCount::Infinty,
        Piece::Rook => StepCount::Infinty,
        Piece::Bishop => StepCount::Infinty,
        Piece::Knight => StepCount::One,
        Piece::Pawn { state: PawnState::FirstMove } => StepCount::Two,
        Piece::Pawn { state: _ } => StepCount::One,
    }
}

impl Color<Piece> {
    /// Returns the base movement vectors of the piece.
    pub fn get_movement_base_vector(&self) -> (r: Vec<(i8, i8)>)
        ensures
            r@ == base_vectors_of(*self),
    {
        let mut out: Vec<(i8, i8)> = Vec::new();
        match self {
            Color::White(Piece::Pawn { state: _ }) => {
                out.push((0, 1));
            },
            Color::Black(Piece::Pawn { state: _ }) => {
                out.push((0, -1));
            },
            _ => match self.get_internal() {
                Piece::King { check_state: _, castling_state: _ } | Piece::Queen => {
                    out.push((0, 1));
                    out.push((1, 1));
                    out.push((1, 0));
                    out.push((1, -1));
                    out.push((0, -1));
                    out.push((-1, -1));
                    out.push((-1, 0));
                    out.push((-1, 1));
                },
                Piece::Rook => {
                    out.push((0, 1));
                    out.push((1, 0));
                    out.push((0, -1));
                    out.push((-1, 0));
                },
                Piece::Bishop => {
                    out.push((1, 1));
                    out.push((1, -1));
                    out.push((-1, -1));
                    out.push((-1, 1));
                },
                Piece::Knight => {
                    out.push((-1, 2));
                    out.push((1, 2));
                    out.push((2, 1));
                    out.push((2, -1));
                    out.push((1, -2));
                    out.push((-1, -2));
                    out.push((-2, -1));
                    out.push((-2, 1));
                },
                Piece::Pawn { state: _ } => {},
            },
        }
        proof {
            assert(out@ =~= base_vectors_of(*self));
        }
        out
    }

    /// Returns how many steps the piece may take along one of its base
    /// vectors.
    pub fn get_number_of_moves(&self) -> (r: StepCount)
        ensures
            r == step_count_of(*self),
    {
        match self.get_internal() {
            Piece::King { check_state: _, castling_state: _ } => StepCount::One,
            Piece::Queen => StepCount::Infinty,
            Piece::Rook => StepCount::Infinty,
            Piece::Bishop => StepCount::Infinty,
            Piece::Knight => StepCount::One,
            Piece::Pawn { state: PawnState::FirstMove } => StepCount::Two,
            Piece::Pawn { state: _ } => StepCount::One,
        }
    }
}

/// Returns whether two colored pieces are equal, fields included.
pub fn colored_piece_eq(a: &Color<Piece>, b: &Color<Piece>) -> (r: bool)
    ensures
        r == (a == b),
{
    match (a, b) {
        (Color::White(x), Color::White(y)) => piece_eq(x, y),
        (Color::Black(x), Color::Black(y)) => piece_eq(x, y),
        _ => false,
    }
}

/// Returns whether two piece kinds are equal, sub-state included.
pub fn piece_eq(a: &Piece, b: &Piece) -> (r: bool)
    ensures
        r == (a == b),
{
    match (a, b) {
        (
            Piece::King { check_state: ca, castling_state: sa },
            Piece::King { check_state: cb, castling_state: sb },
        ) => {
            let checks_equal = match (ca, cb) {
                (None, None) => true,
                (Some(CheckState::Check), Some(CheckState::Check)) => true,
                (Some(CheckState::CheckMate), Some(CheckState::CheckMate)) => true,
                _ => false,
            };
            checks_equal && sa.0 == sb.0 && sa.1 == sb.1
        },
        (Piece::Queen, Piece::Queen) => true,
        (Piece::Rook, Piece::Rook) => true,
        (Piece::Bishop, Piece::Bishop) => true,
        (Piece::Knight, Piece::Knight) => true,
        (Piece::Pawn { state: sa }, Piece::Pawn { state: sb }) => sa == sb,
        _ => false,
    }
}

/// Returns whether two square contents are equal.
pub fn square_eq(a: &Option<Color<Piece>>, b: &Option<Color<Piece>>) -> (r: bool)
    ensures
        r == (a == b),
{
    match (a, b) {
        (None, None) => true,
        (Some(x), Some(y)) => colored_piece_eq(x, y),
        _ => false,
    }
}

/// Returns whether two piece placements hold the same piece on every
/// square.
pub fn board_eq(a: &Board<Color<Piece>>, b: &Board<Color<Piece>>) -> (r: bool)
    requires
        a@.len() == 64,
        b@.len() == 64,
    ensures
        r == (a@ == b@),
{
    let positions = crate::position::iter();
    let mut i: usize = 0;
    while i < 64
        invariant
            i <= 64,
            positions@.len() == 64,
            forall|j: int|
                0 <= j < 64 ==> #[trigger] positions@[j] == crate::position::position_at(
                    j % 8,
                    7 - j / 8,
                ),
            a@.len() == 64,
            b@.len() == 64,
            forall|j: int| 0 <= j < i ==> a@[j] == b@[j],
        decreases 64 - i,
    {
        let p = positions[i];
        proof {
            assert(position_index(p) == i);
        }
        if !square_eq(a.get(&p), b.get(&p)) {
            return false;
        }
        i += 1;
    }
    proof {
        assert(a@ =~= b@);
    }
    true
}

/// Returns the candidate the standard move generator finds for a single
/// destination square, before king-safety filtering.
fn standard_candidate_exec(
    board: &Board<Color<Piece>>,
    piece: &Color<Piece>,
    from: &BoardPosition,
    to: &BoardPosition,
    player_color: &Turn,
) -> (r: Option<MoveType>)
    ensures
        r == crate::model::standard_candidate(board@, *piece, *from, *to, *player_color),
{
    if from == to {
        return None;
    }
    let occupant_is_own = match board.get(to) {
        Some(other) => other.same_color(player_color),
        None => false,
    };
    if occupant_is_own {
        return None;
    }
    let ff = crate::position::file_to_u8(&from.file) as i32;
    let fr = crate::position::rank_to_u8(&from.rank) as i32;
    let tf = crate::position::file_to_u8(&to.file) as i32;
    let tr = crate::position::rank_to_u8(&to.rank) as i32;
    let fd = if tf >= ff {
        tf - ff
    } else {
        ff - tf
    };
    let rd = if tr >= fr {
        tr - fr
    } else {
        fr - tr
    };
    let dist = if fd >= rd {
        fd
    } else {
        rd
    };
    let reached = match piece.get_internal() {
        Piece::King { check_state: _, castling_state: _ } => dist == 1,
        Piece::Queen => {
            if ff == tf || fr == tr || fd == rd {
                crate::check::path_clear_exec(board, from, to)
            } else {
                false
            }
        },
        Piece::Rook => {
            if ff == tf || fr == tr {
                crate::check::path_clear_exec(board, from, to)
            } else {
                false
            }
        },
        Piece::Bishop => {
            if fd == rd {
                crate::check::path_clear_exec(board, from, to)
            } else {
                false
            }
        },
        Piece::Knight => (fd == 1 && rd == 2) || (fd == 2 && rd == 1),
        Piece::Pawn { state } => {
            let fwd: i32 = match piece {
                Color::White(_) => 1,
                Color::Black(_) => -1,
            };
            let rank_sign: i32 = if tr > fr {
                1
            } else if tr < fr {
                -1
            } else {
                0
            };
            let budget: i32 = match state {
                PawnState::FirstMove => 2,
                _ => 1,
            };
            if tf == ff && rank_sign == fwd && dist <= budget {
                crate::check::path_clear_exec(board, from, to)
            } else {
                false
            }
        },
    };
    if reached {
        if board.get(to).is_some() {
            Some(MoveType::Capture)
        } else {
            Some(MoveType::Move)
        }
    } else {
        None
    }
}

impl Color<Piece> {
    /// Returns the legality map of the piece's standard moves from a square:
    /// the destinations reached along its base vectors within its step
    /// budget, the candidates that would leave the mover's own king
    /// attacked filtered out.
    pub fn get_standard_valid_move(
        &self,
        board: &Board<Color<Piece>>,
        position: &BoardPosition,
        king_position: &BoardPosition,
        player_color: &Turn,
    ) -> (r: Board<MoveType>)
        ensures
            forall|to: BoardPosition|
                r@[position_index(to)] == crate::model::standard_move_at(
                    board@,
                    *self,
                    *position,
                    *king_position,
                    *player_color,
                    to,
                ),
    {
        let positions = crate::position::iter();
        let mut move_map: Board<MoveType> = Board::new();
        let mut i: usize = 0;
        while i < 64
            invariant
                i <= 64,
                positions@.len() == 64,
                forall|j: int|
                    0 <= j < 64 ==> #[trigger] positions@[j]
                        == crate::position::position_of_index(j),
                forall|j: int|
                    0 <= j < i ==> #[trigger] move_map@[j] == crate::model::standard_move_at(
                        board@,
                        *self,
                        *position,
                        *king_position,
                        *player_color,
                        crate::position::position_of_index(j),
                    ),
                forall|j: int| i <= j < 64 ==> #[trigger] move_map@[j] is None,
            decreases 64 - i,
        {
            let to = positions[i];
            proof {
                assert(position_index(to) == i);
            }
            match standard_candidate_exec(board, self, position, &to, player_color) {
                Some(move_type) => {
                    let mut test_board = *board;
                    test_board.set(&to, Some(*self));
                    test_board.set(position, None);
                    let king_square = if king_position == position {
                        to
                    } else {
                        *king_position
                    };
                    proof {
                        assert(test_board@ == crate::model::board_after_move(
                            board@,
                            *position,
                            to,
                            *self,
                        ));
                        assert(king_square == crate::model::king_square_after(
                            *position,
                            to,
                            *king_position,
                        ));
                    }
                    if !crate::check::is_in_check(&test_board, &king_square, player_color) {
                        move_map.set(&to, Some(move_type));
                    }
                },
                None => {},
            }
            i += 1;
        }
        proof {
            assert forall|to: BoardPosition|
                move_map@[position_index(to)] == crate::model::standard_move_at(
                    board@,
                    *self,
                    *position,
                    *king_position,
                    *player_color,
                    to,
                ) by {
                let j = position_index(to);
                assert(move_map@[j] == crate::model::standard_move_at(
                    board@,
                    *self,
                    *position,
                    *king_position,
                    *player_color,
                    crate::position::position_of_index(j),
                ));
            };
        }
        move_map
    }
}

/// Returns what the move vector evaluator records for a single square:
/// nothing when it holds the mover's own piece, a capture when it holds an
/// enemy piece, a plain move when it is empty.
pub fn check_square(
    board: &Board<Color<Piece>>,
    position: BoardPosition,
    player_color: &Turn,
) -> (r: Option<(BoardPosition, MoveType)>)
    ensures
        r == crate::model::square_step(board@, position, *player_color),
{
    match board.get(&position) {
        Some(piece) => {
            if piece.same_color(player_color) {
                None
            } else {
                Some((position, MoveType::Capture))
            }
        },
        None => Some((position, MoveType::Move)),
    }
}

/// Returns each square along a vector from a position, nearest first, up to
/// and including the first enemy piece, or up to the edge of the board or
/// the mover's own first piece (exclusive).
pub fn evaluate_vector(
    board: &Board<Color<Piece>>,
    base_vector: (i8, i8),
    number_of_steps: core::ops::Range<i8>,
    player_color: &Turn,
    position: &BoardPosition,
) -> (r: Vec<(BoardPosition, MoveType)>)
    ensures
        r@ == crate::model::eval_vector_seq(
            board@,
            base_vector.0 as int,
            base_vector.1 as int,
            number_of_steps.start as int,
            number_of_steps.end as int,
            *player_color,
            *position,
        ),
{
    let vf = base_vector.0 as i32;
    let vr = base_vector.1 as i32;
    let start = number_of_steps.start as i32;
    let end = number_of_steps.end as i32;
    let pf = crate::position::file_to_u8(&position.file) as i32;
    let pr = crate::position::rank_to_u8(&position.rank) as i32;
    let ghost full = crate::model::eval_vector_seq(
        board@,
        vf as int,
        vr as int,
        start as int,
        end as int,
        *player_color,
        *position,
    );
    let mut out: Vec<(BoardPosition, MoveType)> = Vec::new();
    let mut k: i32 = start;
    while k < end
        invariant
            start <= k,
            -128 <= start && end <= 128,
            -128 <= vf <= 127 && -128 <= vr <= 127,
            pf == crate::model::fi(*position) && pr == crate::model::ri(*position),
            full == crate::model::eval_vector_seq(
                board@,
                base_vector.0 as int,
                base_vector.1 as int,
                number_of_steps.start as int,
                number_of_steps.end as int,
                *player_color,
                *position,
            ),
            vf == base_vector.0 as int && vr == base_vector.1 as int,
            end == number_of_steps.end as int,
            full == out@ + crate::model::eval_vector_seq(
                board@,
                vf as int,
                vr as int,
                k as int,
                end as int,
                *player_color,
                *position,
            ),
        decreases end - k,
    {
        let ghost rest = crate::model::eval_vector_seq(
            board@,
            vf as int,
            vr as int,
            k as int,
            end as int,
            *player_color,
            *position,
        );
        proof {
            assert(-16384 <= vf * k <= 16384) by (nonlinear_arith)
                requires
                    -128 <= vf <= 127,
                    -128 <= k <= 128,
            ;
            assert(-16384 <= vr * k <= 16384) by (nonlinear_arith)
                requires
                    -128 <= vr <= 127,
                    -128 <= k <= 128,
            ;
        }
        let nf = pf + vf * k;
        let nr = pr + vr * k;
        if !(0 <= nf && nf < 8 && 0 <= nr && nr < 8) {
            proof {
                assert(crate::position::position_add(*position, vf * k, vr * k) is Err);
                assert(rest =~= Seq::empty());
                assert(full =~= out@);
            }
            return out;
        }
        let square = BoardPosition {
            file: crate::position::file_of_index(nf as u8),
            rank: crate::position::rank_of_index(nr as u8),
        };
        proof {
            assert(crate::position::position_add(*position, vf * k, vr * k) == Ok::<
                BoardPosition,
                crate::ChessError,
            >(square));
        }
        match check_square(board, square, player_color) {
            None => {
                proof {
                    assert(rest =~= Seq::empty());
                    assert(full =~= out@);
                }
                return out;
            },
            Some((q, MoveType::Capture)) => {
                out.push((q, MoveType::Capture));
                proof {
                    assert(rest =~= seq![(q, MoveType::Capture)]);
                    assert(full =~= out@);
                }
                return out;
            },
            Some((q, MoveType::Move)) => {
                out.push((q, MoveType::Move));
                proof {
                    assert(rest == seq![(q, MoveType::Move)] + crate::model::eval_vector_seq(
                        board@,
                        vf as int,
                        vr as int,
                        k as int + 1,
                        end as int,
                        *player_color,
                        *position,
                    ));
                    assert(full =~= out@ + crate::model::eval_vector_seq(
                        board@,
                        vf as int,
                        vr as int,
                        k as int + 1,
                        end as int,
                        *player_color,
                        *position,
                    ));
                }
            },
        }
        k += 1;
    }
    proof {
        assert(full =~= out@);
    }
    out
}

} // verus!
