//! The mathematical model of the rules: what it means for a square to be
//! attacked and for a destination to be a legal candidate, stated over board
//! views and positions.
//!
//! Every move-generating function of the engine is specified against the
//! functions of this module.

use vstd::prelude::*;

use crate::board::{MoveType, Turn};
use crate::piece::{color_of, internal_of, is_color, other_color, Color, PawnState, Piece};
use crate::position::{file_index, position_at, position_index, rank_index, BoardPosition};

verus! {

/// A piece placement, viewed as 64 optional colored pieces.
pub type BoardView = Seq<Option<Color<Piece>>>;

/// The content of the square a position names.
pub open spec fn sq(board: BoardView, p: BoardPosition) -> Option<Color<Piece>> {
    board[position_index(p)]
}

/// Whether the square a position names holds a piece of the given color.
pub open spec fn holds_color(board: BoardView, p: BoardPosition, color: Turn) -> bool {
    match sq(board, p) {
        Some(piece) => is_color(piece, color),
        None => false,
    }
}

/// The file ordinal of a position.
pub open spec fn fi(p: BoardPosition) -> int {
    file_index(p.file)
}

/// The rank ordinal of a position.
pub open spec fn ri(p: BoardPosition) -> int {
    rank_index(p.rank)
}

/// The sign of an integer: -1, 0 or 1.
pub open spec fn sign(a: int) -> int {
    if a > 0 {
        1
    } else if a < 0 {
        -1
    } else {
        0
    }
}

/// The absolute value of an integer.
pub open spec fn abs(a: int) -> int {
    if a >= 0 {
        a
    } else {
        -a
    }
}

/// An ordinal displaced `k` steps in direction `d` (with `d` a sign).
pub open spec fn stepped(a: int, d: int, k: int) -> int {
    if d > 0 {
        a + k
    } else if d < 0 {
        a - k
    } else {
        a
    }
}

/// The number of steps between two positions along a straight or diagonal
/// line: the larger coordinate distance.
pub open spec fn distance(p: BoardPosition, q: BoardPosition) -> int {
    let df = abs(fi(q) - fi(p));
    let dr = abs(ri(q) - ri(p));
    if df >= dr {
        df
    } else {
        dr
    }
}

/// Whether two distinct positions share a file or a rank.
pub open spec fn rook_aligned(p: BoardPosition, q: BoardPosition) -> bool {
    p != q && (fi(p) == fi(q) || ri(p) == ri(q))
}

/// Whether two distinct positions lie on a common diagonal.
pub open spec fn bishop_aligned(p: BoardPosition, q: BoardPosition) -> bool {
    p != q && abs(fi(q) - fi(p)) == abs(ri(q) - ri(p))
}

/// Whether two positions are a knight's jump apart.
pub open spec fn knight_jump(p: BoardPosition, q: BoardPosition) -> bool {
    let df = abs(fi(q) - fi(p));
    let dr = abs(ri(q) - ri(p));
    (df == 1 && dr == 2) || (df == 2 && dr == 1)
}

/// The square lying `k` steps from `p` towards `q` along their common line.
pub open spec fn between(p: BoardPosition, q: BoardPosition, k: int) -> BoardPosition
    recommends
        rook_aligned(p, q) || bishop_aligned(p, q),
        0 <= k <= distance(p, q),
{
    position_at(stepped(fi(p), sign(fi(q) - fi(p)), k), stepped(ri(p), sign(ri(q) - ri(p)), k))
}

/// Whether every square strictly between two aligned positions is empty.
pub open spec fn path_clear(board: BoardView, p: BoardPosition, q: BoardPosition) -> bool
    recommends
        rook_aligned(p, q) || bishop_aligned(p, q),
{
    forall|k: int| 1 <= k < distance(p, q) ==> sq(board, #[trigger] between(p, q, k)) is None
}

/// The rank direction a pawn of the given color advances in.
pub open spec fn forward(color: Turn) -> int {
    match color {
        Turn::White => 1,
        Turn::Black => -1,
    }
}

/// Whether the piece standing on `from` attacks the square `to`: the raw
/// attack squares of its kind, cut short at the first occupied square for
/// the sliding kinds.
///
/// A king attacks nothing here: the engine carries the known gap that
/// adjacency to the enemy king is not tested.
pub open spec fn piece_attacks(
    board: BoardView,
    attacker: Color<Piece>,
    from: BoardPosition,
    to: BoardPosition,
) -> bool {
    match internal_of(attacker) {
        Piece::Pawn { state: _ } => ri(to) - ri(from) == forward(color_of(attacker)) && abs(
            fi(to) - fi(from),
        ) == 1,
        Piece::Knight => knight_jump(from, to),
        Piece::Rook => rook_aligned(from, to) && path_clear(board, from, to),
        Piece::Bishop => bishop_aligned(from, to) && path_clear(board, from, to),
        Piece::Queen => (rook_aligned(from, to) || bishop_aligned(from, to)) && path_clear(
            board,
            from,
            to,
        ),
        Piece::King { check_state: _, castling_state: _ } => false,
    }
}

/// Whether the piece standing on `from` belongs to the opponent of
/// `defender` and attacks the square `to`.
pub open spec fn attacks_square(
    board: BoardView,
    from: BoardPosition,
    to: BoardPosition,
    defender: Turn,
) -> bool {
    match sq(board, from) {
        Some(piece) => is_color(piece, other_color(defender)) && piece_attacks(
            board,
            piece,
            from,
            to,
        ),
        None => false,
    }
}

/// Whether the square `target` is attacked by the opponent of `defender`:
/// some enemy piece stands on a square from which its raw attack squares,
/// blockers accounted for, include `target`.
pub open spec fn square_attacked(board: BoardView, target: BoardPosition, defender: Turn) -> bool {
    exists|from: BoardPosition| #[trigger] attacks_square(board, from, target, defender)
}

/// The board after a piece is hypothetically moved: the destination square
/// receives the piece, the origin square is vacated.
pub open spec fn board_after_move(
    board: BoardView,
    from: BoardPosition,
    to: BoardPosition,
    piece: Color<Piece>,
) -> BoardView {
    board.update(position_index(to), Some(piece)).update(position_index(from), None)
}

/// Where the mover's king stands after a hypothetical move: at the
/// destination when the king itself is the mover, else where it stood.
pub open spec fn king_square_after(
    from: BoardPosition,
    to: BoardPosition,
    king_position: BoardPosition,
) -> BoardPosition {
    if king_position == from {
        to
    } else {
        king_position
    }
}

/// The king-safety filter: whether hypothetically applying the move leaves
/// the mover's own king unattacked.
pub open spec fn move_is_safe(
    board: BoardView,
    piece: Color<Piece>,
    from: BoardPosition,
    to: BoardPosition,
    king_position: BoardPosition,
    player_color: Turn,
) -> bool {
    !square_attacked(
        board_after_move(board, from, to, piece),
        king_square_after(from, to, king_position),
        player_color,
    )
}

/// The step budget of a piece along one of its base vectors: one for king
/// and knight, two for a pawn still on its first move, one for any other
/// pawn, and the board width for the sliding pieces.
pub open spec fn step_budget(piece: Piece) -> int {
    match piece {
        Piece::King { check_state: _, castling_state: _ } => 1,
        Piece::Queen => 7,
        Piece::Rook => 7,
        Piece::Bishop => 7,
        Piece::Knight => 1,
        Piece::Pawn { state: PawnState::FirstMove } => 2,
        Piece::Pawn { state: _ } => 1,
    }
}

/// Whether the standard move generator reaches `to` from `from`: `to` lies
/// along one of the piece kind's base vectors within its step budget, every
/// square passed over is empty, and `to` does not hold the mover's own
/// piece.  A pawn here walks its forward vector only: the standard
/// generator knows nothing of diagonal pawn captures or en passant.
pub open spec fn standard_reach(
    board: BoardView,
    piece: Color<Piece>,
    from: BoardPosition,
    to: BoardPosition,
    player_color: Turn,
) -> bool {
    from != to && !holds_color(board, to, player_color) && match internal_of(piece) {
        Piece::King { check_state: _, castling_state: _ } => distance(from, to) == 1,
        Piece::Queen => (rook_aligned(from, to) || bishop_aligned(from, to)) && path_clear(
            board,
            from,
            to,
        ),
        Piece::Rook => rook_aligned(from, to) && path_clear(board, from, to),
        Piece::Bishop => bishop_aligned(from, to) && path_clear(board, from, to),
        Piece::Knight => knight_jump(from, to),
        Piece::Pawn { state: _ } => fi(to) == fi(from) && sign(ri(to) - ri(from)) == forward(
            color_of(piece),
        ) && distance(from, to) <= step_budget(internal_of(piece)) && path_clear(board, from, to),
    }
}

/// The candidate the standard move generator finds for the square `to`,
/// before king-safety filtering: a capture when `to` is reached and
/// occupied, a plain move when it is reached and empty.
pub open spec fn standard_candidate(
    board: BoardView,
    piece: Color<Piece>,
    from: BoardPosition,
    to: BoardPosition,
    player_color: Turn,
) -> Option<MoveType> {
    if standard_reach(board, piece, from, to, player_color) {
        if sq(board, to) is Some {
            Some(MoveType::Capture)
        } else {
            Some(MoveType::Move)
        }
    } else {
        None
    }
}

/// What the standard move generator records for the square `to`: the
/// candidate move type when there is one and the king-safety filter passes,
/// nothing otherwise.
pub open spec fn standard_move_at(
    board: BoardView,
    piece: Color<Piece>,
    from: BoardPosition,
    king_position: BoardPosition,
    player_color: Turn,
    to: BoardPosition,
) -> Option<MoveType> {
    let candidate = standard_candidate(board, piece, from, to, player_color);
    if candidate is Some && move_is_safe(board, piece, from, to, king_position, player_color) {
        candidate
    } else {
        None
    }
}

/// Whether the pawn move generator offers `to` as an en-passant capture:
/// `to` is a diagonally forward square, free of the mover's own pieces,
/// whose neighbour beside the pawn holds an enemy pawn capturable en
/// passant.
pub open spec fn en_passant_candidate(
    board: BoardView,
    piece: Color<Piece>,
    from: BoardPosition,
    to: BoardPosition,
) -> bool {
    let color = color_of(piece);
    abs(fi(to) - fi(from)) == 1 && ri(to) - ri(from) == forward(color) && !holds_color(
        board,
        to,
        color,
    ) && en_passant_beside(board, from, to, color)
}

/// The candidate the pawn move generator finds for the square `to`, before
/// king-safety filtering.
///
/// Reading the clauses in turn: a diagonally forward square beside an enemy
/// pawn capturable en passant is a capture (of that neighbour, even though
/// `to` itself is usually empty); a diagonally forward square holding an
/// enemy piece is a capture; the square one step forward, or two steps
/// forward on a pawn's first move, is a plain move as long as every square
/// involved is empty.
pub open spec fn pawn_candidate(
    board: BoardView,
    piece: Color<Piece>,
    from: BoardPosition,
    to: BoardPosition,
) -> Option<MoveType> {
    let color = color_of(piece);
    let fwd = forward(color);
    let diagonal = abs(fi(to) - fi(from)) == 1 && ri(to) - ri(from) == fwd;
    if en_passant_candidate(board, piece, from, to) {
        Some(MoveType::Capture)
    } else if diagonal && holds_color(board, to, other_color(color)) {
        Some(MoveType::Capture)
    } else if from != to && fi(to) == fi(from) && sign(ri(to) - ri(from)) == fwd && distance(
        from,
        to,
    ) <= step_budget(internal_of(piece)) && path_clear(board, from, to) && sq(board, to) is None {
        Some(MoveType::Move)
    } else {
        None
    }
}

/// The board against which a pawn candidate is tested for king safety: the
/// pawn lifted to `to` and the origin vacated, and, when the move is an
/// en-passant capture onto an empty square, the captured enemy pawn beside
/// the origin removed as well - exactly what applying the move does.
pub open spec fn pawn_scratch_board(
    board: BoardView,
    piece: Color<Piece>,
    from: BoardPosition,
    to: BoardPosition,
) -> BoardView {
    let moved = board_after_move(board, from, to, piece);
    if en_passant_candidate(board, piece, from, to) && sq(board, to) is None {
        moved.update(position_index(position_at(fi(to), ri(from))), None)
    } else {
        moved
    }
}

/// What the pawn move generator records for the square `to`: the candidate
/// when there is one and the king-safety filter passes.  The filter applies
/// the whole move, the en-passant victim's removal included.
pub open spec fn pawn_move_at(
    board: BoardView,
    piece: Color<Piece>,
    from: BoardPosition,
    king_position: BoardPosition,
    to: BoardPosition,
) -> Option<MoveType> {
    let candidate = pawn_candidate(board, piece, from, to);
    if candidate is Some && !square_attacked(
        pawn_scratch_board(board, piece, from, to),
        king_square_after(from, to, king_position),
        color_of(piece),
    ) {
        candidate
    } else {
        None
    }
}

/// Whether the square beside the pawn, on the pawn's own rank and on the
/// file of the diagonal destination `to`, holds an enemy pawn flagged as
/// capturable en passant.
pub open spec fn en_passant_beside(
    board: BoardView,
    from: BoardPosition,
    to: BoardPosition,
    color: Turn,
) -> bool {
    match sq(board, position_at(fi(to), ri(from))) {
        Some(neighbour) => is_color(neighbour, other_color(color)) && internal_of(neighbour)
            == (Piece::Pawn { state: PawnState::PosibleEnPassant }),
        None => false,
    }
}

/// How the move vector evaluator treats one square: excluded when it holds
/// the mover's own piece, a capture when it holds an enemy piece, a plain
/// move when it is empty.
pub open spec fn square_step(
    board: BoardView,
    position: BoardPosition,
    player_color: Turn,
) -> Option<(BoardPosition, MoveType)> {
    match sq(board, position) {
        Some(piece) => if is_color(piece, player_color) {
            None
        } else {
            Some((position, MoveType::Capture))
        },
        None => Some((position, MoveType::Move)),
    }
}

/// What the move vector evaluator produces when started at step `k` of
/// `end`: the squares `position + vector * k`, `position + vector * (k+1)`,
/// ... from nearest to farthest, stopping (exclusive) at the board edge or
/// the mover's own piece, and stopping inclusively at the first enemy
/// piece.
pub open spec fn eval_vector_seq(
    board: BoardView,
    vf: int,
    vr: int,
    k: int,
    end: int,
    player_color: Turn,
    position: BoardPosition,
) -> Seq<(BoardPosition, MoveType)>
    decreases end - k,
{
    if k >= end {
        Seq::empty()
    } else {
        match crate::position::position_add(position, vf * k, vr * k) {
            Err(_) => Seq::empty(),
            Ok(p) => match square_step(board, p, player_color) {
                None => Seq::empty(),
                Some((q, MoveType::Capture)) => seq![(q, MoveType::Capture)],
                Some((q, MoveType::Move)) => seq![(q, MoveType::Move)] + eval_vector_seq(
                    board,
                    vf,
                    vr,
                    k + 1,
                    end,
                    player_color,
                    position,
                ),
            },
        }
    }
}

/// The home rank of a color: where its king and rooks start.
pub open spec fn home_rank(color: Turn) -> int {
    match color {
        Turn::White => 0,
        Turn::Black => 7,
    }
}

/// Whether king-side castling is offered to the king standing on `from`:
/// the two squares between king and rook are empty; neither the king's
/// square, the square passed over, nor the destination is attacked; and the
/// hypothetical move passes the king-safety filter.
pub open spec fn king_side_castle_ok(
    board: BoardView,
    piece: Color<Piece>,
    from: BoardPosition,
) -> bool {
    let color = color_of(piece);
    let r = home_rank(color);
    let f_square = position_at(5, r);
    let g_square = position_at(6, r);
    sq(board, f_square) is None && sq(board, g_square) is None && !square_attacked(
        board,
        from,
        color,
    ) && !square_attacked(board, f_square, color) && !square_attacked(board, g_square, color)
        && move_is_safe(board, piece, from, g_square, from, color)
}

/// Whether queen-side castling is offered to the king standing on `from`:
/// the three squares between king and rook are empty; neither the king's
/// square, the squares passed over, nor the destination is attacked; and
/// the hypothetical move passes the king-safety filter.  The king's
/// destination is the `B` file.
pub open spec fn queen_side_castle_ok(
    board: BoardView,
    piece: Color<Piece>,
    from: BoardPosition,
) -> bool {
    let color = color_of(piece);
    let r = home_rank(color);
    let b_square = position_at(1, r);
    let c_square = position_at(2, r);
    let d_square = position_at(3, r);
    sq(board, b_square) is None && sq(board, c_square) is None && sq(board, d_square) is None
        && !square_attacked(board, from, color) && !square_attacked(board, d_square, color)
        && !square_attacked(board, c_square, color) && !square_attacked(board, b_square, color)
        && move_is_safe(board, piece, from, b_square, from, color)
}

/// What the king move generator records for the square `to`: the standard
/// one-step moves, with the castling destinations offered on top when the
/// corresponding right is held and castling is currently allowed.
pub open spec fn king_move_at(
    board: BoardView,
    piece: Color<Piece>,
    from: BoardPosition,
    castling_state: (bool, bool),
    player_color: Turn,
    to: BoardPosition,
) -> Option<MoveType> {
    let r = home_rank(color_of(piece));
    if to == position_at(6, r) && castling_state.0 && king_side_castle_ok(board, piece, from) {
        Some(MoveType::Move)
    } else if to == position_at(1, r) && castling_state.1 && queen_side_castle_ok(
        board,
        piece,
        from,
    ) {
        Some(MoveType::Move)
    } else {
        standard_move_at(board, piece, from, from, player_color, to)
    }
}

} // verus!
