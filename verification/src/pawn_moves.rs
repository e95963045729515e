//! The pawn move generator: asymmetric forward steps, diagonal captures,
//! and en passant.

use vstd::prelude::*;

use crate::board::{Board, MoveType, Turn};
use crate::check::is_in_check;
use crate::model::{en_passant_candidate, pawn_candidate, pawn_move_at, pawn_scratch_board};
use crate::piece::{flip_color, Color, PawnState, Piece};
use crate::position::{position_index, BoardPosition};

verus! {

broadcast use
    crate::position::lemma_position_index_bounds,
    crate::position::lemma_position_index_injective,
    crate::position::lemma_position_at_inverse,
    crate::position::lemma_position_of_index_inverse,
    crate::position::lemma_position_index_of_index,
    crate::board::lemma_board_len,
;

/// Returns whether the pawn standing on `from` is offered `to` as an
/// en-passant capture.
fn en_passant_candidate_exec(
    board: &Board<Color<Piece>>,
    piece: &Color<Piece>,
    from: &BoardPosition,
    to: &BoardPosition,
) -> (r: bool)
    ensures
        r == en_passant_candidate(board@, *piece, *from, *to),
{
    let color = match piece {
        Color::White(_) => Turn::White,
        Color::Black(_) => Turn::Black,
    };
    let enemy = flip_color(&color);
    let fwd: i32 = match color {
        Turn::White => 1,
        Turn::Black => -1,
    };
    let ff = crate::position::file_to_u8(&from.file) as i32;
    let fr = crate::position::rank_to_u8(&from.rank) as i32;
    let tf = crate::position::file_to_u8(&to.file) as i32;
    let tr = crate::position::rank_to_u8(&to.rank) as i32;
    let fd = if tf >= ff {
        tf - ff
    } else {
        ff - tf
    };
    if !(fd == 1 && tr - fr == fwd) {
        return false;
    }
    let own_on_target = match board.get(to) {
        Some(occupant) => occupant.same_color(&color),
        None => false,
    };
    if own_on_target {
        return false;
    }
    let beside = BoardPosition { file: to.file, rank: from.rank };
    match board.get(&beside) {
        Some(neighbour) => neighbour.same_color(&enemy) && matches!(
            neighbour.get_internal(),
            Piece::Pawn { state: PawnState::PosibleEnPassant },
        ),
        None => false,
    }
}

/// Returns the candidate the pawn move generator finds for a single
/// destination square, before king-safety filtering.
fn pawn_candidate_exec(
    board: &Board<Color<Piece>>,
    piece: &Color<Piece>,
    from: &BoardPosition,
    to: &BoardPosition,
) -> (r: Option<MoveType>)
    ensures
        r == pawn_candidate(board@, *piece, *from, *to),
{
    let color = match piece {
        Color::White(_) => Turn::White,
        Color::Black(_) => Turn::Black,
    };
    let enemy = flip_color(&color);
    let fwd: i32 = match color {
        Turn::White => 1,
        Turn::Black => -1,
    };
    let ff = crate::position::file_to_u8(&from.file) as i32;
    let fr = crate::position::rank_to_u8(&from.rank) as i32;
    let tf = crate::position::file_to_u8(&to.file) as i32;
    let tr = crate::position::rank_to_u8(&to.rank) as i32;
    let fd = if tf >= ff {
        tf - ff
    } else {
        ff - tf
    };
    let rd = if tr >= fr {
        tr - fr
    } else {
        fr - tr
    };
    let diagonal = fd == 1 && tr - fr == fwd;
    if diagonal {
        if en_passant_candidate_exec(board, piece, from, to) {
            return Some(MoveType::Capture);
        }
        let enemy_on_target = match board.get(to) {
            Some(occupant) => occupant.same_color(&enemy),
            None => false,
        };
        if enemy_on_target {
            return Some(MoveType::Capture);
        }
        return None;
    }
    let rank_sign: i32 = if tr > fr {
        1
    } else if tr < fr {
        -1
    } else {
        0
    };
    let budget: i32 = match piece.get_internal() {
        Piece::King { check_state: _, castling_state: _ } => 1,
        Piece::Queen => 7,
        Piece::Rook => 7,
        Piece::Bishop => 7,
        Piece::Knight => 1,
        Piece::Pawn { state: PawnState::FirstMove } => 2,
        Piece::Pawn { state: _ } => 1,
    };
    let dist = if fd >= rd {
        fd
    } else {
        rd
    };
    if tf == ff && rank_sign == fwd && dist <= budget {
        if crate::check::path_clear_exec(board, from, to) && board.get(to).is_none() {
            Some(MoveType::Move)
        } else {
            None
        }
    } else {
        None
    }
}

/// Returns the legality map of a pawn standing on a square: forward steps
/// through empty squares, diagonal captures, and en passant, the candidates
/// that would leave the pawn's own king attacked filtered out.
pub fn get_pawn_moves(
    board: &Board<Color<Piece>>,
    position: &BoardPosition,
    piece: &Color<Piece>,
    king_position: &BoardPosition,
) -> (r: Board<MoveType>)
    ensures
        forall|to: BoardPosition|
            r@[position_index(to)] == pawn_move_at(board@, *piece, *position, *king_position, to),
{
    let color = match piece {
        Color::White(_) => Turn::White,
        Color::Black(_) => Turn::Black,
    };
    let positions = crate::position::iter();
    let mut move_map: Board<MoveType> = Board::new();
    let mut i: usize = 0;
    while i < 64
        invariant
            i <= 64,
            positions@.len() == 64,
            color == crate::piece::color_of(*piece),
            forall|j: int|
                0 <= j < 64 ==> #[trigger] positions@[j] == crate::position::position_of_index(j),
            forall|j: int|
                0 <= j < i ==> #[trigger] move_map@[j] == pawn_move_at(
                    board@,
                    *piece,
                    *position,
                    *king_position,
                    crate::position::position_of_index(j),
                ),
            forall|j: int| i <= j < 64 ==> #[trigger] move_map@[j] is None,
        decreases 64 - i,
    {
        let to = positions[i];
        proof {
            assert(position_index(to) == i);
        }
        match pawn_candidate_exec(board, piece, position, &to) {
            Some(move_type) => {
                let mut test_board = *board;
                test_board.set(&to, Some(*piece));
                test_board.set(position, None);
                // An en-passant capture also removes the enemy pawn beside
                // the origin: the filter must see the whole application.
                if en_passant_candidate_exec(board, piece, position, &to) && board.get(
                    &to,
                ).is_none() {
                    let beside = BoardPosition { file: to.file, rank: position.rank };
                    test_board.set(&beside, None);
                }
                let king_square = if king_position == position {
                    to
                } else {
                    *king_position
                };
                proof {
                    assert(test_board@ == pawn_scratch_board(board@, *piece, *position, to));
                    assert(king_square == crate::model::king_square_after(
                        *position,
                        to,
                        *king_position,
                    ));
                }
                if !is_in_check(&test_board, &king_square, &color) {
                    move_map.set(&to, Some(move_type));
                }
            },
            None => {},
        }
        i += 1;
    }
    proof {
        assert forall|to: BoardPosition|
            move_map@[position_index(to)] == pawn_move_at(
                board@,
                *piece,
                *position,
                *king_position,
                to,
            ) by {
            let j = position_index(to);
            assert(move_map@[j] == pawn_move_at(
                board@,
                *piece,
                *position,
                *king_position,
                crate::position::position_of_index(j),
            ));
        };
    }
    move_map
}

} // verus!
