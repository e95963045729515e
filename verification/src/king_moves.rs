//! The king move generator: the standard one-step moves plus castling.

use vstd::prelude::*;

use crate::board::{Board, MoveType, Turn};
use crate::check::is_in_check;
use crate::model::{
    king_move_at, king_side_castle_ok, queen_side_castle_ok,
};
use crate::piece::{CastlingState, Color, Piece};
use crate::position::{position_at, position_index, BoardPosition, File, Rank};

verus! {

broadcast use
    crate::position::lemma_position_index_bounds,
    crate::position::lemma_position_index_injective,
    crate::board::lemma_board_len,
;

/// Returns the legality map of a king standing on a square: its standard
/// one-step moves, with the castling destinations added for each side whose
/// right is still held and whose conditions are met.
pub fn get_king_moves(
    board: &Board<Color<Piece>>,
    position: &BoardPosition,
    piece: &Color<Piece>,
    castling_state: &CastlingState,
    player_color: &Turn,
) -> (r: Board<MoveType>)
    ensures
        forall|to: BoardPosition|
            r@[position_index(to)] == king_move_at(
                board@,
                *piece,
                *position,
                *castling_state,
                *player_color,
                to,
            ),
{
    let mut move_map = piece.get_standard_valid_move(board, position, position, player_color);
    if castling_state.0 {
        get_king_side_castle(board, &mut move_map, piece, position);
    }
    if castling_state.1 {
        get_queen_side_castle(board, &mut move_map, piece, position);
    }
    proof {
        let r = crate::model::home_rank(crate::piece::color_of(*piece));
        let g_square = position_at(6, r);
        let b_square = position_at(1, r);
        assert forall|to: BoardPosition|
            move_map@[position_index(to)] == king_move_at(
                board@,
                *piece,
                *position,
                *castling_state,
                *player_color,
                to,
            ) by {
            assert(g_square != b_square);
        };
    }
    move_map
}

/// Adds the king-side castling destination (the `G` file of the king's home
/// rank) to a legality map when the path is empty and no square involved is
/// attacked.
fn get_king_side_castle(
    board: &Board<Color<Piece>>,
    move_map: &mut Board<MoveType>,
    piece: &Color<Piece>,
    position: &BoardPosition,
) -> (nothing: ())
    ensures
        final(move_map)@ == if king_side_castle_ok(board@, *piece, *position) {
            old(move_map)@.update(
                position_index(
                    position_at(6, crate::model::home_rank(crate::piece::color_of(*piece))),
                ),
                Some(MoveType::Move),
            )
        } else {
            old(move_map)@
        },
{
    let color = match piece {
        Color::White(_) => Turn::White,
        Color::Black(_) => Turn::Black,
    };
    let home = match color {
        Turn::White => Rank::One,
        Turn::Black => Rank::Eight,
    };
    let f_square = BoardPosition { file: File::F, rank: home };
    let g_square = BoardPosition { file: File::G, rank: home };
    if board.get(&f_square).is_some() {
        return ;
    }
    if board.get(&g_square).is_some() {
        return ;
    }
    if is_in_check(board, position, &color) {
        return ;
    }
    if is_in_check(board, &f_square, &color) {
        return ;
    }
    if is_in_check(board, &g_square, &color) {
        return ;
    }
    let mut test_board = *board;
    test_board.set(&g_square, Some(*piece));
    test_board.set(position, None);
    if is_in_check(&test_board, &g_square, &color) {
        return ;
    }
    move_map.set(&g_square, Some(MoveType::Move));
}

/// Adds the queen-side castling destination (the `B` file of the king's
/// home rank) to a legality map when the path is empty and no square
/// involved is attacked.
fn get_queen_side_castle(
    board: &Board<Color<Piece>>,
    move_map: &mut Board<MoveType>,
    piece: &Color<Piece>,
    position: &BoardPosition,
) -> (nothing: ())
    ensures
        final(move_map)@ == if queen_side_castle_ok(board@, *piece, *position) {
            old(move_map)@.update(
                position_index(
                    position_at(1, crate::model::home_rank(crate::piece::color_of(*piece))),
                ),
                Some(MoveType::Move),
            )
        } else {
            old(move_map)@
        },
{
    let color = match piece {
        Color::White(_) => Turn::White,
        Color::Black(_) => Turn::Black,
    };
    let home = match color {
        Turn::White => Rank::One,
        Turn::Black => Rank::Eight,
    };
    let b_square = BoardPosition { file: File::B, rank: home };
    let c_square = BoardPosition { file: File::C, rank: home };
    let d_square = BoardPosition { file: File::D, rank: home };
    if board.get(&b_square).is_some() {
        return ;
    }
    if board.get(&c_square).is_some() {
        return ;
    }
    if board.get(&d_square).is_some() {
        return ;
    }
    if is_in_check(board, position, &color) {
        return ;
    }
    if is_in_check(board, &d_square, &color) {
        return ;
    }
    if is_in_check(board, &c_square, &color) {
        return ;
    }
    if is_in_check(board, &b_square, &color) {
        return ;
    }
    let mut test_board = *board;
    test_board.set(&b_square, Some(*piece));
    test_board.set(position, None);
    if is_in_check(&test_board, &b_square, &color) {
        return ;
    }
    move_map.set(&b_square, Some(MoveType::Move));
}

} // verus!
