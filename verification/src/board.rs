//! The board container: a fixed 64-slot mapping from position to an optional
//! occupant, reused both for piece placement and for move-legality maps.

use vstd::prelude::*;

use crate::piece::{Color, Piece};
use crate::position::{position_index, BoardPosition};

verus! {

/// The color whose turn it is to move.
#[derive(Debug, Clone, Copy, PartialEq, Eq, Structural)]
pub enum Turn {
    White,
    Black,
}

/// The phase a game is in after a move.
///
/// `Promotion` is a suspended phase: it carries the position of the pawn
/// awaiting promotion, the moved piece, and the move type recorded for the
/// move, and the turn does not advance until `promote_pawn` resolves it.
#[derive(Debug, Clone, Copy)]
pub enum GameState {
    Ongoing,
    Check,
    CheckMate,
    Draw,
    Promotion(BoardPosition, Color<Piece>, MoveType),
}

/// How a destination square is reached: onto an empty square, or capturing
/// an enemy piece (including a pawn captured en passant behind the
/// destination).
#[derive(Debug, Clone, Copy, PartialEq, Eq, Structural)]
pub enum MoveType {
    Move,
    Capture,
}

/// A mapping from each of the 64 squares of a chess board to an optional
/// value: a piece placement when `T` is a colored piece, a legality map when
/// `T` is a move type (an absent entry meaning "illegal").
///
/// Viewed as a sequence of 64 optional values, indexed by
/// [`position_index`].
#[verifier::reject_recursive_types(T)]
pub struct Board<T> {
    squares: [Option<T>; 64],
}

impl<T: Copy> Clone for Board<T> {
    /// An exact copy: every square keeps its content.
    fn clone(&self) -> (r: Self)
        ensures
            r@ == self@,
    {
        Board { squares: self.squares }
    }
}

impl<T: Copy> Copy for Board<T> {

}

impl<T> View for Board<T> {
    type V = Seq<Option<T>>;

    closed spec fn view(&self) -> Seq<Option<T>> {
        self.squares@
    }
}

impl<T> Board<T> {
    /// Returns a reference to the square at a position.
    pub fn get(&self, position: &BoardPosition) -> (r: &Option<T>)
        ensures
            r == self@[position_index(*position)],
    {
        proof {
            crate::position::lemma_position_index_bounds(*position);
        }
        vstd::array::array_index_get(&self.squares, crate::position::position_to_index(position))
    }

    /// Replaces the square at a position with the given value.
    pub fn set(&mut self, position: &BoardPosition, value: Option<T>)
        ensures
            final(self)@ == old(self)@.update(position_index(*position), value),
    {
        proof {
            crate::position::lemma_position_index_bounds(*position);
        }
        let i = crate::position::position_to_index(position);
        self.squares[i] = value;
    }
}

impl<T: Copy> Board<T> {
    /// The all-empty board.
    pub fn new() -> (r: Self)
        ensures
            r@ == empty_board::<T>(),
    {
        let squares = vstd::array::array_fill_for_copy_types::<Option<T>, 64>(None);
        proof {
            assert(squares@ =~= empty_board::<T>());
        }
        Board { squares }
    }
}

/// A board always views as exactly 64 squares.
pub broadcast proof fn lemma_board_len<T>(b: Board<T>)
    ensures
        (#[trigger] b@).len() == 64,
{
    broadcast use vstd::array::group_array_axioms;

}

/// The view of a board on which every square is empty.
pub open spec fn empty_board<T>() -> Seq<Option<T>> {
    Seq::new(64, |i: int| None::<T>)
}

impl<T: Copy> core::default::Default for Board<T> {
    /// The all-empty board.
    fn default() -> (r: Self)
        ensures
            r@ == empty_board::<T>(),
    {
        Board::new()
    }
}

} // verus!
