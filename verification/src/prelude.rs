//! Convenient re-exports of the types a user of the engine touches most.

pub use crate::board::{Board, GameState, MoveType, Turn};
pub use crate::piece::{CheckState, Color, PawnState, Piece, StepCount};
pub use crate::position::{BoardPosition, File, Rank};
pub use crate::{ChessError, ChessGame};
