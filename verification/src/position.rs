//! The coordinate system: files, ranks, and board positions, with the
//! bijective mapping onto linear board indices and bounds-checked vector
//! arithmetic.

use vstd::prelude::*;

use crate::ChessError;

verus! {

/// A column of the board, `A` through `H`.
#[derive(Debug, Clone, Copy, PartialEq, Eq, Hash, Structural)]
pub enum File {
    A,
    B,
    C,
    D,
    E,
    F,
    G,
    H,
}

/// A row of the board, `One` (White's home rank) through `Eight`.
#[derive(Debug, Clone, Copy, PartialEq, Eq, Hash, Structural)]
pub enum Rank {
    One,
    Two,
    Three,
    Four,
    Five,
    Six,
    Seven,
    Eight,
}

/// A valid position on a chess board: a (file, rank) pair.
#[derive(Debug, Clone, Copy, PartialEq, Eq, Hash, Structural)]
pub struct BoardPosition {
    pub file: File,
    pub rank: Rank,
}

/// The ordinal of a file: `A` is 0, `H` is 7.
pub open spec fn file_index(file: File) -> int {
    match file {
        File::A => 0,
        File::B => 1,
        File::C => 2,
        File::D => 3,
        File::E => 4,
        File::F => 5,
        File::G => 6,
        File::H => 7,
    }
}

/// The ordinal of a rank: `One` is 0, `Eight` is 7.
pub open spec fn rank_index(rank: Rank) -> int {
    match rank {
        Rank::One => 0,
        Rank::Two => 1,
        Rank::Three => 2,
        Rank::Four => 3,
        Rank::Five => 4,
        Rank::Six => 5,
        Rank::Seven => 6,
        Rank::Eight => 7,
    }
}

/// The file with the given ordinal.
pub open spec fn file_at(i: int) -> File
    recommends
        0 <= i < 8,
{
    if i == 0 {
        File::A
    } else if i == 1 {
        File::B
    } else if i == 2 {
        File::C
    } else if i == 3 {
        File::D
    } else if i == 4 {
        File::E
    } else if i == 5 {
        File::F
    } else if i == 6 {
        File::G
    } else {
        File::H
    }
}

/// The rank with the given ordinal.
pub open spec fn rank_at(i: int) -> Rank
    recommends
        0 <= i < 8,
{
    if i == 0 {
        Rank::One
    } else if i == 1 {
        Rank::Two
    } else if i == 2 {
        Rank::Three
    } else if i == 3 {
        Rank::Four
    } else if i == 4 {
        Rank::Five
    } else if i == 5 {
        Rank::Six
    } else if i == 6 {
        Rank::Seven
    } else {
        Rank::Eight
    }
}

/// The position whose file and rank have the given ordinals.
pub open spec fn position_at(f: int, r: int) -> BoardPosition
    recommends
        0 <= f < 8,
        0 <= r < 8,
{
    BoardPosition { file: file_at(f), rank: rank_at(r) }
}

/// The linear index a position occupies in board storage: rank `Eight` is
/// stored first, so the index is `file + (7 - rank) * 8`.
pub open spec fn position_index(position: BoardPosition) -> int {
    file_index(position.file) + (7 - rank_index(position.rank)) * 8
}

pub broadcast proof fn lemma_position_index_bounds(position: BoardPosition)
    ensures
        0 <= #[trigger] position_index(position) < 64,
{
}

/// The linear index determines the position: the storage mapping is
/// bijective.
pub broadcast proof fn lemma_position_index_injective(p: BoardPosition, q: BoardPosition)
    ensures
        #[trigger] position_index(p) == #[trigger] position_index(q) ==> p == q,
{
}

/// Round trips between a position and its ordinals.
pub broadcast proof fn lemma_position_at_inverse(p: BoardPosition)
    ensures
        #[trigger] position_at(file_index(p.file), rank_index(p.rank)) == p,
{
}

/// The position stored at a given linear index: the inverse of
/// [`position_index`].
pub open spec fn position_of_index(i: int) -> BoardPosition
    recommends
        0 <= i < 64,
{
    position_at(i % 8, 7 - i / 8)
}

/// Round trips between a position and its linear index.
pub broadcast proof fn lemma_position_of_index_inverse(p: BoardPosition)
    ensures
        #[trigger] position_of_index(position_index(p)) == p,
{
}

/// Round trips between a linear index and its position.
pub broadcast proof fn lemma_position_index_of_index(i: int)
    ensures
        0 <= i < 64 ==> position_index(#[trigger] position_of_index(i)) == i,
{
}

impl BoardPosition {
    /// Returns the file of the position.
    pub fn get_file(&self) -> (r: &File)
        ensures
            r == self.file,
    {
        &self.file
    }

    /// Returns the rank of the position.
    pub fn get_rank(&self) -> (r: &Rank)
        ensures
            r == self.rank,
    {
        &self.rank
    }

    /// Builds the position with the given (file, rank) ordinals, or fails
    /// with `OutOfBounds` when either ordinal is 8 or more.
    pub fn try_from(value: (u8, u8)) -> (r: Result<Self, ChessError>)
        ensures
            value.0 < 8 && value.1 < 8 ==> r == Ok::<Self, ChessError>(
                position_at(value.0 as int, value.1 as int),
            ),
            !(value.0 < 8 && value.1 < 8) ==> r == Err::<Self, ChessError>(ChessError::OutOfBounds),
    {
        if value.0 < 8 && value.1 < 8 {
            Ok(BoardPosition { file: file_of_index(value.0), rank: rank_of_index(value.1) })
        } else {
            Err(ChessError::OutOfBounds)
        }
    }

    /// Adds a signed (file, rank) vector to the position, failing with
    /// `OutOfBounds` when the result leaves the board instead of clamping or
    /// wrapping.
    pub fn add(&self, vector: (i8, i8)) -> (r: Result<Self, ChessError>)
        ensures
            r == position_add(*self, vector.0 as int, vector.1 as int),
    {
        let file: i32 = file_to_u8(&self.file) as i32 + vector.0 as i32;
        let rank: i32 = rank_to_u8(&self.rank) as i32 + vector.1 as i32;

        if 0 <= file && file < 8 && 0 <= rank && rank < 8 {
            Ok(BoardPosition { file: file_of_index(file as u8), rank: rank_of_index(rank as u8) })
        } else {
            Err(ChessError::OutOfBounds)
        }
    }
}

/// What `BoardPosition::add` returns: the displaced position when it is
/// still on the board, `OutOfBounds` otherwise.
pub open spec fn position_add(p: BoardPosition, df: int, dr: int) -> Result<
    BoardPosition,
    ChessError,
> {
    let f = file_index(p.file) + df;
    let r = rank_index(p.rank) + dr;
    if 0 <= f < 8 && 0 <= r < 8 {
        Ok(position_at(f, r))
    } else {
        Err(ChessError::OutOfBounds)
    }
}

/// Returns the ordinal of a file.
pub fn file_to_u8(file: &File) -> (r: u8)
    ensures
        r == file_index(*file),
{
    match file {
        File::A => 0,
        File::B => 1,
        File::C => 2,
        File::D => 3,
        File::E => 4,
        File::F => 5,
        File::G => 6,
        File::H => 7,
    }
}

/// Returns the ordinal of a rank.
pub fn rank_to_u8(rank: &Rank) -> (r: u8)
    ensures
        r == rank_index(*rank),
{
    match rank {
        Rank::One => 0,
        Rank::Two => 1,
        Rank::Three => 2,
        Rank::Four => 3,
        Rank::Five => 4,
        Rank::Six => 5,
        Rank::Seven => 6,
        Rank::Eight => 7,
    }
}

/// Returns the file with the given ordinal.
pub fn file_of_index(i: u8) -> (r: File)
    requires
        i < 8,
    ensures
        r == file_at(i as int),
{
    match i {
        0 => File::A,
        1 => File::B,
        2 => File::C,
        3 => File::D,
        4 => File::E,
        5 => File::F,
        6 => File::G,
        _ => File::H,
    }
}

/// Returns the rank with the given ordinal.
pub fn rank_of_index(i: u8) -> (r: Rank)
    requires
        i < 8,
    ensures
        r == rank_at(i as int),
{
    match i {
        0 => Rank::One,
        1 => Rank::Two,
        2 => Rank::Three,
        3 => Rank::Four,
        4 => Rank::Five,
        5 => Rank::Six,
        6 => Rank::Seven,
        _ => Rank::Eight,
    }
}

/// Returns the linear storage index of a position.
pub fn position_to_index(position: &BoardPosition) -> (r: usize)
    ensures
        r == position_index(*position),
{
    file_to_u8(&position.file) as usize + (7 - rank_to_u8(&position.rank) as usize) * 8
}

impl core::convert::From<(File, Rank)> for BoardPosition {
    /// Pairs a file and a rank into a position.
    fn from(value: (File, Rank)) -> (r: BoardPosition) {
        BoardPosition { file: value.0, rank: value.1 }
    }
}

impl vstd::std_specs::convert::FromSpecImpl<(File, Rank)> for BoardPosition {
    open spec fn obeys_from_spec() -> bool {
        true
    }

    open spec fn from_spec(value: (File, Rank)) -> BoardPosition {
        BoardPosition { file: value.0, rank: value.1 }
    }
}

/// Returns every square of the board, one position each, starting in the
/// top left: rank `Eight` first, files `A` through `H` within a rank.
pub fn iter() -> (r: Vec<BoardPosition>)
    ensures
        r@.len() == 64,
        forall|i: int|
            0 <= i < 64 ==> #[trigger] r@[i] == position_at(i % 8, 7 - i / 8),
        forall|p: BoardPosition| r@[position_index(p)] == p,
{
    let mut out: Vec<BoardPosition> = Vec::new();
    let mut row: u8 = 0;
    while row < 8
        invariant
            row <= 8,
            out@.len() == row * 8,
            forall|i: int|
                0 <= i < out@.len() ==> #[trigger] out@[i] == position_at(i % 8, 7 - i / 8),
        decreases 8 - row,
    {
        let mut col: u8 = 0;
        while col < 8
            invariant
                row < 8,
                col <= 8,
                out@.len() == row * 8 + col,
                forall|i: int|
                    0 <= i < out@.len() ==> #[trigger] out@[i] == position_at(i % 8, 7 - i / 8),
            decreases 8 - col,
        {
            out.push(BoardPosition { file: file_of_index(col), rank: rank_of_index(7 - row) });
            col += 1;
        }
        row += 1;
    }
    proof {
        assert forall|p: BoardPosition| out@[position_index(p)] == p by {
            lemma_position_index_bounds(p);
            let i = position_index(p);
            assert(out@[i] == position_at(i % 8, 7 - i / 8));
            assert(i % 8 == file_index(p.file) && 7 - i / 8 == rank_index(p.rank)) by {
                assert(i == file_index(p.file) + (7 - rank_index(p.rank)) * 8);
            };
            lemma_position_at_inverse(p);
        };
    }
    out
}

} // verus!
