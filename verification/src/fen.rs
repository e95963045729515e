//! Importing a game from the piece-placement field of a FEN-like string:
//! ranks 8 down to 1, `/`-separated, digits for runs of empty squares,
//! letters for pieces with uppercase meaning White, followed by an
//! active-color field and the half- and full-move counters.
//!
//! Castling rights, en-passant eligibility and historical repetition counts
//! are not reconstructed by this import.

use vstd::prelude::*;
use vstd::string::StrSliceExecFns;

use crate::board::{Board, GameState, Turn};
use crate::model::BoardView;
use crate::piece::{Color, PawnState, Piece};
use crate::position::{position_index, position_of_index, BoardPosition, File, Rank};
use crate::{ChessError, ChessGame, GameView};

verus! {

broadcast use
    crate::position::lemma_position_index_bounds,
    crate::position::lemma_position_index_injective,
    crate::position::lemma_position_of_index_inverse,
    crate::position::lemma_position_index_of_index,
    crate::board::lemma_board_len,
;

/// Whether a character separates the fields of an import string.
pub open spec fn is_space(c: char) -> bool {
    c == ' ' || c == '\t' || c == '\n' || c == '\r'
}

/// How many characters the token starting at `i` runs for: up to the next
/// separator or the end of the text.
pub open spec fn token_length(s: Seq<char>, i: int) -> nat
    decreases s.len() - i,
{
    if i < 0 || i >= s.len() || is_space(s[i]) {
        0
    } else {
        1 + token_length(s, i + 1)
    }
}

/// The fields of the text from position `i` on: the maximal runs of
/// non-separator characters, in order.
pub open spec fn fields_from(s: Seq<char>, i: int) -> Seq<Seq<char>>
    decreases s.len() - i,
{
    if i < 0 || i >= s.len() {
        Seq::empty()
    } else if is_space(s[i]) {
        fields_from(s, i + 1)
    } else {
        let n = 1 + token_length(s, i + 1);
        let next = if i + n <= s.len() {
            i + n
        } else {
            s.len() as int
        };
        seq![s.subrange(i, next)] + fields_from(s, next)
    }
}

/// The piece a placement character stands for: uppercase is White,
/// lowercase is Black; kings come without castling rights and pawns in
/// their default state.
pub open spec fn fen_piece(c: char) -> Option<Color<Piece>> {
    if c == 'k' {
        Some(Color::Black(Piece::King { check_state: None, castling_state: (false, false) }))
    } else if c == 'q' {
        Some(Color::Black(Piece::Queen))
    } else if c == 'b' {
        Some(Color::Black(Piece::Bishop))
    } else if c == 'n' {
        Some(Color::Black(Piece::Knight))
    } else if c == 'r' {
        Some(Color::Black(Piece::Rook))
    } else if c == 'p' {
        Some(Color::Black(Piece::Pawn { state: PawnState::Default }))
    } else if c == 'K' {
        Some(Color::White(Piece::King { check_state: None, castling_state: (false, false) }))
    } else if c == 'Q' {
        Some(Color::White(Piece::Queen))
    } else if c == 'B' {
        Some(Color::White(Piece::Bishop))
    } else if c == 'N' {
        Some(Color::White(Piece::Knight))
    } else if c == 'R' {
        Some(Color::White(Piece::Rook))
    } else if c == 'P' {
        Some(Color::White(Piece::Pawn { state: PawnState::Default }))
    } else {
        None
    }
}

/// The length of the empty-square run a placement digit stands for, zero
/// for any other character.
pub open spec fn fen_digit_run(c: char) -> int {
    if c == '1' {
        1
    } else if c == '2' {
        2
    } else if c == '3' {
        3
    } else if c == '4' {
        4
    } else if c == '5' {
        5
    } else if c == '6' {
        6
    } else if c == '7' {
        7
    } else if c == '8' {
        8
    } else {
        0
    }
}

/// The board, white king square and black king square that the placement
/// characters from position `i` on produce, walking a cursor over the 64
/// squares: a rank separator checks that the ranks seen so far span whole
/// ranks of eight squares, a digit advances the cursor over empty squares,
/// a piece letter fills the square under the cursor, and any other
/// character - or a piece placed past the last square, or a misaligned
/// separator - is rejected.
pub open spec fn placed(
    s: Seq<char>,
    i: int,
    cursor: int,
    board: BoardView,
    white_king: BoardPosition,
    black_king: BoardPosition,
) -> Result<(BoardView, BoardPosition, BoardPosition), ChessError>
    decreases s.len() - i,
{
    if i < 0 || i >= s.len() {
        Ok((board, white_king, black_king))
    } else {
        let c = s[i];
        if c == '/' {
            if cursor % 8 == 0 {
                placed(s, i + 1, cursor, board, white_king, black_king)
            } else {
                Err(ChessError::IncorrectFenString)
            }
        } else if fen_digit_run(c) > 0 {
            let advanced = if cursor + fen_digit_run(c) <= 64 {
                cursor + fen_digit_run(c)
            } else {
                64
            };
            placed(s, i + 1, advanced, board, white_king, black_king)
        } else {
            match fen_piece(c) {
                None => Err(ChessError::IncorrectFenString),
                Some(piece) => if cursor >= 64 || cursor < 0 {
                    Err(ChessError::IncorrectFenString)
                } else {
                    let square = position_of_index(cursor);
                    placed(
                        s,
                        i + 1,
                        cursor + 1,
                        board.update(cursor, Some(piece)),
                        if c == 'K' {
                            square
                        } else {
                            white_king
                        },
                        if c == 'k' {
                            square
                        } else {
                            black_king
                        },
                    )
                },
            }
        }
    }
}

/// The value of a decimal digit, ten for any other character.
pub open spec fn digit_value(c: char) -> int {
    if c == '0' {
        0
    } else if c == '1' {
        1
    } else if c == '2' {
        2
    } else if c == '3' {
        3
    } else if c == '4' {
        4
    } else if c == '5' {
        5
    } else if c == '6' {
        6
    } else if c == '7' {
        7
    } else if c == '8' {
        8
    } else if c == '9' {
        9
    } else {
        10
    }
}

/// The number a run of decimal digits denotes.
pub open spec fn decimal_value(t: Seq<char>) -> int
    decreases t.len(),
{
    if t.len() == 0 {
        0
    } else {
        decimal_value(t.drop_last()) * 10 + digit_value(t.last())
    }
}

/// What parsing a counter field yields: the denoted number when the field
/// is a non-empty run of decimal digits denoting at most 255, rejection
/// otherwise.
pub open spec fn parsed_counter(t: Seq<char>) -> Result<u8, ChessError> {
    if t.len() >= 1 && (forall|j: int| 0 <= j < t.len() ==> digit_value(#[trigger] t[j]) < 10)
        && decimal_value(t) <= 255 {
        Ok(decimal_value(t) as u8)
    } else {
        Err(ChessError::IncorrectFenString)
    }
}

/// What parsing the active-color field yields.
pub open spec fn parsed_turn(t: Seq<char>) -> Result<Turn, ChessError> {
    if t == seq!['w'] {
        Ok(Turn::White)
    } else if t == seq!['b'] {
        Ok(Turn::Black)
    } else {
        Err(ChessError::IncorrectFenString)
    }
}

/// What importing a whole string yields: the placement, active-color and
/// counter fields each parsed, the state `Ongoing`, the king squares cached
/// where the placement put the kings (at their home squares when absent),
/// and no en-passant eligibility or history.  A text with fewer than six
/// fields, or any unrecognized character, is rejected.
pub open spec fn fen_parsed(s: Seq<char>) -> Result<GameView, ChessError> {
    let fields = fields_from(s, 0);
    if fields.len() < 6 {
        Err(ChessError::IncorrectFenString)
    } else {
        match placed(
            fields[0],
            0,
            0,
            crate::board::empty_board(),
            BoardPosition { file: File::E, rank: Rank::One },
            BoardPosition { file: File::E, rank: Rank::Eight },
        ) {
            Err(e) => Err(e),
            Ok((board, white_king, black_king)) => match parsed_turn(fields[1]) {
                Err(e) => Err(e),
                Ok(turn) => match (parsed_counter(fields[4]), parsed_counter(fields[5])) {
                    (Ok(half_move), Ok(full_move)) => Ok(
                        GameView {
                            board,
                            turn,
                            state: GameState::Ongoing,
                            white_king_position: white_king,
                            black_king_position: black_king,
                            en_passant: Seq::empty(),
                            half_move,
                            full_move,
                            white_history: Seq::empty(),
                            black_history: Seq::empty(),
                        },
                    ),
                    _ => Err(ChessError::IncorrectFenString),
                },
            },
        }
    }
}

/// A run of non-separator characters closed off by a separator or the end
/// of the text has its length as token length.
proof fn lemma_token_length_window(s: Seq<char>, a: int, b: int)
    requires
        0 <= a <= b <= s.len(),
        forall|j: int| a <= j < b ==> !is_space(#[trigger] s[j]),
        b == s.len() || is_space(s[b]),
    ensures
        token_length(s, a) == b - a,
    decreases b - a,
{
    if a < b {
        lemma_token_length_window(s, a + 1, b);
    }
}

/// Splits a text into its whitespace-separated fields.
fn split_fields(text: &str) -> (r: Vec<Vec<char>>)
    ensures
        r@.map_values(|t: Vec<char>| t@) == fields_from(text@, 0),
{
    let length = text.unicode_len();
    let mut out: Vec<Vec<char>> = Vec::new();
    proof {
        assert(fields_from(text@, 0) =~= out@.map_values(|t: Vec<char>| t@) + fields_from(
            text@,
            0,
        ));
    }
    let mut i: usize = 0;
    while i < length
        invariant
            i <= length,
            length == text@.len(),
            fields_from(text@, 0) == out@.map_values(|t: Vec<char>| t@) + fields_from(
                text@,
                i as int,
            ),
        decreases length - i,
    {
        let c = text.get_char(i);
        if c == ' ' || c == '\t' || c == '\n' || c == '\r' {
            i += 1;
        } else {
            let ghost start = i as int;
            let ghost seen = out@.map_values(|t: Vec<char>| t@);
            let mut token: Vec<char> = Vec::new();
            token.push(c);
            proof {
                assert(token@ =~= text@.subrange(start, start + 1));
            }
            i += 1;
            let mut ended = false;
            while i < length && !ended
                invariant
                    0 <= start < i <= length,
                    length == text@.len(),
                    token@ == text@.subrange(start, i as int),
                    forall|j: int| start <= j < i ==> !is_space(#[trigger] text@[j]),
                    ended ==> i < length && is_space(text@[i as int]),
                decreases length - i, 1 - (if ended {
                    1int
                } else {
                    0int
                }),
            {
                let c = text.get_char(i);
                if c == ' ' || c == '\t' || c == '\n' || c == '\r' {
                    ended = true;
                } else {
                    let ghost token_before = token@;
                    token.push(c);
                    proof {
                        assert(c == text@[i as int]);
                        assert(token@ == token_before.push(c));
                        assert(token_before == text@.subrange(start, i as int));
                        assert(token@ =~= text@.subrange(start, i as int + 1));
                    }
                    i += 1;
                }
            }
            proof {
                lemma_token_length_window(text@, start + 1, i as int);
                assert(fields_from(text@, start) == seq![text@.subrange(start, i as int)]
                    + fields_from(text@, i as int));
            }
            out.push(token);
            proof {
                assert(out@.map_values(|t: Vec<char>| t@) =~= seen + seq![
                    text@.subrange(start, i as int),
                ]);
                assert(seen + (seq![text@.subrange(start, i as int)] + fields_from(
                    text@,
                    i as int,
                )) =~= (seen + seq![text@.subrange(start, i as int)]) + fields_from(
                    text@,
                    i as int,
                ));
            }
        }
    }
    proof {
        assert(fields_from(text@, length as int) =~= Seq::<Seq<char>>::empty());
        assert(out@.map_values(|t: Vec<char>| t@) + Seq::<Seq<char>>::empty() =~= out@.map_values(
            |t: Vec<char>| t@,
        ));
    }
    out
}

impl ChessGame {
    /// Imports a game from the placement, active-color and move-counter
    /// fields of a FEN-like string, failing with `IncorrectFenString` on
    /// any unrecognized character or on a rank that does not span exactly
    /// eight squares.  Check state, castling rights, en-passant eligibility
    /// and repetition history are not reconstructed.
    pub fn from_fen(fen_string: String) -> (r: Result<Self, ChessError>)
        ensures
            match (r, fen_parsed(fen_string@)) {
                (Ok(game), Ok(view)) => game@ == view,
                (Err(actual), Err(expected)) => actual == expected,
                _ => false,
            },
    {
        let fields = split_fields(fen_string.as_str());
        if fields.len() < 6 {
            return Err(ChessError::IncorrectFenString);
        }
        let ghost placement = fields@.map_values(|t: Vec<char>| t@)[0];
        proof {
            assert(placement == fields@[0]@);
            assert(fields@.map_values(|t: Vec<char>| t@)[1] == fields@[1]@);
            assert(fields@.map_values(|t: Vec<char>| t@)[4] == fields@[4]@);
            assert(fields@.map_values(|t: Vec<char>| t@)[5] == fields@[5]@);
        }
        let board_field = &fields[0];
        let mut board: Board<Color<Piece>> = Board::new();
        let mut white_king = BoardPosition { file: File::E, rank: Rank::One };
        let mut black_king = BoardPosition { file: File::E, rank: Rank::Eight };
        let mut cursor: usize = 0;
        let mut i: usize = 0;
        while i < board_field.len()
            invariant
                i <= board_field@.len(),
                board_field@ == placement,
                cursor <= 64,
                board@.len() == 64,
                fields@.map_values(|t: Vec<char>| t@) == fields_from(fen_string@, 0),
                fields@.len() >= 6,
                placement == fields_from(fen_string@, 0)[0],
                placed(
                    placement,
                    0,
                    0,
                    crate::board::empty_board(),
                    BoardPosition { file: File::E, rank: Rank::One },
                    BoardPosition { file: File::E, rank: Rank::Eight },
                ) == placed(placement, i as int, cursor as int, board@, white_king, black_king),
            decreases board_field@.len() - i,
        {
            let c = board_field[i];
            if c == '/' {
                if cursor % 8 != 0 {
                    return Err(ChessError::IncorrectFenString);
                }
            } else if c == '1' || c == '2' || c == '3' || c == '4' || c == '5' || c == '6' || c
                == '7' || c == '8' {
                let run: usize = if c == '1' {
                    1
                } else if c == '2' {
                    2
                } else if c == '3' {
                    3
                } else if c == '4' {
                    4
                } else if c == '5' {
                    5
                } else if c == '6' {
                    6
                } else if c == '7' {
                    7
                } else {
                    8
                };
                cursor = if cursor + run <= 64 {
                    cursor + run
                } else {
                    64
                };
            } else {
                let piece: Color<Piece> = if c == 'k' {
                    Color::Black(Piece::King { check_state: None, castling_state: (false, false) })
                } else if c == 'q' {
                    Color::Black(Piece::Queen)
                } else if c == 'b' {
                    Color::Black(Piece::Bishop)
                } else if c == 'n' {
                    Color::Black(Piece::Knight)
                } else if c == 'r' {
                    Color::Black(Piece::Rook)
                } else if c == 'p' {
                    Color::Black(Piece::Pawn { state: PawnState::Default })
                } else if c == 'K' {
                    Color::White(Piece::King { check_state: None, castling_state: (false, false) })
                } else if c == 'Q' {
                    Color::White(Piece::Queen)
                } else if c == 'B' {
                    Color::White(Piece::Bishop)
                } else if c == 'N' {
                    Color::White(Piece::Knight)
                } else if c == 'R' {
                    Color::White(Piece::Rook)
                } else if c == 'P' {
                    Color::White(Piece::Pawn { state: PawnState::Default })
                } else {
                    return Err(ChessError::IncorrectFenString);
                };
                if cursor >= 64 {
                    return Err(ChessError::IncorrectFenString);
                }
                let column = (cursor % 8) as u8;
                let row = (cursor / 8) as u8;
                let square = BoardPosition {
                    file: crate::position::file_of_index(column),
                    rank: crate::position::rank_of_index(7 - row),
                };
                proof {
                    assert(square == position_of_index(cursor as int));
                    assert(position_index(square) == cursor as int);
                }
                board.set(&square, Some(piece));
                if c == 'K' {
                    white_king = square;
                }
                if c == 'k' {
                    black_king = square;
                }
                cursor += 1;
            }
            i += 1;
        }
        let ghost placed_result = placed(
            placement,
            0,
            0,
            crate::board::empty_board(),
            BoardPosition { file: File::E, rank: Rank::One },
            BoardPosition { file: File::E, rank: Rank::Eight },
        );
        proof {
            assert(placed_result == Ok::<(BoardView, BoardPosition, BoardPosition), ChessError>(
                (board@, white_king, black_king),
            ));
        }
        let turn_field = &fields[1];
        let turn = if turn_field.len() == 1 && turn_field[0] == 'w' {
            proof {
                assert(turn_field@ =~= seq!['w']);
            }
            Turn::White
        } else if turn_field.len() == 1 && turn_field[0] == 'b' {
            proof {
                assert(turn_field@ =~= seq!['b']);
            }
            Turn::Black
        } else {
            proof {
                assert(turn_field@ != seq!['w'] && turn_field@ != seq!['b']) by {
                    if turn_field@ == seq!['w'] || turn_field@ == seq!['b'] {
                        assert(turn_field@.len() == 1);
                    }
                };
            }
            return Err(ChessError::IncorrectFenString);
        };
        let half_move = match parse_counter(&fields[4]) {
            Ok(value) => value,
            Err(e) => {
                return Err(e);
            },
        };
        let full_move = match parse_counter(&fields[5]) {
            Ok(value) => value,
            Err(e) => {
                return Err(e);
            },
        };
        let game = ChessGame {
            board,
            turn,
            state: GameState::Ongoing,
            white_king_position: white_king,
            black_king_position: black_king,
            en_passant: Vec::new(),
            half_move,
            full_move,
            white_position_history: Vec::new(),
            black_position_history: Vec::new(),
        };
        proof {
            assert(game@.en_passant =~= Seq::<BoardPosition>::empty());
            assert(game@.white_history =~= Seq::<(BoardView, u8)>::empty());
            assert(game@.black_history =~= Seq::<(BoardView, u8)>::empty());
        }
        Ok(game)
    }
}

/// Parses a move counter: a non-empty run of decimal digits denoting at
/// most 255.
fn parse_counter(token: &Vec<char>) -> (r: Result<u8, ChessError>)
    ensures
        r == parsed_counter(token@),
{
    if token.len() == 0 {
        return Err(ChessError::IncorrectFenString);
    }
    let mut value: u32 = 0;
    let mut i: usize = 0;
    while i < token.len()
        invariant
            i <= token@.len(),
            value == decimal_value(token@.take(i as int)),
            value <= 255,
            forall|j: int| 0 <= j < i ==> digit_value(#[trigger] token@[j]) < 10,
        decreases token@.len() - i,
    {
        let c = token[i];
        let digit: u32 = if c == '0' {
            0
        } else if c == '1' {
            1
        } else if c == '2' {
            2
        } else if c == '3' {
            3
        } else if c == '4' {
            4
        } else if c == '5' {
            5
        } else if c == '6' {
            6
        } else if c == '7' {
            7
        } else if c == '8' {
            8
        } else if c == '9' {
            9
        } else {
            return Err(ChessError::IncorrectFenString);
        };
        let next = value * 10 + digit;
        proof {
            assert(token@.take(i as int + 1).drop_last() =~= token@.take(i as int));
            assert(token@.take(i as int + 1).last() == token@[i as int]);
        }
        if next > 255 {
            proof {
                lemma_decimal_value_extends(token@, i as int + 1);
            }
            return Err(ChessError::IncorrectFenString);
        }
        value = next;
        i += 1;
    }
    proof {
        assert(token@.take(token@.len() as int) =~= token@);
    }
    Ok(value as u8)
}

/// A decimal denotation only grows as digits are appended: once a prefix
/// already denotes more than 255, the whole run does too.
proof fn lemma_decimal_value_extends(t: Seq<char>, k: int)
    requires
        0 <= k <= t.len(),
        decimal_value(t.take(k)) > 255,
        forall|j: int| 0 <= j < k ==> digit_value(#[trigger] t[j]) < 10,
    ensures
        !(parsed_counter(t) is Ok),
    decreases t.len() - k,
{
    if k == t.len() {
        assert(t.take(k) =~= t);
    } else {
        if digit_value(t[k]) < 10 {
            assert(t.take(k + 1).drop_last() =~= t.take(k));
            assert(t.take(k + 1).last() == t[k]);
            assert(decimal_value(t.take(k)) >= 0);
            lemma_decimal_value_extends(t, k + 1);
        } else {
            assert(!(parsed_counter(t) is Ok));
        }
    }
}

} // verus!
