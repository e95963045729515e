//! The attack detector: whether a square is attacked by a given color,
//! determined without generating legal-move sets, and proved to agree with
//! the declarative attack predicate of [`crate::model`].

use vstd::prelude::*;

use crate::board::{Board, Turn};
use crate::model::{
    attacks_square, between, bishop_aligned, distance, fi, path_clear, piece_attacks, ri,
    rook_aligned, sign, square_attacked, stepped,
};
use crate::piece::{is_color, other_color, Color, Piece};
use crate::position::{
    file_of_index, file_to_u8, position_at, position_index, rank_of_index, rank_to_u8,
    BoardPosition,
};

verus! {

broadcast use
    crate::position::lemma_position_index_bounds,
    crate::position::lemma_position_index_injective,
    crate::position::lemma_position_at_inverse,
    crate::board::lemma_board_len,
;

/// Returns whether every square strictly between two aligned positions is
/// empty.
#[verifier::rlimit(60)]
pub(crate) fn path_clear_exec(
    board: &Board<Color<Piece>>,
    p: &BoardPosition,
    q: &BoardPosition,
) -> (r: bool)
    requires
        rook_aligned(*p, *q) || bishop_aligned(*p, *q),
    ensures
        r == path_clear(board@, *p, *q),
{
    let pf = file_to_u8(&p.file) as i32;
    let pr = rank_to_u8(&p.rank) as i32;
    let qf = file_to_u8(&q.file) as i32;
    let qr = rank_to_u8(&q.rank) as i32;
    let df: i32 = if qf > pf {
        1
    } else if qf < pf {
        -1
    } else {
        0
    };
    let dr: i32 = if qr > pr {
        1
    } else if qr < pr {
        -1
    } else {
        0
    };
    let fd = if qf >= pf {
        qf - pf
    } else {
        pf - qf
    };
    let rd = if qr >= pr {
        qr - pr
    } else {
        pr - qr
    };
    let dist = if fd >= rd {
        fd
    } else {
        rd
    };
    proof {
        assert(dist == distance(*p, *q));
    }
    let mut k: i32 = 1;
    while k < dist
        invariant
            1 <= k <= 8,
            dist == distance(*p, *q),
            dist <= 7,
            pf == fi(*p) && pr == ri(*p) && qf == fi(*q) && qr == ri(*q),
            df == sign(fi(*q) - fi(*p)) && dr == sign(ri(*q) - ri(*p)),
            rook_aligned(*p, *q) || bishop_aligned(*p, *q),
            0 <= pf < 8 && 0 <= pr < 8 && 0 <= qf < 8 && 0 <= qr < 8,
            forall|j: int| 1 <= j < k ==> crate::model::sq(board@, #[trigger] between(*p, *q, j)) is None,
        decreases dist - k,
    {
        let cf = if df > 0 {
            pf + k
        } else if df < 0 {
            pf - k
        } else {
            pf
        };
        let cr = if dr > 0 {
            pr + k
        } else if dr < 0 {
            pr - k
        } else {
            pr
        };
        proof {
            assert(cf == stepped(fi(*p), sign(fi(*q) - fi(*p)), k as int));
            assert(cr == stepped(ri(*p), sign(ri(*q) - ri(*p)), k as int));
            assert(0 <= cf < 8 && 0 <= cr < 8);
        }
        let square = BoardPosition {
            file: file_of_index(cf as u8),
            rank: rank_of_index(cr as u8),
        };
        proof {
            assert(square == between(*p, *q, k as int));
        }
        if board.get(&square).is_some() {
            proof {
                assert(!path_clear(board@, *p, *q)) by {
                    assert(crate::model::sq(board@, between(*p, *q, k as int)) is Some);
                };
            }
            return false;
        }
        k += 1;
    }
    true
}

/// Returns whether the piece `attacker`, standing on `from`, attacks the
/// square `to`.
pub(crate) fn piece_attacks_exec(
    board: &Board<Color<Piece>>,
    attacker: &Color<Piece>,
    from: &BoardPosition,
    to: &BoardPosition,
) -> (r: bool)
    ensures
        r == piece_attacks(board@, *attacker, *from, *to),
{
    let ff = file_to_u8(&from.file) as i32;
    let fr = rank_to_u8(&from.rank) as i32;
    let tf = file_to_u8(&to.file) as i32;
    let tr = rank_to_u8(&to.rank) as i32;
    let fd = if tf >= ff {
        tf - ff
    } else {
        ff - tf
    };
    let rd = if tr >= fr {
        tr - fr
    } else {
        fr - tr
    };
    match attacker.get_internal() {
        Piece::Pawn { state: _ } => {
            let fwd: i32 = match attacker {
                Color::White(_) => 1,
                Color::Black(_) => -1,
            };
            tr - fr == fwd && fd == 1
        },
        Piece::Knight => (fd == 1 && rd == 2) || (fd == 2 && rd == 1),
        Piece::Rook => {
            if (ff != tf || fr != tr) && (ff == tf || fr == tr) {
                proof {
                    assert(rook_aligned(*from, *to));
                }
                path_clear_exec(board, from, to)
            } else {
                proof {
                    assert(!rook_aligned(*from, *to));
                }
                false
            }
        },
        Piece::Bishop => {
            if (ff != tf || fr != tr) && fd == rd {
                path_clear_exec(board, from, to)
            } else {
                false
            }
        },
        Piece::Queen => {
            if (ff != tf || fr != tr) && (ff == tf || fr == tr || fd == rd) {
                path_clear_exec(board, from, to)
            } else {
                false
            }
        },
        Piece::King { check_state: _, castling_state: _ } => false,
    }
}

/// Returns whether the king square (or any other given square) of
/// `player_color` is attacked by the opposing color.
///
/// The result is exactly the declarative attack predicate: some enemy piece
/// stands on a square whose raw attack squares, blockers accounted for,
/// include the given one.
pub fn is_in_check(
    board: &Board<Color<Piece>>,
    king_position: &BoardPosition,
    player_color: &Turn,
) -> (r: bool)
    ensures
        r == square_attacked(board@, *king_position, *player_color),
{
    let positions = crate::position::iter();
    let mut i: usize = 0;
    while i < 64
        invariant
            i <= 64,
            positions@.len() == 64,
            forall|j: int|
                0 <= j < 64 ==> #[trigger] positions@[j] == position_at(j % 8, 7 - j / 8),
            forall|p: BoardPosition|
                position_index(p) < i ==> !attacks_square(
                    board@,
                    p,
                    *king_position,
                    *player_color,
                ),
        decreases 64 - i,
    {
        let p = positions[i];
        proof {
            assert(position_index(p) == i);
        }
        match board.get(&p) {
            Some(piece) => {
                if !piece.same_color(player_color) {
                    if piece_attacks_exec(board, piece, &p, king_position) {
                        proof {
                            assert(is_color(*piece, other_color(*player_color)));
                            assert(attacks_square(board@, p, *king_position, *player_color));
                        }
                        return true;
                    }
                }
                proof {
                    assert(!attacks_square(board@, p, *king_position, *player_color));
                }
            },
            None => {
                proof {
                    assert(!attacks_square(board@, p, *king_position, *player_color));
                }
            },
        }
        i += 1;
    }
    proof {
        assert(!square_attacked(board@, *king_position, *player_color)) by {
            if square_attacked(board@, *king_position, *player_color) {
                let p = choose|p: BoardPosition|
                    attacks_square(board@, p, *king_position, *player_color);
                assert(position_index(p) < 64);
            }
        };
    }
    false
}

} // verus!
