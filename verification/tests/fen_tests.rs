use viktoe_chess::board::{Board, GameState, Turn};
use viktoe_chess::check::is_in_check;
use viktoe_chess::piece::{Color, PawnState, Piece};
use viktoe_chess::position::{iter, BoardPosition, File, Rank};
use viktoe_chess::{ChessError, ChessGame};

#[test]
fn from_fen_reads_the_starting_placement() {
    let game = ChessGame::from_fen(String::from(
        "rnbqkbnr/pppppppp/8/8/8/8/PPPPPPPP/RNBQKBNR w KQkq - 0 1",
    ))
    .unwrap();

    assert!(matches!(
        game.get_square(&(File::A, Rank::Eight).into()),
        Some(Color::Black(Piece::Rook))
    ));
    assert!(matches!(
        game.get_square(&(File::E, Rank::Eight).into()),
        Some(Color::Black(Piece::King { .. }))
    ));
    assert!(matches!(
        game.get_square(&(File::E, Rank::Seven).into()),
        Some(Color::Black(Piece::Pawn { state: PawnState::Default }))
    ));
    assert!(game.get_square(&(File::E, Rank::Four).into()).is_none());
    assert!(matches!(
        game.get_square(&(File::E, Rank::Two).into()),
        Some(Color::White(Piece::Pawn { state: PawnState::Default }))
    ));
    assert!(matches!(
        game.get_square(&(File::D, Rank::One).into()),
        Some(Color::White(Piece::Queen))
    ));
    assert!(matches!(game.get_player_turn(), Turn::White));
}

#[test]
fn from_fen_reads_the_active_color() {
    let game = ChessGame::from_fen(String::from("4k3/8/8/8/8/8/8/4K3 b - - 12 34")).unwrap();
    assert!(matches!(game.get_player_turn(), Turn::Black));
}

#[test]
fn from_fen_rejects_unknown_characters() {
    assert!(matches!(
        ChessGame::from_fen(String::from("rnbqkbnr/ppppXppp/8/8/8/8/PPPPPPPP/RNBQKBNR w KQkq - 0 1")),
        Err(ChessError::IncorrectFenString)
    ));
    assert!(matches!(
        ChessGame::from_fen(String::from("4k3/8/8/8/8/8/8/4K3 x - - 0 1")),
        Err(ChessError::IncorrectFenString)
    ));
    assert!(matches!(
        ChessGame::from_fen(String::from("4k3/8/8/8/8/8/8/4K3 w - - zero 1")),
        Err(ChessError::IncorrectFenString)
    ));
}

#[test]
fn from_fen_rejects_missing_fields() {
    assert!(matches!(
        ChessGame::from_fen(String::from("4k3/8/8/8/8/8/8/4K3 w")),
        Err(ChessError::IncorrectFenString)
    ));
    assert!(matches!(
        ChessGame::from_fen(String::from("")),
        Err(ChessError::IncorrectFenString)
    ));
}

#[test]
fn from_fen_rejects_counters_beyond_their_range() {
    assert!(matches!(
        ChessGame::from_fen(String::from("4k3/8/8/8/8/8/8/4K3 w - - 256 1")),
        Err(ChessError::IncorrectFenString)
    ));
}

#[test]
fn imported_half_move_clock_counts_toward_the_draw() {
    let mut game = ChessGame::from_fen(String::from("4k3/8/8/8/8/8/8/4K3 w - - 99 10")).unwrap();
    let state = game
        .move_piece(&(File::E, Rank::One).into(), &(File::E, Rank::Two).into())
        .unwrap();
    assert!(matches!(state, GameState::Draw));
}

#[test]
fn from_fen_rejects_an_overfull_placement() {
    assert!(matches!(
        ChessGame::from_fen(String::from("rnbqkbnr/pppppppp/8/8/8/8/PPPPPPPP/RNBQKBNRR w - - 0 1")),
        Err(ChessError::IncorrectFenString)
    ));
}

#[test]
fn from_fen_rejects_misaligned_ranks() {
    // The first rank spans nine squares.
    assert!(matches!(
        ChessGame::from_fen(String::from("ppp5p/pppppppp/8/8/8/8/8/4K3 w - - 0 1")),
        Err(ChessError::IncorrectFenString)
    ));
    // The first rank spans three squares.
    assert!(matches!(
        ChessGame::from_fen(String::from("ppp/8/8/8/8/8/8/4K3 w - - 0 1")),
        Err(ChessError::IncorrectFenString)
    ));
}

/// Recomputes, square by square, whether any enemy piece attacks `target`,
/// from each piece kind's raw attack squares.
fn brute_force_attacked(
    board: &Board<Color<Piece>>,
    target: &BoardPosition,
    defender: &Turn,
) -> bool {
    for origin in iter() {
        let piece = match board.get(&origin) {
            Some(piece) => piece,
            None => continue,
        };
        if piece.same_color(defender) {
            continue;
        }
        let attacked = match piece.get_internal() {
            Piece::Pawn { .. } => {
                let forward: i8 = match piece {
                    Color::White(_) => 1,
                    Color::Black(_) => -1,
                };
                [(-1, forward), (1, forward)]
                    .iter()
                    .any(|v| origin.add(*v).map(|p| p == *target).unwrap_or(false))
            }
            Piece::Knight => [
                (-1, 2),
                (1, 2),
                (2, 1),
                (2, -1),
                (1, -2),
                (-1, -2),
                (-2, -1),
                (-2, 1),
            ]
            .iter()
            .any(|v| origin.add(*v).map(|p| p == *target).unwrap_or(false)),
            Piece::Rook => rays_hit(board, &origin, target, &[(0, 1), (1, 0), (0, -1), (-1, 0)]),
            Piece::Bishop => rays_hit(board, &origin, target, &[(1, 1), (1, -1), (-1, -1), (-1, 1)]),
            Piece::Queen => rays_hit(
                board,
                &origin,
                target,
                &[(0, 1), (1, 1), (1, 0), (1, -1), (0, -1), (-1, -1), (-1, 0), (-1, 1)],
            ),
            // The engine carries the known gap that king adjacency is not
            // tested.
            Piece::King { .. } => false,
        };
        if attacked {
            return true;
        }
    }
    false
}

fn rays_hit(
    board: &Board<Color<Piece>>,
    origin: &BoardPosition,
    target: &BoardPosition,
    directions: &[(i8, i8)],
) -> bool {
    for direction in directions {
        let mut current = *origin;
        loop {
            match current.add(*direction) {
                Ok(next) => {
                    if next == *target {
                        return true;
                    }
                    if board.get(&next).is_some() {
                        break;
                    }
                    current = next;
                }
                Err(_) => break,
            }
        }
    }
    false
}

fn agree_on_every_square(game: &ChessGame) {
    // Rebuild the board from the public square accessor.
    let mut board: Board<Color<Piece>> = Board::default();
    for square in iter() {
        if let Some(piece) = game.get_square(&square) {
            board.set(&square, Some(*piece));
        }
    }
    for square in iter() {
        for color in [Turn::White, Turn::Black] {
            assert_eq!(
                is_in_check(&board, &square, &color),
                brute_force_attacked(&board, &square, &color),
            );
        }
    }
}

#[test]
fn attack_detection_agrees_with_brute_force() {
    agree_on_every_square(&ChessGame::default());

    let mid_game =
        ChessGame::from_fen(String::from("r1bqkb1r/pppp1ppp/2n2n2/4p2Q/2B1P3/8/PPPP1PPP/RNB1K1NR w - - 4 4"))
            .unwrap();
    agree_on_every_square(&mid_game);

    let rook_pin = ChessGame::from_fen(String::from("4r2k/8/8/8/4R3/8/8/4K3 w - - 0 0")).unwrap();
    agree_on_every_square(&rook_pin);

    let mut played = ChessGame::default();
    played
        .move_piece(&(File::E, Rank::Two).into(), &(File::E, Rank::Four).into())
        .unwrap();
    played
        .move_piece(&(File::D, Rank::Seven).into(), &(File::D, Rank::Five).into())
        .unwrap();
    agree_on_every_square(&played);
}
