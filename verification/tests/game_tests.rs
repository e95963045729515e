use viktoe_chess::board::{GameState, MoveType, Turn};
use viktoe_chess::piece::{Color, Piece};
use viktoe_chess::position::{iter, BoardPosition, File, Rank};
use viktoe_chess::{ChessError, ChessGame};

fn shuffle_knights_once(game: &mut ChessGame) {
    game.move_piece(&(File::B, Rank::One).into(), &(File::A, Rank::Three).into())
        .unwrap();
    game.move_piece(&(File::B, Rank::Eight).into(), &(File::A, Rank::Six).into())
        .unwrap();
    game.move_piece(&(File::A, Rank::Three).into(), &(File::B, Rank::One).into())
        .unwrap();
    game.move_piece(&(File::A, Rank::Six).into(), &(File::B, Rank::Eight).into())
        .unwrap();
}

#[test]
fn en_passant_capture_moves_the_pawn_and_empties_the_square() {
    let mut game = ChessGame::default();

    game.move_piece(&(File::E, Rank::Two).into(), &(File::E, Rank::Four).into())
        .unwrap();
    game.move_piece(&(File::D, Rank::Seven).into(), &(File::D, Rank::Five).into())
        .unwrap();
    game.move_piece(&(File::E, Rank::Four).into(), &(File::E, Rank::Five).into())
        .unwrap();
    game.move_piece(&(File::F, Rank::Seven).into(), &(File::F, Rank::Five).into())
        .unwrap();
    game.move_piece(&(File::E, Rank::Five).into(), &(File::F, Rank::Six).into())
        .unwrap();

    assert!(game.get_square(&(File::F, Rank::Five).into()).is_none());
    assert!(matches!(
        game.get_square(&(File::F, Rank::Six).into()),
        Some(Color::White(Piece::Pawn { .. }))
    ));
    assert!(game.get_square(&(File::E, Rank::Five).into()).is_none());
}

#[test]
fn castling_places_king_and_rook() {
    let mut game = ChessGame::default();

    game.move_piece(&(File::E, Rank::Two).into(), &(File::E, Rank::Four).into())
        .unwrap();
    game.move_piece(&(File::A, Rank::Seven).into(), &(File::A, Rank::Six).into())
        .unwrap();
    game.move_piece(&(File::F, Rank::One).into(), &(File::D, Rank::Three).into())
        .unwrap();
    game.move_piece(&(File::A, Rank::Six).into(), &(File::A, Rank::Five).into())
        .unwrap();
    game.move_piece(&(File::G, Rank::One).into(), &(File::F, Rank::Three).into())
        .unwrap();
    game.move_piece(&(File::A, Rank::Five).into(), &(File::A, Rank::Four).into())
        .unwrap();
    game.move_piece(&(File::E, Rank::One).into(), &(File::G, Rank::One).into())
        .unwrap();

    assert!(matches!(
        game.get_square(&(File::G, Rank::One).into()),
        Some(Color::White(Piece::King { .. }))
    ));
    assert!(matches!(
        game.get_square(&(File::F, Rank::One).into()),
        Some(Color::White(Piece::Rook))
    ));
    assert!(game.get_square(&(File::E, Rank::One).into()).is_none());
    assert!(game.get_square(&(File::H, Rank::One).into()).is_none());
}

#[test]
fn castling_queen_side_places_king_and_rook() {
    let mut game = ChessGame::default();

    game.move_piece(&(File::D, Rank::Two).into(), &(File::D, Rank::Four).into())
        .unwrap();
    game.move_piece(&(File::H, Rank::Seven).into(), &(File::H, Rank::Six).into())
        .unwrap();
    game.move_piece(&(File::C, Rank::One).into(), &(File::F, Rank::Four).into())
        .unwrap();
    game.move_piece(&(File::H, Rank::Six).into(), &(File::H, Rank::Five).into())
        .unwrap();
    game.move_piece(&(File::D, Rank::One).into(), &(File::D, Rank::Three).into())
        .unwrap();
    game.move_piece(&(File::H, Rank::Five).into(), &(File::H, Rank::Four).into())
        .unwrap();
    game.move_piece(&(File::B, Rank::One).into(), &(File::A, Rank::Three).into())
        .unwrap();
    game.move_piece(&(File::H, Rank::Eight).into(), &(File::H, Rank::Six).into())
        .unwrap();
    game.move_piece(&(File::E, Rank::One).into(), &(File::B, Rank::One).into())
        .unwrap();

    assert!(matches!(
        game.get_square(&(File::B, Rank::One).into()),
        Some(Color::White(Piece::King { .. }))
    ));
    assert!(matches!(
        game.get_square(&(File::C, Rank::One).into()),
        Some(Color::White(Piece::Rook))
    ));
    assert!(game.get_square(&(File::A, Rank::One).into()).is_none());
    assert!(game.get_square(&(File::E, Rank::One).into()).is_none());
}

#[test]
fn a_blocked_pawn_cannot_step_forward() {
    let mut game = ChessGame::default();

    game.move_piece(&(File::G, Rank::One).into(), &(File::F, Rank::Three).into())
        .unwrap();
    game.move_piece(&(File::H, Rank::Seven).into(), &(File::H, Rank::Six).into())
        .unwrap();

    // The knight on f3 blocks the f-pawn entirely: neither the single nor
    // the double first-move step is offered.
    let moves = game.get_valid_moves(&(File::F, Rank::Two).into());
    assert!(moves.get(&(File::F, Rank::Three).into()).is_none());
    assert!(moves.get(&(File::F, Rank::Four).into()).is_none());
}

#[test]
fn moving_a_rook_away_and_back_revokes_one_side_only() {
    let mut game = ChessGame::default();

    game.move_piece(&(File::A, Rank::Two).into(), &(File::A, Rank::Four).into())
        .unwrap();
    game.move_piece(&(File::H, Rank::Seven).into(), &(File::H, Rank::Six).into())
        .unwrap();
    game.move_piece(&(File::A, Rank::One).into(), &(File::A, Rank::Three).into())
        .unwrap();
    game.move_piece(&(File::H, Rank::Six).into(), &(File::H, Rank::Five).into())
        .unwrap();
    game.move_piece(&(File::A, Rank::Three).into(), &(File::A, Rank::Two).into())
        .unwrap();

    let king = game
        .get_square(&(File::E, Rank::One).into())
        .as_ref()
        .unwrap()
        .get_internal();

    assert!(matches!(
        king,
        Piece::King { check_state: _, castling_state: (true, false) }
    ));
}

#[test]
fn hundred_quiet_half_moves_draw_the_game() {
    let mut game = ChessGame::default();

    for _ in 0..25 {
        shuffle_knights_once(&mut game);
    }

    assert!(matches!(game.get_game_state(), GameState::Draw));
}

#[test]
fn threefold_repetition_allows_a_draw_request() {
    let mut game = ChessGame::default();

    shuffle_knights_once(&mut game);
    shuffle_knights_once(&mut game);
    assert!(!game.request_draw_due_to_repeated_position());

    game.move_piece(&(File::B, Rank::One).into(), &(File::A, Rank::Three).into())
        .unwrap();
    assert!(game.request_draw_due_to_repeated_position());
}

#[test]
fn moving_a_shielding_piece_is_not_offered() {
    let game = ChessGame::from_fen(String::from("4r2k/8/8/8/4R3/8/8/4K3 w - - 0 0")).unwrap();

    let moves = game.get_valid_moves(&(File::E, Rank::Four).into());

    assert!(moves.get(&(File::A, Rank::Four).into()).is_none());
    assert!(moves.get(&(File::D, Rank::Four).into()).is_none());
    assert!(matches!(
        moves.get(&(File::E, Rank::Five).into()),
        Some(MoveType::Move)
    ));
    assert!(matches!(
        moves.get(&(File::E, Rank::Eight).into()),
        Some(MoveType::Capture)
    ));
}

#[test]
fn a_single_step_does_not_offer_en_passant() {
    let mut game = ChessGame::default();

    game.move_piece(&(File::E, Rank::Two).into(), &(File::E, Rank::Three).into())
        .unwrap();
    game.move_piece(&(File::D, Rank::Seven).into(), &(File::D, Rank::Five).into())
        .unwrap();
    game.move_piece(&(File::B, Rank::One).into(), &(File::C, Rank::Three).into())
        .unwrap();
    game.move_piece(&(File::D, Rank::Five).into(), &(File::D, Rank::Four).into())
        .unwrap();
    // The e-pawn is still in its first-move state, but e3-e4 spans one
    // rank only: it must not become capturable en passant.
    game.move_piece(&(File::E, Rank::Three).into(), &(File::E, Rank::Four).into())
        .unwrap();

    let moves = game.get_valid_moves(&(File::D, Rank::Four).into());
    assert!(moves.get(&(File::E, Rank::Three).into()).is_none());
    assert!(moves.get(&(File::D, Rank::Three).into()).is_some());
}

#[test]
fn en_passant_capture_must_not_expose_the_king() {
    let mut game = ChessGame::default();

    game.move_piece(&(File::E, Rank::Two).into(), &(File::E, Rank::Four).into())
        .unwrap();
    game.move_piece(&(File::A, Rank::Seven).into(), &(File::A, Rank::Five).into())
        .unwrap();
    game.move_piece(&(File::E, Rank::Four).into(), &(File::E, Rank::Five).into())
        .unwrap();
    game.move_piece(&(File::A, Rank::Eight).into(), &(File::A, Rank::Six).into())
        .unwrap();
    game.move_piece(&(File::E, Rank::One).into(), &(File::E, Rank::Two).into())
        .unwrap();
    game.move_piece(&(File::A, Rank::Five).into(), &(File::A, Rank::Four).into())
        .unwrap();
    game.move_piece(&(File::E, Rank::Two).into(), &(File::F, Rank::Three).into())
        .unwrap();
    game.move_piece(&(File::A, Rank::Six).into(), &(File::A, Rank::Five).into())
        .unwrap();
    game.move_piece(&(File::F, Rank::Three).into(), &(File::G, Rank::Four).into())
        .unwrap();
    game.move_piece(&(File::B, Rank::Seven).into(), &(File::B, Rank::Six).into())
        .unwrap();
    game.move_piece(&(File::G, Rank::Four).into(), &(File::H, Rank::Five).into())
        .unwrap();
    game.move_piece(&(File::D, Rank::Seven).into(), &(File::D, Rank::Five).into())
        .unwrap();

    // The black rook on a5 eyes the white king on h5 along the fifth rank,
    // shielded only by the black pawn that just double-stepped to d5 and
    // the white pawn on e5.  Capturing en passant would remove both
    // shields: the move must be filtered out.
    let moves = game.get_valid_moves(&(File::E, Rank::Five).into());
    assert!(moves.get(&(File::D, Rank::Six).into()).is_none());
    assert!(matches!(
        moves.get(&(File::E, Rank::Six).into()),
        Some(MoveType::Move)
    ));
}

#[test]
fn promotion_to_a_king_is_rejected() {
    let mut game = ChessGame::from_fen(String::from("k7/4P3/8/8/8/8/8/4K3 w - - 0 0")).unwrap();

    game.move_piece(&(File::E, Rank::Seven).into(), &(File::E, Rank::Eight).into())
        .unwrap();
    assert!(matches!(
        game.promote_pawn(Piece::King { check_state: None, castling_state: (true, true) }),
        Err(ChessError::InvalidMove)
    ));
    // The rejection leaves the promotion pending; resolving it with a
    // legitimate kind still succeeds.
    assert!(matches!(game.get_game_state(), GameState::Promotion(_, _, _)));
    assert!(game.promote_pawn(Piece::Queen).is_ok());
}

#[test]
fn a_rook_leaving_the_enemy_corner_keeps_the_movers_rights() {
    let mut game = ChessGame::default();

    game.move_piece(&(File::B, Rank::Two).into(), &(File::B, Rank::Four).into())
        .unwrap();
    game.move_piece(&(File::H, Rank::Seven).into(), &(File::H, Rank::Six).into())
        .unwrap();
    game.move_piece(&(File::B, Rank::Four).into(), &(File::B, Rank::Five).into())
        .unwrap();
    game.move_piece(&(File::H, Rank::Six).into(), &(File::H, Rank::Five).into())
        .unwrap();
    game.move_piece(&(File::B, Rank::Five).into(), &(File::B, Rank::Six).into())
        .unwrap();
    game.move_piece(&(File::H, Rank::Five).into(), &(File::H, Rank::Four).into())
        .unwrap();
    game.move_piece(&(File::B, Rank::Six).into(), &(File::A, Rank::Seven).into())
        .unwrap();
    game.move_piece(&(File::H, Rank::Four).into(), &(File::H, Rank::Three).into())
        .unwrap();
    game.move_piece(&(File::A, Rank::Seven).into(), &(File::B, Rank::Eight).into())
        .unwrap();
    game.promote_pawn(Piece::Rook).unwrap();
    game.move_piece(&(File::G, Rank::Seven).into(), &(File::G, Rank::Six).into())
        .unwrap();
    game.move_piece(&(File::B, Rank::Eight).into(), &(File::A, Rank::Eight).into())
        .unwrap();
    game.move_piece(&(File::G, Rank::Six).into(), &(File::G, Rank::Five).into())
        .unwrap();
    // The promoted white rook leaves a8 - Black's home corner, not
    // White's: White's own castling rights must survive untouched.
    game.move_piece(&(File::A, Rank::Eight).into(), &(File::A, Rank::Seven).into())
        .unwrap();

    let king = game
        .get_square(&(File::E, Rank::One).into())
        .as_ref()
        .unwrap()
        .get_internal();
    assert!(matches!(
        king,
        Piece::King { check_state: _, castling_state: (true, true) }
    ));
}

#[test]
fn valid_moves_are_identical_when_queried_twice() {
    let mut game = ChessGame::default();
    game.move_piece(&(File::E, Rank::Two).into(), &(File::E, Rank::Four).into())
        .unwrap();

    let origin: BoardPosition = (File::G, Rank::Eight).into();
    let first = game.get_valid_moves(&origin);
    let second = game.get_valid_moves(&origin);

    for square in iter() {
        assert_eq!(first.get(&square), second.get(&square));
    }
}

#[test]
fn promotion_suspends_the_turn_until_resolved() {
    let mut game = ChessGame::from_fen(String::from("k7/4P3/8/8/8/8/8/4K3 w - - 0 0")).unwrap();

    let state = game
        .move_piece(&(File::E, Rank::Seven).into(), &(File::E, Rank::Eight).into())
        .unwrap();
    assert!(matches!(state, GameState::Promotion(_, _, _)));
    assert!(matches!(game.get_player_turn(), Turn::White));

    // No further move may be applied while the promotion is pending.
    assert!(matches!(
        game.move_piece(&(File::E, Rank::One).into(), &(File::E, Rank::Two).into()),
        Err(ChessError::InvalidMove)
    ));

    let state = game.promote_pawn(Piece::Queen).unwrap();
    assert!(matches!(state, GameState::Check));
    assert!(matches!(
        game.get_square(&(File::E, Rank::Eight).into()),
        Some(Color::White(Piece::Queen))
    ));
    assert!(matches!(game.get_player_turn(), Turn::Black));
}

#[test]
fn promotion_outside_the_phase_is_rejected() {
    let mut game = ChessGame::default();
    assert!(matches!(
        game.promote_pawn(Piece::Queen),
        Err(ChessError::InvalidMove)
    ));
}

#[test]
fn errors_name_what_went_wrong() {
    let mut game = ChessGame::default();

    assert!(matches!(
        game.move_piece(&(File::E, Rank::Four).into(), &(File::E, Rank::Five).into()),
        Err(ChessError::NoPiece)
    ));
    assert!(matches!(
        game.move_piece(&(File::E, Rank::Seven).into(), &(File::E, Rank::Five).into()),
        Err(ChessError::NotYourPiece)
    ));
    assert!(matches!(
        game.move_piece(&(File::E, Rank::Two).into(), &(File::E, Rank::Five).into()),
        Err(ChessError::InvalidMove)
    ));
    // A rejected call leaves the game unchanged.
    assert!(matches!(game.get_player_turn(), Turn::White));
    assert!(matches!(
        game.get_square(&(File::E, Rank::Two).into()),
        Some(Color::White(Piece::Pawn { .. }))
    ));
}

#[test]
fn missing_king_on_the_cached_square_is_an_internal_error() {
    let mut game = ChessGame::from_fen(String::from("8/8/8/8/8/8/8/R7 w - - 0 0")).unwrap();

    assert!(matches!(
        game.move_piece(&(File::A, Rank::One).into(), &(File::A, Rank::Two).into()),
        Err(ChessError::InternalError)
    ));
}

#[test]
fn scholars_mate_is_detected() {
    let mut game = ChessGame::default();

    game.move_piece(&(File::E, Rank::Two).into(), &(File::E, Rank::Four).into())
        .unwrap();
    game.move_piece(&(File::E, Rank::Seven).into(), &(File::E, Rank::Five).into())
        .unwrap();
    game.move_piece(&(File::F, Rank::One).into(), &(File::C, Rank::Four).into())
        .unwrap();
    game.move_piece(&(File::B, Rank::Eight).into(), &(File::C, Rank::Six).into())
        .unwrap();
    game.move_piece(&(File::D, Rank::One).into(), &(File::H, Rank::Five).into())
        .unwrap();
    game.move_piece(&(File::G, Rank::Eight).into(), &(File::F, Rank::Six).into())
        .unwrap();
    let state = game
        .move_piece(&(File::H, Rank::Five).into(), &(File::F, Rank::Seven).into())
        .unwrap();

    assert!(matches!(state, GameState::CheckMate));
}

#[test]
fn a_block_or_capture_leaves_check_not_mate() {
    let mut game = ChessGame::default();

    game.move_piece(&(File::E, Rank::Two).into(), &(File::E, Rank::Four).into())
        .unwrap();
    game.move_piece(&(File::E, Rank::Seven).into(), &(File::E, Rank::Five).into())
        .unwrap();
    game.move_piece(&(File::D, Rank::One).into(), &(File::H, Rank::Five).into())
        .unwrap();
    game.move_piece(&(File::B, Rank::Eight).into(), &(File::C, Rank::Six).into())
        .unwrap();
    let state = game
        .move_piece(&(File::H, Rank::Five).into(), &(File::F, Rank::Seven).into())
        .unwrap();

    assert!(matches!(state, GameState::Check));
}
