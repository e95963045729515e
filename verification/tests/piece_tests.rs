use viktoe_chess::board::{Board, MoveType, Turn};
use viktoe_chess::piece::{check_square, evaluate_vector, Color, PawnState, Piece, StepCount};
use viktoe_chess::position::{BoardPosition, File, Rank};

fn white_queen() -> Color<Piece> {
    Color::White(Piece::Queen)
}

fn white_rook() -> Color<Piece> {
    Color::White(Piece::Rook)
}

fn black_queen() -> Color<Piece> {
    Color::Black(Piece::Queen)
}

fn black_rook() -> Color<Piece> {
    Color::Black(Piece::Rook)
}

fn new_black_pawn() -> Color<Piece> {
    Color::Black(Piece::Pawn { state: PawnState::FirstMove })
}

fn new_white_king() -> Color<Piece> {
    Color::White(Piece::King { check_state: None, castling_state: (true, true) })
}

#[test]
fn check_square_is_correct() {
    let mut board = Board::default();
    board.set(&(File::A, Rank::One).into(), Some(white_queen()));

    assert!(check_square(&board, (File::A, Rank::One).into(), &Turn::White).is_none());
    assert!(matches!(
        check_square(&board, (File::A, Rank::One).into(), &Turn::Black),
        Some((BoardPosition { file: File::A, rank: Rank::One }, MoveType::Capture))
    ));
    assert!(matches!(
        check_square(&board, (File::B, Rank::One).into(), &Turn::Black),
        Some((BoardPosition { file: File::B, rank: Rank::One }, MoveType::Move))
    ));
}

#[test]
fn evaluate_vector_is_correct() {
    let mut board = Board::default();
    board.set(&(File::A, Rank::One).into(), Some(white_queen()));
    board.set(&(File::A, Rank::Seven).into(), Some(new_black_pawn()));
    board.set(&(File::A, Rank::Eight).into(), Some(black_rook()));

    let vector = evaluate_vector(&board, (0, 1), 1..8, &Turn::White, &(File::A, Rank::One).into());

    assert!(matches!(
        vector.first().unwrap(),
        (BoardPosition { file: File::A, rank: Rank::Two }, MoveType::Move)
    ));
    assert!(matches!(
        vector.last().unwrap(),
        (BoardPosition { file: File::A, rank: Rank::Seven }, MoveType::Capture)
    ));
}

#[test]
fn get_standard_valid_move_is_correct() {
    let mut board = Board::default();

    board.set(&(File::D, Rank::Four).into(), Some(white_queen()));
    board.set(&(File::D, Rank::Eight).into(), Some(black_rook()));
    board.set(&(File::C, Rank::Four).into(), Some(black_rook()));

    let moves = white_queen().get_standard_valid_move(
        &board,
        &(File::D, Rank::Four).into(),
        &(File::E, Rank::One).into(),
        &Turn::White,
    );

    assert!(moves.get(&(File::D, Rank::Five).into()).is_some());
    assert!(moves.get(&(File::F, Rank::Five).into()).is_none());
    assert!(matches!(
        moves.get(&(File::D, Rank::Eight).into()),
        Some(MoveType::Capture)
    ));
    assert!(moves.get(&(File::B, Rank::Four).into()).is_none());
}

#[test]
fn get_standard_valid_move_handles_check() {
    let mut board = Board::default();

    board.set(&(File::D, Rank::Eight).into(), Some(black_queen()));
    board.set(&(File::D, Rank::One).into(), Some(new_white_king()));
    board.set(&(File::F, Rank::Three).into(), Some(white_rook()));

    let moves = white_rook().get_standard_valid_move(
        &board,
        &(File::F, Rank::Three).into(),
        &(File::D, Rank::One).into(),
        &Turn::White,
    );

    assert!(moves.get(&(File::E, Rank::Three).into()).is_none());
    assert!(moves.get(&(File::D, Rank::Three).into()).is_some());
}

#[test]
fn change_internal_works() {
    let mut piece = white_rook();
    piece.change_internal(Piece::Bishop);
    assert_eq!(*piece.get_internal(), Piece::Bishop);
}

#[test]
fn movement_data_matches_piece_kinds() {
    assert_eq!(
        Color::White(Piece::Knight).get_movement_base_vector(),
        vec![(-1, 2), (1, 2), (2, 1), (2, -1), (1, -2), (-1, -2), (-2, -1), (-2, 1)]
    );
    assert_eq!(
        Color::Black(Piece::Pawn { state: PawnState::Default }).get_movement_base_vector(),
        vec![(0, -1)]
    );
    assert_eq!(
        Color::White(Piece::Pawn { state: PawnState::Default }).get_movement_base_vector(),
        vec![(0, 1)]
    );
    assert_eq!(
        Color::White(Piece::Rook).get_movement_base_vector(),
        vec![(0, 1), (1, 0), (0, -1), (-1, 0)]
    );
    assert!(matches!(
        Color::White(Piece::Queen).get_number_of_moves(),
        StepCount::Infinty
    ));
    assert!(matches!(
        Color::White(Piece::Pawn { state: PawnState::FirstMove }).get_number_of_moves(),
        StepCount::Two
    ));
    assert!(matches!(
        Color::Black(Piece::Knight).get_number_of_moves(),
        StepCount::One
    ));
}

#[test]
fn evaluate_vector_includes_the_zero_step_on_an_empty_square() {
    let board: Board<Color<Piece>> = Board::default();
    let vector =
        evaluate_vector(&board, (0, 1), 0..2, &Turn::White, &(File::A, Rank::Three).into());
    assert_eq!(vector.len(), 2);
    assert!(matches!(
        vector[0],
        (BoardPosition { file: File::A, rank: Rank::Three }, MoveType::Move)
    ));
    assert!(matches!(
        vector[1],
        (BoardPosition { file: File::A, rank: Rank::Four }, MoveType::Move)
    ));

    let mut board = Board::default();
    board.set(&(File::A, Rank::Three).into(), Some(white_queen()));
    let vector =
        evaluate_vector(&board, (0, 1), 0..2, &Turn::White, &(File::A, Rank::Three).into());
    assert!(vector.is_empty());
}

#[test]
fn knight_jumps_in_every_direction() {
    let mut board = Board::default();
    board.set(&(File::D, Rank::Four).into(), Some(Color::White(Piece::Knight)));

    let moves = Color::White(Piece::Knight).get_standard_valid_move(
        &board,
        &(File::D, Rank::Four).into(),
        &(File::E, Rank::One).into(),
        &Turn::White,
    );

    let expected: [(File, Rank); 8] = [
        (File::C, Rank::Six),
        (File::E, Rank::Six),
        (File::F, Rank::Five),
        (File::F, Rank::Three),
        (File::E, Rank::Two),
        (File::C, Rank::Two),
        (File::B, Rank::Three),
        (File::B, Rank::Five),
    ];
    for square in expected {
        assert!(matches!(moves.get(&square.into()), Some(MoveType::Move)));
    }
    assert!(moves.get(&(File::D, Rank::Five).into()).is_none());
    assert!(moves.get(&(File::E, Rank::Five).into()).is_none());
}
