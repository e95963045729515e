use viktoe_chess::position::{iter, BoardPosition, File, Rank};
use viktoe_chess::ChessError;

#[test]
fn convertions_are_correct() {
    let pos: Vec<BoardPosition> = vec![
        (File::A, Rank::One).into(),
        (File::A, Rank::Two).into(),
        (File::A, Rank::Three).into(),
        (File::A, Rank::Four).into(),
        (File::A, Rank::Five).into(),
        (File::A, Rank::Six).into(),
        (File::A, Rank::Seven).into(),
        (File::A, Rank::Eight).into(),
    ];

    for (i, pos) in pos.iter().enumerate() {
        assert_eq!(*pos, BoardPosition::try_from((0, i as u8)).unwrap());
    }

    let pos: Vec<BoardPosition> = vec![
        (File::A, Rank::One).into(),
        (File::B, Rank::One).into(),
        (File::C, Rank::One).into(),
        (File::D, Rank::One).into(),
        (File::E, Rank::One).into(),
        (File::F, Rank::One).into(),
        (File::G, Rank::One).into(),
        (File::H, Rank::One).into(),
    ];

    for (i, pos) in pos.iter().enumerate() {
        assert_eq!(*pos, BoardPosition::try_from((i as u8, 0)).unwrap());
    }
}

#[test]
fn board_possition_iter() {
    assert_eq!(
        iter().into_iter().next().unwrap(),
        BoardPosition::from((File::A, Rank::Eight))
    );
    assert_eq!(
        iter().into_iter().last().unwrap(),
        BoardPosition::from((File::H, Rank::One))
    );
}

#[test]
fn add_stays_on_the_board() {
    let origin = BoardPosition::from((File::A, Rank::One));
    assert_eq!(origin.add((3, 2)).unwrap(), BoardPosition::from((File::D, Rank::Three)));
    assert!(matches!(origin.add((-1, 0)), Err(ChessError::OutOfBounds)));
    assert!(matches!(origin.add((0, -1)), Err(ChessError::OutOfBounds)));
    assert!(matches!(origin.add((8, 0)), Err(ChessError::OutOfBounds)));
    let corner = BoardPosition::from((File::H, Rank::Eight));
    assert!(matches!(corner.add((0, 1)), Err(ChessError::OutOfBounds)));
    assert_eq!(corner.add((-7, -7)).unwrap(), origin);
}

#[test]
fn try_from_rejects_out_of_range() {
    assert!(matches!(BoardPosition::try_from((8, 0)), Err(ChessError::OutOfBounds)));
    assert!(matches!(BoardPosition::try_from((0, 8)), Err(ChessError::OutOfBounds)));
    assert!(matches!(BoardPosition::try_from((7, 7)), Ok(_)));
}

#[test]
fn iter_visits_all_squares_once() {
    let squares = iter();
    assert_eq!(squares.len(), 64);
    for i in 0..64 {
        for j in 0..i {
            assert_ne!(squares[i], squares[j]);
        }
    }
}
