use chess_tui::board::{Board, Coords};
use chess_tui::pieces::bishop::Bishop;
use chess_tui::pieces::{PieceColor, PieceType};
use chess_tui::utils::is_getting_checked;

#[test]
fn piece_move_no_enemies() {
    let custom_board = [
        [None, None, None, None, None, None, None, None],
        [None, None, None, None, None, None, None, None],
        [None, None, None, None, None, None, None, None],
        [None, None, None, None, None, None, None, None],
        [
            None,
            None,
            None,
            None,
            Some((PieceType::Bishop, PieceColor::White)),
            None,
            None,
            None,
        ],
        [None, None, None, None, None, None, None, None],
        [None, None, None, None, None, None, None, None],
        [None, None, None, None, None, None, None, None],
    ];
    let mut board = Board::default();
    board.set_board(custom_board);

    let mut right_positions = vec![
        Coords::new(0, 0),
        Coords::new(1, 1),
        Coords::new(2, 2),
        Coords::new(3, 3),
        Coords::new(5, 5),
        Coords::new(6, 6),
        Coords::new(7, 7),
        Coords::new(1, 7),
        Coords::new(2, 6),
        Coords::new(3, 5),
        Coords::new(5, 3),
        Coords::new(6, 2),
        Coords::new(7, 1),
    ];
    right_positions.sort();

    let mut positions = Bishop::authorized_positions(
        &Coords::new(4, 4),
        PieceColor::White,
        board.board,
        &vec![],
        false,
    );
    positions.sort();

    assert_eq!(right_positions, positions);
}

#[test]
fn piece_move_one_enemies_top_right() {
    let custom_board = [
        [None, None, None, None, None, None, None, None],
        [None, None, None, None, None, None, None, None],
        [None, None, None, None, None, None, None, None],
        [
            None,
            None,
            None,
            None,
            None,
            Some((PieceType::Pawn, PieceColor::Black)),
            None,
            None,
        ],
        [
            None,
            None,
            None,
            None,
            Some((PieceType::Rook, PieceColor::White)),
            None,
            None,
            None,
        ],
        [None, None, None, None, None, None, None, None],
        [None, None, None, None, None, None, None, None],
        [None, None, None, None, None, None, None, None],
    ];
    let mut board = Board::default();
    board.set_board(custom_board);

    let mut right_positions = vec![
        Coords::new(0, 0),
        Coords::new(1, 1),
        Coords::new(2, 2),
        Coords::new(3, 3),
        Coords::new(5, 5),
        Coords::new(6, 6),
        Coords::new(7, 7),
        Coords::new(3, 5),
        Coords::new(5, 3),
        Coords::new(6, 2),
        Coords::new(7, 1),
    ];
    right_positions.sort();

    let mut positions = Bishop::authorized_positions(
        &Coords::new(4, 4),
        PieceColor::White,
        board.board,
        &vec![],
        false,
    );
    positions.sort();

    assert_eq!(right_positions, positions);
}

#[test]
fn piece_move_multiple_enemies_and_ally_front() {
    let custom_board = [
        [None, None, None, None, None, None, None, None],
        [None, None, None, None, None, None, None, None],
        [None, None, None, None, None, None, None, None],
        [
            None,
            None,
            None,
            Some((PieceType::Pawn, PieceColor::Black)),
            None,
            None,
            None,
            None,
        ],
        [
            None,
            None,
            None,
            None,
            Some((PieceType::Bishop, PieceColor::White)),
            None,
            None,
            None,
        ],
        [
            None,
            None,
            None,
            None,
            None,
            Some((PieceType::Pawn, PieceColor::Black)),
            None,
            None,
        ],
        [None, None, None, None, None, None, None, None],
        [
            None,
            Some((PieceType::Bishop, PieceColor::White)),
            None,
            None,
            None,
            None,
            None,
            None,
        ],
    ];
    let mut board = Board::default();
    board.set_board(custom_board);

    let mut right_positions = vec![
        Coords::new(3, 3),
        Coords::new(5, 5),
        Coords::new(3, 5),
        Coords::new(2, 6),
        Coords::new(1, 7),
        Coords::new(5, 3),
        Coords::new(6, 2),
    ];
    right_positions.sort();

    let mut positions = Bishop::authorized_positions(
        &Coords::new(4, 4),
        PieceColor::White,
        board.board,
        &vec![],
        false,
    );
    positions.sort();

    assert_eq!(right_positions, positions);
}

#[test]
fn bishop_king_checked_can_resolve() {
    let custom_board = [
        [None, None, None, None, None, None, None, None],
        [None, None, None, None, None, None, None, None],
        [
            None,
            None,
            Some((PieceType::King, PieceColor::Black)),
            None,
            None,
            None,
            None,
            None,
        ],
        [None, None, None, None, None, None, None, None],
        [
            None,
            None,
            None,
            None,
            Some((PieceType::Bishop, PieceColor::White)),
            None,
            None,
            None,
        ],
        [
            None,
            None,
            None,
            None,
            None,
            Some((PieceType::Bishop, PieceColor::Black)),
            None,
            None,
        ],
        [None, None, None, None, None, None, None, None],
        [None, None, None, None, None, None, None, None],
    ];
    let board = Board::new(custom_board, PieceColor::Black, vec![]);

    let is_king_checked = is_getting_checked(board.board, board.player_turn, &board.move_history);

    let mut right_positions = vec![Coords::new(4, 4)];
    right_positions.sort();

    let mut positions = Bishop::authorized_positions(
        &Coords::new(5, 5),
        PieceColor::Black,
        board.board,
        &vec![],
        is_king_checked,
    );
    positions.sort();

    assert_eq!(right_positions, positions);
}

#[test]
fn bishop_king_checked_cant_resolve() {
    let custom_board = [
        [None, None, None, None, None, None, None, None],
        [None, None, None, None, None, None, None, None],
        [
            None,
            None,
            Some((PieceType::King, PieceColor::Black)),
            None,
            None,
            None,
            None,
            None,
        ],
        [None, None, None, None, None, None, None, None],
        [
            None,
            None,
            None,
            None,
            Some((PieceType::Bishop, PieceColor::White)),
            None,
            None,
            None,
        ],
        [
            None,
            None,
            None,
            None,
            None,
            None,
            Some((PieceType::Bishop, PieceColor::Black)),
            None,
        ],
        [None, None, None, None, None, None, None, None],
        [None, None, None, None, None, None, None, None],
    ];
    let board = Board::new(custom_board, PieceColor::Black, vec![]);

    let is_king_checked = is_getting_checked(board.board, board.player_turn, &board.move_history);

    let right_positions: Vec<Coords> = vec![];

    let mut positions = Bishop::authorized_positions(
        &Coords::new(5, 6),
        PieceColor::Black,
        board.board,
        &vec![],
        is_king_checked,
    );
    positions.sort();

    assert_eq!(right_positions, positions);
}

#[test]
fn bishop_nailing() {
    let custom_board = [
        [
            None,
            None,
            None,
            None,
            Some((PieceType::King, PieceColor::Black)),
            None,
            None,
            None,
        ],
        [
            None,
            None,
            None,
            None,
            None,
            Some((PieceType::Bishop, PieceColor::Black)),
            None,
            None,
        ],
        [None, None, None, None, None, None, None, None],
        [
            None,
            None,
            None,
            None,
            None,
            None,
            None,
            Some((PieceType::Queen, PieceColor::White)),
        ],
        [None, None, None, None, None, None, None, None],
        [None, None, None, None, None, None, None, None],
        [None, None, None, None, None, None, None, None],
        [None, None, None, None, None, None, None, None],
    ];
    let board = Board::new(custom_board, PieceColor::Black, vec![]);

    let is_king_checked = is_getting_checked(board.board, board.player_turn, &board.move_history);

    let mut right_positions: Vec<Coords> = vec![Coords::new(2, 6), Coords::new(3, 7)];
    right_positions.sort();

    let mut positions = Bishop::authorized_positions(
        &Coords::new(1, 5),
        PieceColor::Black,
        board.board,
        &vec![],
        is_king_checked,
    );
    positions.sort();

    assert_eq!(right_positions, positions);
}
