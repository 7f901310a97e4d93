use chess_tui::board::{Board, Coords};
use chess_tui::pieces::{PieceColor, PieceType};
use chess_tui::utils::is_getting_checked;

const E: Option<(PieceType, PieceColor)> = None;
const WK: Option<(PieceType, PieceColor)> = Some((PieceType::King, PieceColor::White));
const WQ: Option<(PieceType, PieceColor)> = Some((PieceType::Queen, PieceColor::White));
const WR: Option<(PieceType, PieceColor)> = Some((PieceType::Rook, PieceColor::White));
const WB: Option<(PieceType, PieceColor)> = Some((PieceType::Bishop, PieceColor::White));
const WN: Option<(PieceType, PieceColor)> = Some((PieceType::Knight, PieceColor::White));
const WP: Option<(PieceType, PieceColor)> = Some((PieceType::Pawn, PieceColor::White));
const BK: Option<(PieceType, PieceColor)> = Some((PieceType::King, PieceColor::Black));
const BQ: Option<(PieceType, PieceColor)> = Some((PieceType::Queen, PieceColor::Black));
const BR: Option<(PieceType, PieceColor)> = Some((PieceType::Rook, PieceColor::Black));
const BB: Option<(PieceType, PieceColor)> = Some((PieceType::Bishop, PieceColor::Black));
const BN: Option<(PieceType, PieceColor)> = Some((PieceType::Knight, PieceColor::Black));
const BP: Option<(PieceType, PieceColor)> = Some((PieceType::Pawn, PieceColor::Black));

#[test]
fn is_getting_checked_true() {
    let custom_board = [
        [E, E, E, E, E, E, E, E],
        [E, E, E, E, E, E, E, E],
        [E, E, E, E, E, E, E, E],
        [E, E, E, E, BR, E, E, E],
        [E, E, E, E, WK, E, E, E],
        [E, E, E, E, E, E, E, E],
        [E, E, E, E, E, E, E, E],
        [E, E, E, E, E, E, E, E],
    ];
    let mut board = Board::default();
    board.set_board(custom_board);

    assert!(is_getting_checked(custom_board, PieceColor::White, &vec![]));
}

#[test]
fn is_getting_checked_false() {
    let custom_board = [
        [E, E, E, E, E, E, E, E],
        [E, E, E, E, E, E, E, E],
        [E, E, E, E, BR, E, E, E],
        [E, E, E, E, WP, E, E, E],
        [E, E, E, E, WK, E, E, E],
        [E, E, E, E, E, E, E, E],
        [E, E, E, E, E, E, E, E],
        [E, E, E, E, E, E, E, E],
    ];
    let mut board = Board::default();
    board.set_board(custom_board);

    assert!(!is_getting_checked(custom_board, PieceColor::White, &vec![]));
}

#[test]
fn is_getting_checked_piece_in_front_false() {
    let custom_board = [
        [BR, BN, BB, BQ, BK, E, E, BR],
        [BP, BP, BP, BP, BP, BP, BP, BP],
        [E, E, E, E, E, E, E, E],
        [E, E, E, E, E, E, E, E],
        [E, E, E, E, E, E, E, E],
        [E, E, E, E, E, E, E, E],
        [WP, WP, WP, WP, E, WP, WP, WP],
        [WR, WN, WB, WQ, WR, WB, E, WK],
    ];
    let mut board = Board::default();
    board.set_board(custom_board);

    assert!(!is_getting_checked(custom_board, PieceColor::Black, &vec![]));
}

#[test]
fn is_getting_checked_piece_in_with_gap_false() {
    let custom_board = [
        [BR, BN, BB, BQ, BK, E, E, BR],
        [BP, BP, BP, BP, E, BP, BP, BP],
        [E, E, E, E, BP, E, E, E],
        [E, E, E, E, E, E, E, E],
        [E, E, E, E, E, E, E, E],
        [E, E, E, E, E, E, E, E],
        [WP, WP, WP, WP, E, WP, WP, WP],
        [WR, WN, WB, WQ, WR, WB, E, WK],
    ];
    let mut board = Board::default();
    board.set_board(custom_board);

    assert!(!is_getting_checked(custom_board, PieceColor::Black, &vec![]));
}

#[test]
fn is_checkmate_true() {
    let custom_board = [
        [WK, E, E, E, E, E, E, E],
        [E, E, E, E, E, E, E, E],
        [E, BR, E, E, E, E, E, E],
        [BQ, E, E, E, E, E, E, E],
        [E, E, E, E, E, E, E, E],
        [E, E, E, E, E, E, E, E],
        [E, E, E, E, E, E, E, E],
        [E, E, E, E, E, E, E, E],
    ];
    let board = Board::new(custom_board, PieceColor::White, vec![]);

    assert!(board.is_checkmate());
}

#[test]
fn is_checkmate_false() {
    let custom_board = [
        [WK, E, E, E, E, E, E, E],
        [E, E, E, E, E, E, E, E],
        [E, BR, E, E, E, E, E, E],
        [E, E, E, BQ, E, E, E, E],
        [E, E, E, E, E, E, E, E],
        [E, E, E, E, E, E, E, E],
        [E, E, E, E, E, E, E, E],
        [E, E, E, E, E, E, E, E],
    ];
    let board = Board::new(custom_board, PieceColor::White, vec![]);

    assert!(!board.is_checkmate());
}

#[test]
fn is_checkmate_false_2() {
    let custom_board = [
        [WK, E, E, E, E, E, E, E],
        [E, E, E, E, E, E, WQ, E],
        [E, BR, E, E, E, E, E, E],
        [BQ, E, E, E, E, E, E, E],
        [E, E, E, E, E, E, E, E],
        [E, E, E, E, E, E, E, E],
        [E, E, E, E, E, E, E, E],
        [E, E, E, E, E, E, E, E],
    ];
    let board = Board::new(custom_board, PieceColor::White, vec![]);

    assert!(!board.is_checkmate());
}

#[test]
fn is_draw_true() {
    let custom_board = [
        [WK, E, E, E, E, E, E, E],
        [E, E, BQ, E, E, E, E, E],
        [E, BR, E, E, E, E, E, E],
        [E, E, E, E, E, E, E, E],
        [E, E, E, E, E, E, E, E],
        [E, E, E, E, E, E, E, E],
        [E, E, E, E, E, E, E, E],
        [E, E, E, E, E, E, E, E],
    ];
    let board = Board::new(custom_board, PieceColor::White, vec![]);

    assert!(board.is_draw());
}

#[test]
fn is_draw_false() {
    let custom_board = [
        [WK, E, E, E, E, E, E, E],
        [E, E, E, E, BQ, E, E, E],
        [E, E, BR, E, E, E, E, E],
        [E, E, E, E, E, E, E, E],
        [E, E, E, E, E, E, E, E],
        [E, E, E, E, E, E, E, E],
        [E, E, E, E, E, E, E, E],
        [E, E, E, E, E, E, E, E],
    ];
    let board = Board::new(custom_board, PieceColor::White, vec![]);

    assert!(!board.is_draw());
}

#[test]
fn is_promote_false() {
    let custom_board = [
        [E, E, E, E, E, E, E, BK],
        [E, E, E, WR, E, E, E, E],
        [E, E, E, E, E, E, E, E],
        [E, E, E, E, E, E, E, E],
        [E, E, E, E, E, E, E, E],
        [E, E, E, E, E, E, E, E],
        [E, E, E, WP, E, E, E, E],
        [E, WK, E, E, E, E, E, E],
    ];
    let board = Board::new(
        custom_board,
        PieceColor::Black,
        vec![(PieceType::Pawn, "7363".to_string())],
    );

    assert!(!board.is_latest_move_promotion());
}

#[test]
fn is_promote_true() {
    let custom_board = [
        [E, E, E, E, WP, E, E, BK],
        [E, E, E, WR, E, E, E, E],
        [E, E, E, E, E, E, E, E],
        [E, E, E, E, E, E, E, E],
        [E, E, E, E, E, E, E, E],
        [E, E, E, E, E, E, E, E],
        [E, E, E, E, E, E, E, E],
        [E, WK, E, E, E, E, E, E],
    ];
    let board = Board::new(
        custom_board,
        PieceColor::Black,
        vec![(PieceType::Pawn, "1404".to_string())],
    );

    assert!(board.is_latest_move_promotion());
}

#[test]
fn promote_and_checkmate() {
    let custom_board = [
        [E, E, E, E, E, E, E, BK],
        [E, E, E, WR, WP, E, E, E],
        [E, E, E, E, E, E, E, E],
        [E, E, E, E, E, E, E, E],
        [E, E, E, E, E, E, E, E],
        [E, E, E, E, E, E, E, E],
        [E, E, E, E, E, E, E, E],
        [E, WK, E, E, E, E, E, E],
    ];
    let mut board = Board::new(custom_board, PieceColor::White, vec![]);
    assert!(!board.is_latest_move_promotion());

    board.move_piece(&Coords::new(1, 4), &Coords::new(0, 4));
    assert!(board.is_latest_move_promotion());

    board.promote_piece();

    board.player_turn = PieceColor::Black;
    assert!(board.is_checkmate());
}

#[test]
fn is_promote_true_black() {
    let custom_board = [
        [E, E, E, E, E, E, E, E],
        [E, E, E, E, E, E, E, E],
        [E, E, E, E, E, E, E, E],
        [E, E, E, E, E, E, E, E],
        [E, E, E, E, E, E, E, E],
        [E, BK, E, E, E, E, E, E],
        [E, E, E, BR, E, E, E, E],
        [E, E, E, E, BP, E, E, WK],
    ];
    let board = Board::new(
        custom_board,
        PieceColor::White,
        vec![(PieceType::Pawn, "6474".to_string())],
    );

    assert!(board.is_latest_move_promotion());
}

#[test]
fn promote_and_draw() {
    let custom_board = [
        [E, E, E, E, E, E, E, E],
        [E, E, E, E, E, E, BR, E],
        [E, E, E, E, E, E, E, E],
        [E, E, E, E, E, E, E, E],
        [E, E, E, E, E, E, E, E],
        [E, BK, E, E, E, E, E, E],
        [E, E, E, E, E, BP, E, WK],
        [E, E, E, E, E, E, E, E],
    ];
    let mut board = Board::new(custom_board, PieceColor::Black, vec![]);
    assert!(!board.is_latest_move_promotion());

    board.move_piece(&Coords::new(6, 5), &Coords::new(7, 5));
    assert!(board.is_latest_move_promotion());

    board.promote_piece();

    board.player_turn = PieceColor::White;
    assert!(board.is_draw());
}

#[test]
fn fifty_moves_draw() {
    let custom_board = [
        [E, E, E, E, E, E, E, E],
        [E, E, WK, E, E, E, BK, E],
        [E, E, E, E, E, E, E, E],
        [E, E, E, E, E, E, E, E],
        [E, E, E, E, E, E, E, E],
        [E, E, E, E, E, E, E, E],
        [E, E, E, E, E, E, E, E],
        [E, E, E, E, E, E, E, E],
    ];
    let mut board = Board::new(custom_board, PieceColor::White, vec![]);

    board.consecutive_non_pawn_or_capture = 49;
    assert!(!board.is_draw());

    board.move_piece(&Coords::new(0, 6), &Coords::new(0, 5));
    assert!(board.is_draw());
}

#[test]
fn consecutive_position_draw() {
    let custom_board = [
        [E, E, WK, E, E, E, BK, E],
        [E, E, E, E, E, E, E, E],
        [E, E, E, E, E, E, E, E],
        [E, E, E, E, E, E, E, E],
        [E, E, E, E, E, E, E, E],
        [E, E, E, E, E, E, E, E],
        [E, E, E, E, E, E, E, E],
        [E, E, E, E, E, E, E, E],
    ];
    let mut board = Board::new(
        custom_board,
        PieceColor::White,
        vec![
            (PieceType::King, "0201".to_string()),
            (PieceType::King, "0605".to_string()),
            (PieceType::King, "0102".to_string()),
            (PieceType::King, "0506".to_string()),
            (PieceType::King, "0201".to_string()),
            (PieceType::King, "0605".to_string()),
            (PieceType::King, "0102".to_string()),
            (PieceType::King, "0506".to_string()),
        ],
    );

    assert!(!board.is_draw());

    board.move_piece(&Coords::new(0, 2), &Coords::new(0, 1));
    assert!(board.is_draw());
}

#[test]
fn fen_converter_1() {
    let custom_board = [
        [E, E, BK, E, E, E, E, WR],
        [E, E, E, E, E, E, E, E],
        [E, E, E, E, WK, E, E, E],
        [E, E, E, E, E, E, E, E],
        [E, E, E, E, E, E, E, E],
        [E, E, E, E, E, E, E, E],
        [E, E, E, E, E, E, E, E],
        [E, E, E, E, E, E, E, E],
    ];
    let board = Board::new(custom_board, PieceColor::White, vec![]);

    assert_eq!(board.fen_position(), "2k4R/8/4K3/8/8/8/8/8 b - - 0 0");
}

#[test]
fn fen_converter_en_passant() {
    let custom_board = [
        [E, E, BK, E, E, E, E, WR],
        [E, E, E, E, E, E, E, E],
        [E, E, E, E, WK, E, E, E],
        [E, E, E, E, E, E, E, E],
        [E, E, WP, E, E, E, E, E],
        [E, E, E, E, E, E, E, E],
        [E, E, E, E, E, E, E, E],
        [E, E, E, E, E, E, E, E],
    ];
    let board = Board::new(
        custom_board,
        PieceColor::White,
        vec![(PieceType::Pawn, "6242".to_string())],
    );

    assert_eq!(board.fen_position(), "2k4R/8/4K3/8/2P5/8/8/8 b - c3 0 0");
}

#[test]
fn fen_converter_castling() {
    let custom_board = [
        [BR, BN, BB, BQ, BK, BB, BN, BR],
        [BP, BP, BP, BP, BP, BP, BP, BP],
        [E, E, E, E, E, E, E, E],
        [E, E, E, E, E, E, E, E],
        [E, E, E, E, E, E, E, E],
        [E, E, E, E, E, E, E, E],
        [WP, WP, WP, WP, WP, WP, WP, WP],
        [WR, WN, WB, WQ, WK, WB, WN, WR],
    ];
    let board = Board::new(custom_board, PieceColor::White, vec![]);

    assert_eq!(
        board.fen_position(),
        "rnbqkbnr/pppppppp/8/8/8/8/PPPPPPPP/RNBQKBNR b kq - 0 0"
    );
}

#[test]
fn takeback_basic() {
    let mut board = Board::default();
    board.move_piece(&Coords { col: 4, row: 6 }, &Coords { col: 4, row: 4 });
    assert_ne!(Board::default().board, board.board);
    board.takeback();
    assert_eq!(Board::default().board, board.board);
}

#[test]
fn auth_pos_0() {
    let board = Board::default();

    let auth_pos = board.get_authorized_positions(
        Some(PieceType::King),
        Some(PieceColor::White),
        &Coords { col: 4, row: 7 },
    );
    assert_eq!(0, auth_pos.len());
}

#[test]
fn fen_castle_queen_side_only() {
    // when only the queen side remains, the field holds just that letter
    let custom_board = [
        [BR, E, E, E, BK, E, E, E],
        [E, E, E, E, E, E, E, E],
        [E, E, E, E, E, E, E, E],
        [E, E, E, E, E, E, E, E],
        [E, E, E, E, E, E, E, E],
        [E, E, E, E, E, E, E, E],
        [E, E, E, E, E, E, E, E],
        [E, E, E, E, WK, E, E, E],
    ];
    let board = Board::new(
        custom_board,
        PieceColor::White,
        vec![(PieceType::Rook, "0717".to_string())],
    );
    assert_eq!(board.fen_position(), "r3k3/8/8/8/8/8/8/4K3 b q - 0 0");
}

#[test]
fn fen_castle_no_rights_writes_dash() {
    let custom_board = [
        [E, E, E, E, BK, E, E, E],
        [E, E, E, E, E, E, E, E],
        [E, E, E, E, E, E, E, E],
        [E, E, E, E, E, E, E, E],
        [E, E, E, E, E, E, E, E],
        [E, E, E, E, E, E, E, E],
        [E, E, E, E, E, E, E, E],
        [E, E, E, E, WK, E, E, E],
    ];
    let board = Board::new(
        custom_board,
        PieceColor::White,
        vec![
            (PieceType::Rook, "0717".to_string()),
            (PieceType::Rook, "0010".to_string()),
        ],
    );
    assert_eq!(board.fen_position(), "4k3/8/8/8/8/8/8/4K3 b - - 0 1");
}

#[test]
fn fen_en_passant_black_double_step() {
    // a black double step: the target is the passed-over square, rank 6
    let custom_board = [
        [E, E, BK, E, E, E, E, WR],
        [E, E, E, E, E, E, E, E],
        [E, E, E, E, WK, E, E, E],
        [E, E, E, BP, E, E, E, E],
        [E, E, E, E, E, E, E, E],
        [E, E, E, E, E, E, E, E],
        [E, E, E, E, E, E, E, E],
        [E, E, E, E, E, E, E, E],
    ];
    let board = Board::new(
        custom_board,
        PieceColor::White,
        vec![(PieceType::Pawn, "1333".to_string())],
    );
    assert_eq!(board.fen_position(), "2k4R/8/4K3/3p4/8/8/8/8 b - d6 0 0");
}

#[test]
fn takeback_restores_captured_piece_from_history() {
    let custom_board = [
        [E, E, E, E, BK, E, E, E],
        [E, E, E, E, E, E, E, E],
        [E, E, E, E, E, E, E, E],
        [E, E, E, BB, E, E, E, E],
        [E, E, E, E, E, E, E, E],
        [E, E, E, E, E, WR, E, E],
        [E, E, E, E, E, E, E, E],
        [E, E, E, E, WK, E, E, E],
    ];
    let history = vec![
        (PieceType::King, "0004".to_string()),
        (PieceType::Rook, "7555".to_string()),
    ];
    let mut board = Board::new(custom_board, PieceColor::Black, history);
    board.move_piece(&Coords::new(3, 3), &Coords::new(5, 5));
    board.switch_player_turn();
    assert_eq!(board.board[5][5], BB);
    board.takeback();
    assert_eq!(board.board[3][3], BB);
    assert_eq!(board.board[5][5], WR);
    assert_eq!(board.player_turn, PieceColor::Black);
}

#[test]
fn takeback_never_restores_from_the_first_record() {
    // the reconstruction scan does not reach the very first record, so a
    // capture of the piece it moved is not undone
    let custom_board = [
        [E, E, E, E, BK, E, E, E],
        [E, E, E, E, E, E, E, E],
        [E, E, E, E, E, E, E, E],
        [E, E, E, BB, E, E, E, E],
        [E, E, E, E, E, E, E, E],
        [E, E, E, E, E, WR, E, E],
        [E, E, E, E, E, E, E, E],
        [E, E, E, E, WK, E, E, E],
    ];
    let history = vec![(PieceType::Rook, "7555".to_string())];
    let mut board = Board::new(custom_board, PieceColor::Black, history);
    board.move_piece(&Coords::new(3, 3), &Coords::new(5, 5));
    board.switch_player_turn();
    board.takeback();
    assert_eq!(board.board[3][3], BB);
    assert_eq!(board.board[5][5], E);
}
