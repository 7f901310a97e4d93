use chess_tui::board::{Board, Coords, FenError};
use chess_tui::pieces::king::King;
use chess_tui::pieces::knight::Knight;
use chess_tui::pieces::pawn::Pawn;
use chess_tui::pieces::queen::Queen;
use chess_tui::pieces::rook::Rook;
use chess_tui::pieces::{PieceColor, PieceType};
use chess_tui::utils::{convert_notation_into_position, convert_position_into_notation};

const E: Option<(PieceType, PieceColor)> = None;
const WK: Option<(PieceType, PieceColor)> = Some((PieceType::King, PieceColor::White));
const WR: Option<(PieceType, PieceColor)> = Some((PieceType::Rook, PieceColor::White));
const WP: Option<(PieceType, PieceColor)> = Some((PieceType::Pawn, PieceColor::White));
const BK: Option<(PieceType, PieceColor)> = Some((PieceType::King, PieceColor::Black));
const BP: Option<(PieceType, PieceColor)> = Some((PieceType::Pawn, PieceColor::Black));

fn empty_board() -> [[Option<(PieceType, PieceColor)>; 8]; 8] {
    [[E; 8]; 8]
}

#[test]
fn rook_empty_board_fourteen_squares() {
    let mut b = empty_board();
    b[4][4] = WR;
    let mut positions = Rook::piece_move(&Coords::new(4, 4), PieceColor::White, b, false, &vec![]);
    positions.sort();
    let mut expected = vec![];
    for i in 0..8i8 {
        if i != 4 {
            expected.push(Coords::new(i, 4));
            expected.push(Coords::new(4, i));
        }
    }
    expected.sort();
    assert_eq!(expected, positions);
}

#[test]
fn queen_empty_board_27_squares() {
    let mut b = empty_board();
    b[4][4] = Some((PieceType::Queen, PieceColor::White));
    let positions = Queen::piece_move(&Coords::new(4, 4), PieceColor::White, b, false, &vec![]);
    assert_eq!(27, positions.len());
}

#[test]
fn knight_corner_two_squares() {
    let mut b = empty_board();
    b[0][0] = Some((PieceType::Knight, PieceColor::White));
    let mut positions =
        Knight::piece_move(&Coords::new(0, 0), PieceColor::White, b, false, &vec![]);
    positions.sort();
    let mut expected = vec![Coords::new(1, 2), Coords::new(2, 1)];
    expected.sort();
    assert_eq!(expected, positions);
}

#[test]
fn pawn_initial_two_advances() {
    let mut b = empty_board();
    b[6][3] = WP;
    let mut positions = Pawn::piece_move(&Coords::new(6, 3), PieceColor::White, b, false, &vec![]);
    positions.sort();
    let mut expected = vec![Coords::new(5, 3), Coords::new(4, 3)];
    expected.sort();
    assert_eq!(expected, positions);
}

#[test]
fn pawn_en_passant_capture_offered() {
    // a black pawn just stepped two squares, landing beside the white pawn
    let mut b = empty_board();
    b[3][4] = WP;
    b[3][3] = BP;
    let history = vec![(PieceType::Pawn, "1333".to_string())];
    let mut positions =
        Pawn::piece_move(&Coords::new(3, 4), PieceColor::White, b, false, &history);
    positions.sort();
    let mut expected = vec![Coords::new(2, 4), Coords::new(2, 3)];
    expected.sort();
    assert_eq!(expected, positions);
}

#[test]
fn move_piece_en_passant_removes_pawn() {
    let mut b = empty_board();
    b[3][4] = WP;
    b[3][3] = BP;
    b[7][7] = WK;
    b[0][0] = BK;
    let mut board = Board::new(
        b,
        PieceColor::White,
        vec![(PieceType::Pawn, "1333".to_string())],
    );
    board.move_piece(&Coords::new(3, 4), &Coords::new(2, 3));
    assert_eq!(board.board[2][3], WP);
    assert_eq!(board.board[3][3], E);
    assert_eq!(board.board[3][4], E);
}

#[test]
fn king_cannot_step_along_attacking_ray() {
    // the rook sees through the king: the square behind it stays unsafe
    let mut b = empty_board();
    b[4][4] = BK;
    b[4][0] = WR;
    let board = Board::new(b, PieceColor::Black, vec![]);
    let positions = King::authorized_positions(
        &Coords::new(4, 4),
        PieceColor::Black,
        board.board,
        &vec![],
        true,
    );
    assert!(!positions.contains(&Coords::new(4, 5)));
    assert!(!positions.contains(&Coords::new(4, 3)));
    assert!(positions.contains(&Coords::new(3, 4)));
    assert!(positions.contains(&Coords::new(5, 5)));
}

#[test]
fn castling_offered_and_applied() {
    let mut b = empty_board();
    b[7][4] = WK;
    b[7][7] = WR;
    b[0][0] = BK;
    let mut board = Board::new(b, PieceColor::White, vec![]);
    let positions = King::authorized_positions(
        &Coords::new(7, 4),
        PieceColor::White,
        board.board,
        &vec![],
        false,
    );
    // the castling candidate is reported as the rook's square
    assert!(positions.contains(&Coords::new(7, 7)));
    board.move_piece(&Coords::new(7, 4), &Coords::new(7, 7));
    assert_eq!(board.board[7][6], WK);
    assert_eq!(board.board[7][5], WR);
    assert_eq!(board.board[7][4], E);
    assert_eq!(board.board[7][7], E);
    // the record keeps the king's landing column
    assert_eq!(board.move_history[0].1, "7476".to_string());
}

#[test]
fn castling_refused_through_attacked_square() {
    let mut b = empty_board();
    b[7][4] = WK;
    b[7][7] = WR;
    b[0][5] = Some((PieceType::Rook, PieceColor::Black));
    b[0][0] = BK;
    let board = Board::new(b, PieceColor::White, vec![]);
    let positions = King::authorized_positions(
        &Coords::new(7, 4),
        PieceColor::White,
        board.board,
        &vec![],
        false,
    );
    assert!(!positions.contains(&Coords::new(7, 7)));
}

#[test]
fn castling_refused_after_rook_moved() {
    let mut b = empty_board();
    b[7][4] = WK;
    b[7][7] = WR;
    b[0][0] = BK;
    let history = vec![
        (PieceType::Rook, "7776".to_string()),
        (PieceType::King, "0001".to_string()),
        (PieceType::Rook, "7677".to_string()),
        (PieceType::King, "0100".to_string()),
    ];
    let board = Board::new(b, PieceColor::White, history);
    let positions = King::authorized_positions(
        &Coords::new(7, 4),
        PieceColor::White,
        board.board,
        &board.move_history,
        false,
    );
    assert!(!positions.contains(&Coords::new(7, 7)));
}

#[test]
fn from_fen_start_position() {
    let board =
        Board::from_fen("rnbqkbnr/pppppppp/8/8/8/8/PPPPPPPP/RNBQKBNR w KQkq - 0 1").unwrap();
    assert_eq!(board.board, Board::default().board);
    assert_eq!(board.player_turn, PieceColor::White);
}

#[test]
fn from_fen_black_to_move() {
    let board = Board::from_fen("8/8/8/8/8/8/8/8 b - - 0 1").unwrap();
    assert_eq!(board.player_turn, PieceColor::Black);
    assert_eq!(board.board, [[E; 8]; 8]);
}

#[test]
fn from_fen_wrong_field_count() {
    assert_eq!(
        Board::from_fen("8/8/8/8/8/8/8/8 w - -").unwrap_err(),
        FenError::NotSixFields
    );
}

#[test]
fn from_fen_bad_placement() {
    assert_eq!(
        Board::from_fen("9/8/8/8/8/8/8/8 w - - 0 1").unwrap_err(),
        FenError::InvalidPlacement
    );
}

#[test]
fn from_fen_bad_color() {
    assert_eq!(
        Board::from_fen("8/8/8/8/8/8/8/8 x - - 0 1").unwrap_err(),
        FenError::InvalidColor
    );
}

#[test]
fn fen_round_trip_two_kings_rook() {
    let board =
        Board::from_fen("2k4R/8/4K3/8/8/8/8/8 b - - 0 0").unwrap();
    assert_eq!(board.fen_position(), "2k4R/8/4K3/8/8/8/8/8 b - - 0 0");
}

#[test]
fn fen_counter_prints_decimal() {
    let mut b = empty_board();
    b[1][2] = WK;
    b[1][6] = BK;
    let mut board = Board::new(b, PieceColor::White, vec![]);
    board.consecutive_non_pawn_or_capture = 13;
    assert_eq!(board.fen_position(), "8/2K3k1/8/8/8/8/8/8 b kq - 13 0");
}

#[test]
fn takeback_simple_knight_move() {
    let mut board = Board::default();
    board.move_piece(&Coords { col: 1, row: 7 }, &Coords { col: 2, row: 5 });
    board.takeback();
    assert_eq!(Board::default().board, board.board);
    assert_eq!(0, board.move_history.len());
}

#[test]
fn did_pawn_move_two_cells_tracks_last_record() {
    let mut board = Board::default();
    board.move_piece(&Coords { col: 4, row: 6 }, &Coords { col: 4, row: 4 });
    assert!(board.did_pawn_move_two_cells());
    board.move_piece(&Coords { col: 6, row: 0 }, &Coords { col: 5, row: 2 });
    assert!(!board.did_pawn_move_two_cells());
}

#[test]
fn notation_decode_encode() {
    assert_eq!(
        convert_notation_into_position("e2e4".to_string()),
        "6444".to_string()
    );
    assert_eq!(
        convert_position_into_notation("6444".to_string()),
        "e2-e4".to_string()
    );
}

#[test]
fn select_cell_plays_a_pawn_move() {
    let mut board = Board::default();
    // walk the cursor from e4 down to the e2 pawn
    board.cursor_down();
    board.cursor_down();
    assert_eq!(board.cursor_coordinates, Coords::new(6, 4));
    board.select_cell();
    assert_eq!(board.selected_coordinates, Coords::new(6, 4));
    // the first destination in row-major order is e4
    assert_eq!(board.cursor_coordinates, Coords::new(4, 4));
    board.select_cell();
    assert_eq!(board.board[4][4], WP);
    assert_eq!(board.board[6][4], E);
    assert_eq!(board.player_turn, PieceColor::Black);
    assert!(!board.is_cell_selected());
}

#[test]
fn cursor_frozen_after_checkmate() {
    let mut board = Board::default();
    board.is_checkmate = true;
    let before = board.cursor_coordinates;
    board.cursor_up();
    board.cursor_left();
    assert_eq!(before, board.cursor_coordinates);
}

#[test]
fn promotion_cursor_cycles() {
    let mut board = Board::default();
    board.is_promotion = true;
    assert_eq!(board.promotion_cursor, 0);
    board.cursor_left();
    assert_eq!(board.promotion_cursor, 3);
    board.cursor_right();
    assert_eq!(board.promotion_cursor, 0);
    board.cursor_right();
    assert_eq!(board.promotion_cursor, 1);
}

#[test]
fn promote_to_rook() {
    let mut b = empty_board();
    b[0][0] = WP;
    b[7][7] = WK;
    b[5][5] = BK;
    let mut board = Board::new(
        b,
        PieceColor::White,
        vec![(PieceType::Pawn, "1000".to_string())],
    );
    board.promotion_cursor = 1;
    board.promote_piece();
    assert_eq!(board.board[0][0], WR);
    assert!(!board.is_promotion);
    assert_eq!(board.promotion_cursor, 0);
}

#[test]
fn stalemate_is_draw_not_checkmate() {
    // black king cornered by queen and king: no move, no check
    let mut b = empty_board();
    b[0][7] = BK;
    b[2][6] = WK;
    b[1][5] = Some((PieceType::Queen, PieceColor::White));
    let board = Board::new(b, PieceColor::Black, vec![]);
    assert_eq!(0, board.number_of_authorized_positions());
    assert!(!board.is_checkmate());
    assert!(board.is_draw());
}

#[test]
fn king_move_recorded_for_side_parity() {
    let mut board = Board::default();
    // white: e2e4, black: e7e5, white: Ke1e2
    board.move_piece(&Coords::new(6, 4), &Coords::new(4, 4));
    board.move_piece(&Coords::new(1, 4), &Coords::new(3, 4));
    board.move_piece(&Coords::new(7, 4), &Coords::new(6, 4));
    board.player_turn = PieceColor::White;
    assert!(board.did_king_already_move());
    board.player_turn = PieceColor::Black;
    assert!(!board.did_king_already_move());
}

#[test]
fn selection_cursor_cycles_destinations() {
    let mut board = Board::default();
    board.cursor_down();
    board.cursor_down();
    board.select_cell();
    // the e2 pawn has e4 then e3 in row-major order
    assert_eq!(board.cursor_coordinates, Coords::new(4, 4));
    board.cursor_down();
    assert_eq!(board.cursor_coordinates, Coords::new(5, 4));
    board.cursor_down();
    assert_eq!(board.cursor_coordinates, Coords::new(4, 4));
    board.unselect_cell();
    assert_eq!(board.cursor_coordinates, Coords::new(6, 4));
}
