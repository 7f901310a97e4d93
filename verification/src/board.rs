use vstd::prelude::*;

use crate::constants::UNDEFINED_POSITION;
use crate::pieces::{PieceColor, PieceType};
use crate::rules::{char_digit, digit_char, letter_col};
use crate::utils::{char_to_digit, letter_to_col, push_digit};

verus! {

/// One entry of the move history: the kind that moved and the
/// four-digit origin/destination code, e.g. "6444".
pub type HistRec = (PieceType, String);

/// A board cell: empty, or a piece of some kind and colour.
pub type Piece = Option<(PieceType, PieceColor)>;

/// The 8 by 8 grid, indexed row first; row 0 is the black home rank.
pub type GameBoard = [[Piece; 8]; 8];

/// A position on the grid, or the "undefined" sentinel outside it.
#[derive(Clone, Copy, Debug, PartialEq, Eq, Structural, PartialOrd, Ord, Hash)]
pub struct Coords {
    /// row/y, 0 at the top (rank 8)
    pub row: i8,
    /// column/x, 0 at the left (file a)
    pub col: i8,
}

impl Coords {
    /// Both components lie on the grid.
    pub open spec fn valid(self) -> bool {
        0 <= self.row < 8 && 0 <= self.col < 8
    }

    /// Builds a coordinate; a small margin around the grid is allowed so
    /// that neighbour arithmetic can produce a value to test with `is_valid`.
    pub fn new(row: i8, col: i8) -> (r: Coords)
        requires
            -2 <= row <= 9,
            -2 <= col <= 9,
        ensures
            r == (Coords { row, col }),
    {
        Coords { row, col }
    }

    /// The two-digit history code of a valid coordinate.
    pub fn to_hist(&self) -> (r: String)
        requires
            self.valid(),
        ensures
            r@ == seq![digit_char(self.row as int), digit_char(self.col as int)],
    {
        let mut s = String::new();
        push_digit(&mut s, self.row);
        push_digit(&mut s, self.col);
        s
    }

    /// Reads a coordinate back from a two-digit history code.
    pub fn from_hist(hist_item: &str) -> (r: Coords)
        requires
            hist_item@.len() == 2,
            0 <= char_digit(hist_item@[0]),
            0 <= char_digit(hist_item@[1]),
        ensures
            r.row == char_digit(hist_item@[0]),
            r.col == char_digit(hist_item@[1]),
    {
        let row = char_to_digit(hist_item.get_char(0));
        let col = char_to_digit(hist_item.get_char(1));
        Coords::new(row, col)
    }

    /// True iff the coordinate lies on the grid.
    pub fn is_valid(&self) -> (r: bool)
        ensures
            r == self.valid(),
    {
        0 <= self.row && self.row < 8 && 0 <= self.col && self.col < 8
    }

    /// Reads a square from algebraic notation such as "e3" or "b8";
    /// the rank digit counts from the bottom, rows from the top.
    pub fn from_basic_san(san: &str) -> (r: Coords)
        requires
            san@.len() == 2,
            0 <= letter_col(san@[0]),
            1 <= char_digit(san@[1]) <= 8,
        ensures
            r.col == letter_col(san@[0]),
            r.row == 8 - char_digit(san@[1]),
            r.valid(),
    {
        let col = letter_to_col(san.get_char(0));
        let row = 8 - char_to_digit(san.get_char(1));
        Coords { col, row }
    }
}

impl Default for Coords {
    /// The "no selection" sentinel.
    fn default() -> (r: Coords)
        ensures
            r.row == UNDEFINED_POSITION,
            r.col == UNDEFINED_POSITION,
    {
        Coords { col: UNDEFINED_POSITION, row: UNDEFINED_POSITION }
    }
}

} // verus!

use crate::rules::{
    at, gset, hist_ok, init_piece, kind_at, last_was_pawn_two, mp_is_castle, mp_is_ep,
    promo_pending,
};
use crate::utils::{get_piece_color, get_piece_type};

verus! {

/// The full game state: the grid, the UI cursors, whose turn it is, the
/// move history and the game-termination flags.
#[derive(Debug)]
pub struct Board {
    pub board: GameBoard,
    pub cursor_coordinates: Coords,
    pub selected_coordinates: Coords,
    pub selected_piece_cursor: i8,
    pub old_cursor_position: Coords,
    pub player_turn: PieceColor,
    pub move_history: Vec<HistRec>,
    pub is_draw: bool,
    pub is_checkmate: bool,
    pub is_promotion: bool,
    pub promotion_cursor: i8,
    pub consecutive_non_pawn_or_capture: i32,
    pub is_game_against_bot: bool,
}

impl Board {
    /// Well-formedness: every history record is a four-digit code on the
    /// grid, and the counters sit in their ranges.
    /// The coordinate is on the grid or is the "no selection" sentinel.
    pub open spec fn coord_ok(c: Coords) -> bool {
        c.valid() || (c.row == UNDEFINED_POSITION && c.col == UNDEFINED_POSITION)
    }

    pub open spec fn wf(self) -> bool {
        &&& hist_ok(self.move_history@)
        &&& 0 <= self.consecutive_non_pawn_or_capture
        &&& 0 <= self.promotion_cursor <= 3
        &&& 0 <= self.selected_piece_cursor <= 80
        &&& Self::coord_ok(self.selected_coordinates)
        &&& Self::coord_ok(self.cursor_coordinates)
        &&& Self::coord_ok(self.old_cursor_position)
    }

    /// A board built from a grid, a side to move and a history; cursors
    /// and flags start as in a fresh game.
    pub fn new(board: GameBoard, player_turn: PieceColor, move_history: Vec<HistRec>) -> (r: Board)
        requires
            hist_ok(move_history@),
        ensures
            r.board == board,
            r.player_turn == player_turn,
            r.move_history@ == move_history@,
            r.cursor_coordinates == (Coords { row: 4, col: 4 }),
            r.selected_coordinates.row == UNDEFINED_POSITION,
            r.selected_coordinates.col == UNDEFINED_POSITION,
            r.selected_piece_cursor == 0,
            !r.is_draw && !r.is_checkmate && !r.is_promotion,
            r.promotion_cursor == 0,
            r.consecutive_non_pawn_or_capture == 0,
            !r.is_game_against_bot,
            r.wf(),
    {
        Board {
            board,
            cursor_coordinates: Coords::new(4, 4),
            selected_coordinates: Coords::default(),
            selected_piece_cursor: 0,
            old_cursor_position: Coords::default(),
            player_turn,
            move_history,
            is_draw: false,
            is_checkmate: false,
            is_promotion: false,
            promotion_cursor: 0,
            consecutive_non_pawn_or_capture: 0,
            is_game_against_bot: false,
        }
    }

    /// Replaces the grid.
    pub fn set_board(&mut self, board: GameBoard)
        ensures
            final (self).board == board,
            *final (self) == (Board { board, ..*old(self) }),
    {
        self.board = board;
    }

    /// Sets whose turn it is.
    pub fn set_player_turn(&mut self, player_turn: PieceColor)
        ensures
            *final (self) == (Board { player_turn, ..*old(self) }),
    {
        self.player_turn = player_turn;
    }

    /// A cell is selected when the selection is not the sentinel.
    pub fn is_cell_selected(&self) -> (r: bool)
        ensures
            r == (self.selected_coordinates.row != UNDEFINED_POSITION
                && self.selected_coordinates.col != UNDEFINED_POSITION),
    {
        self.selected_coordinates.row != UNDEFINED_POSITION && self.selected_coordinates.col
            != UNDEFINED_POSITION
    }

    /// The cell of the grid at a valid coordinate.
    fn get(&self, coord: &Coords) -> (p: Piece)
        requires
            coord.valid(),
        ensures
            p == at(self.board, coord.row as int, coord.col as int),
    {
        self.board[coord.row as usize][coord.col as usize]
    }

    /// Writes the cell of the grid at a valid coordinate.
    fn set(&mut self, coord: &Coords, piece: Piece)
        requires
            coord.valid(),
        ensures
            *final (self) == (Board {
                board: gset(old(self).board, coord.row as int, coord.col as int, piece),
                ..*old(self)
            }),
    {
        self.board[coord.row as usize][coord.col as usize] = piece;
        proof {
            broadcast use vstd::array::group_array_axioms;

            assert(self.board =~= gset(
                old(self).board,
                coord.row as int,
                coord.col as int,
                piece,
            ));
        }
    }

    /// Hands the turn to the other side.
    pub fn switch_player_turn(&mut self)
        ensures
            *final (self) == (Board { player_turn: old(self).player_turn.other(), ..*old(self) }),
    {
        self.player_turn = self.player_turn.opposite();
    }

    /// Drops the selection and puts the cursor back where it was.
    pub fn unselect_cell(&mut self)
        ensures
            old(self).selected_coordinates.row != UNDEFINED_POSITION && old(
                self,
            ).selected_coordinates.col != UNDEFINED_POSITION ==> *final (self) == (Board {
                selected_coordinates: Coords { row: UNDEFINED_POSITION, col: UNDEFINED_POSITION },
                selected_piece_cursor: 0,
                cursor_coordinates: old(self).old_cursor_position,
                ..*old(self)
            }),
            !(old(self).selected_coordinates.row != UNDEFINED_POSITION && old(
                self,
            ).selected_coordinates.col != UNDEFINED_POSITION) ==> *final (self) == *old(self),
    {
        if self.is_cell_selected() {
            self.selected_coordinates = Coords::default();
            self.selected_piece_cursor = 0;
            self.cursor_coordinates = self.old_cursor_position;
        }
    }

    /// The last recorded ply moved a pawn two rows.
    pub fn did_pawn_move_two_cells(&self) -> (r: bool)
        requires
            self.wf(),
        ensures
            r == last_was_pawn_two(self.move_history@),
    {
        if self.move_history.len() == 0 {
            return false;
        }
        let last = &self.move_history[self.move_history.len() - 1];
        if !matches!(last.0, PieceType::Pawn) {
            return false;
        }
        let from_y = char_to_digit(last.1.get_char(0));
        let to_y = char_to_digit(last.1.get_char(2));
        to_y - from_y == 2 || from_y - to_y == 2
    }

    /// Some record is a king move played by the side now to move,
    /// taking the white side to play the even plies.
    pub fn did_king_already_move(&self) -> (r: bool)
        ensures
            r == exists|i: int|
                0 <= i < self.move_history@.len() && (#[trigger] self.move_history@[i]).0
                    == PieceType::King && i % 2 == crate::rules::turn_index(self.player_turn),
    {
        let mut i: usize = 0;
        while i < self.move_history.len()
            invariant
                0 <= i <= self.move_history@.len(),
                forall|j: int|
                    0 <= j < i ==> !((#[trigger] self.move_history@[j]).0 == PieceType::King && j
                        % 2 == crate::rules::turn_index(self.player_turn)),
            decreases self.move_history@.len() - i,
        {
            let parity: usize = match self.player_turn {
                PieceColor::White => 0,
                PieceColor::Black => 1,
            };
            if matches!(self.move_history[i].0, PieceType::King) && i % 2 == parity {
                return true;
            }
            i = i + 1;
        }
        false
    }

    /// The move is handled as an en passant capture: a pawn moving
    /// diagonally onto an empty cell.
    fn is_latest_move_en_passant(&self, from: &Coords, to: &Coords) -> (r: bool)
        requires
            from.valid(),
            to.valid(),
        ensures
            r == mp_is_ep(
                self.board,
                from.row as int,
                from.col as int,
                to.row as int,
                to.col as int,
            ),
    {
        let piece_type_from = get_piece_type(self.board, from);
        match piece_type_from {
            Some(PieceType::Pawn) => from.row != to.row && from.col != to.col && matches!(
                self.get(to),
                None,
            ),
            _ => false,
        }
    }

    /// The move is handled as castling: a king moving more than one
    /// column.
    fn is_latest_move_castling(&self, from: &Coords, to: &Coords) -> (r: bool)
        requires
            from.valid(),
            to.valid(),
        ensures
            r == mp_is_castle(
                self.board,
                from.row as int,
                from.col as int,
                to.row as int,
                to.col as int,
            ),
    {
        let piece_type_from = get_piece_type(self.board, from);
        let distance = if from.col > to.col {
            from.col - to.col
        } else {
            to.col - from.col
        };
        match piece_type_from {
            Some(PieceType::King) => distance > 1,
            _ => false,
        }
    }

    /// The last recorded ply put a pawn on its final rank, so a promotion
    /// is pending.
    pub fn is_latest_move_promotion(&self) -> (r: bool)
        requires
            self.wf(),
        ensures
            r == promo_pending(self.board, self.move_history@),
    {
        if self.move_history.len() == 0 {
            return false;
        }
        let last = &self.move_history[self.move_history.len() - 1];
        let to_y = char_to_digit(last.1.get_char(2));
        let to_x = char_to_digit(last.1.get_char(3));
        let to = Coords::new(to_y, to_x);
        match self.get(&to) {
            Some((PieceType::Pawn, piece_color)) => {
                let last_row: i8 = if matches!(piece_color, PieceColor::White) {
                    0
                } else {
                    7
                };
                to_y == last_row
            },
            _ => false,
        }
    }
}

} // verus!

verus! {

impl Default for Board {
    /// A fresh game: the standard starting layout, white to move.
    fn default() -> (r: Board)
        ensures
            forall|i: int, j: int|
                crate::rules::in_bounds(i, j) ==> #[trigger] at(r.board, i, j) == init_piece(i, j),
            r.player_turn == PieceColor::White,
            r.move_history@.len() == 0,
            r.cursor_coordinates == (Coords { row: 4, col: 4 }),
            r.selected_coordinates.row == UNDEFINED_POSITION,
            r.selected_coordinates.col == UNDEFINED_POSITION,
            r.selected_piece_cursor == 0,
            !r.is_draw && !r.is_checkmate && !r.is_promotion,
            r.promotion_cursor == 0,
            r.consecutive_non_pawn_or_capture == 0,
            !r.is_game_against_bot,
            r.wf(),
    {
        let board: GameBoard = [
            [
                Some((PieceType::Rook, PieceColor::Black)),
                Some((PieceType::Knight, PieceColor::Black)),
                Some((PieceType::Bishop, PieceColor::Black)),
                Some((PieceType::Queen, PieceColor::Black)),
                Some((PieceType::King, PieceColor::Black)),
                Some((PieceType::Bishop, PieceColor::Black)),
                Some((PieceType::Knight, PieceColor::Black)),
                Some((PieceType::Rook, PieceColor::Black)),
            ],
            [
                Some((PieceType::Pawn, PieceColor::Black)),
                Some((PieceType::Pawn, PieceColor::Black)),
                Some((PieceType::Pawn, PieceColor::Black)),
                Some((PieceType::Pawn, PieceColor::Black)),
                Some((PieceType::Pawn, PieceColor::Black)),
                Some((PieceType::Pawn, PieceColor::Black)),
                Some((PieceType::Pawn, PieceColor::Black)),
                Some((PieceType::Pawn, PieceColor::Black)),
            ],
            [None, None, None, None, None, None, None, None],
            [None, None, None, None, None, None, None, None],
            [None, None, None, None, None, None, None, None],
            [None, None, None, None, None, None, None, None],
            [
                Some((PieceType::Pawn, PieceColor::White)),
                Some((PieceType::Pawn, PieceColor::White)),
                Some((PieceType::Pawn, PieceColor::White)),
                Some((PieceType::Pawn, PieceColor::White)),
                Some((PieceType::Pawn, PieceColor::White)),
                Some((PieceType::Pawn, PieceColor::White)),
                Some((PieceType::Pawn, PieceColor::White)),
                Some((PieceType::Pawn, PieceColor::White)),
            ],
            [
                Some((PieceType::Rook, PieceColor::White)),
                Some((PieceType::Knight, PieceColor::White)),
                Some((PieceType::Bishop, PieceColor::White)),
                Some((PieceType::Queen, PieceColor::White)),
                Some((PieceType::King, PieceColor::White)),
                Some((PieceType::Bishop, PieceColor::White)),
                Some((PieceType::Knight, PieceColor::White)),
                Some((PieceType::Rook, PieceColor::White)),
            ],
        ];
        proof {
            broadcast use vstd::array::group_array_axioms;

            assert forall|i: int, j: int| crate::rules::in_bounds(i, j) implies #[trigger] at(
                board,
                i,
                j,
            ) == init_piece(i, j) by {
                assert(at(board, i, j) == board@[i]@[j]);
            }
        }
        Board::new(board, PieceColor::White, Vec::new())
    }
}

} // verus!

use crate::rules::{hist_code, mp_castle_king_col, mp_castle_rook_dst, mp_castle_rook_src, mp_grid,
    mp_rec_to_col, mp_resets_counter, mp_safe, pawn_dir};
use vstd::string::StringExecFns;

verus! {

impl Board {
    /// Applies a move. Invalid coordinates are ignored. The quiet-ply
    /// counter resets on a pawn move or a capture and grows otherwise; an
    /// en passant capture removes the passed pawn, castling relocates the
    /// rook, and a record of the ply is appended to the history.
    pub fn move_piece(&mut self, from: &Coords, to: &Coords)
        requires
            old(self).wf(),
            old(self).consecutive_non_pawn_or_capture < i32::MAX,
            (from.valid() && to.valid()) ==> mp_safe(
                old(self).board,
                old(self).player_turn,
                from.row as int,
                from.col as int,
                to.row as int,
                to.col as int,
            ),
        ensures
            final (self).wf(),
            !(from.valid() && to.valid()) ==> *final (self) == *old(self),
            (from.valid() && to.valid()) ==> {
                let b0 = old(self).board;
                let fr = from.row as int;
                let fc = from.col as int;
                let tr = to.row as int;
                let tc = to.col as int;
                &&& final (self).board == mp_grid(
                    b0,
                    old(self).player_turn,
                    old(self).is_game_against_bot,
                    fr,
                    fc,
                    tr,
                    tc,
                )
                &&& final (self).consecutive_non_pawn_or_capture == (if mp_resets_counter(
                    b0,
                    fr,
                    fc,
                    tr,
                    tc,
                ) {
                    0int
                } else {
                    old(self).consecutive_non_pawn_or_capture + 1
                })
                &&& (match kind_at(b0, fr, fc) {
                    Some(k) => {
                        &&& final (self).move_history@.len() == old(self).move_history@.len() + 1
                        &&& final (self).move_history@.drop_last() == old(self).move_history@
                        &&& final (self).move_history@.last().0 == k
                        &&& final (self).move_history@.last().1@ == hist_code(
                            fr,
                            fc,
                            tr,
                            mp_rec_to_col(b0, fr, fc, tr, tc),
                        )
                    },
                    None => final (self).move_history@ == old(self).move_history@,
                })
                &&& final (self).player_turn == old(self).player_turn
                &&& final (self).cursor_coordinates == old(self).cursor_coordinates
                &&& final (self).selected_coordinates == old(self).selected_coordinates
                &&& final (self).selected_piece_cursor == old(self).selected_piece_cursor
                &&& final (self).old_cursor_position == old(self).old_cursor_position
                &&& final (self).is_draw == old(self).is_draw
                &&& final (self).is_checkmate == old(self).is_checkmate
                &&& final (self).is_promotion == old(self).is_promotion
                &&& final (self).promotion_cursor == old(self).promotion_cursor
                &&& final (self).is_game_against_bot == old(self).is_game_against_bot
            },
    {
        if !from.is_valid() || !to.is_valid() {
            return ;
        }
        let ghost b0 = self.board;
        let ghost fr = from.row as int;
        let ghost fc = from.col as int;
        let ghost tr = to.row as int;
        let ghost tc = to.col as int;
        let direction_y: i8 = if matches!(self.player_turn, PieceColor::White) {
            -1
        } else {
            1
        };
        let piece_type_from = get_piece_type(self.board, from);
        let piece_type_to = get_piece_type(self.board, to);
        // a pawn move or a capture resets the quiet-ply counter
        match (piece_type_from, piece_type_to) {
            (Some(PieceType::Pawn), _) | (Some(_), Some(_)) => {
                self.consecutive_non_pawn_or_capture = 0;
            },
            _ => {
                self.consecutive_non_pawn_or_capture = self.consecutive_non_pawn_or_capture + 1;
            },
        }
        // an en passant capture removes the passed pawn
        if self.is_latest_move_en_passant(from, to) {
            let row_index = to.row - direction_y;
            self.set(&Coords::new(row_index, to.col), None);
        }
        let ghost b1 = self.board;
        proof {
            if mp_is_ep(b0, fr, fc, tr, tc) {
                crate::rules::lemma_gset(b0, tr - pawn_dir(old(self).player_turn), tc, None);
            }
            assert(kind_at(b1, fr, fc) == kind_at(b0, fr, fc));
        }
        let mut to_hist = Coords::new(to.row, to.col);
        if self.is_latest_move_castling(from, to) {
            // the king lands two columns over; the rook is picked up from
            // the move's target column (an engine reports castling as the
            // king step, so under a bot game the black rook comes from its
            // corner) and lands beside the king
            let distance_pos = from.col > to.col;
            let direction_x: i8 = if distance_pos {
                -1
            } else {
                1
            };
            let king_col = from.col + direction_x * 2;
            proof {
                assert(king_col as int == mp_castle_king_col(fc, tc));
            }
            self.set(&Coords::new(to.row, king_col), self.get(from));
            let row_index_rook: i8 = if distance_pos {
                3
            } else {
                5
            };
            let mut to_x: i8 = to.col;
            if self.is_game_against_bot && matches!(self.player_turn, PieceColor::Black) {
                to_x = if distance_pos {
                    0
                } else {
                    7
                };
            }
            proof {
                assert(row_index_rook as int == mp_castle_rook_dst(fc, tc));
                assert(to_x as int == mp_castle_rook_src(
                    old(self).player_turn,
                    old(self).is_game_against_bot,
                    fc,
                    tc,
                ));
            }
            let rook_piece = self.get(&Coords::new(to.row, to_x));
            self.set(&Coords::new(to.row, row_index_rook), rook_piece);
            self.set(&Coords::new(to.row, to_x), None);
            to_hist = Coords { row: to.row, col: king_col };
        } else {
            self.set(to, self.get(from));
        }
        self.set(from, None);
        proof {
            assert(self.board == mp_grid(
                b0,
                old(self).player_turn,
                old(self).is_game_against_bot,
                fr,
                fc,
                tr,
                tc,
            ));
        }
        // record the ply
        let mut position_number = from.to_hist();
        let second = to_hist.to_hist();
        position_number.append(second.as_str());
        if let Some(piece_type) = piece_type_from {
            let ghost old_hist = self.move_history@;
            let rec = (piece_type, position_number);
            self.move_history.push(rec);
            proof {
                assert(self.move_history@.drop_last() =~= old_hist);
                assert(self.move_history@.last().1@ =~= hist_code(
                    fr,
                    fc,
                    tr,
                    mp_rec_to_col(b0, fr, fc, tr, tc),
                ));
                assert(hist_ok(self.move_history@)) by {
                    assert forall|i: int| 0 <= i < self.move_history@.len() implies
                        crate::rules::rec_ok(#[trigger] self.move_history@[i]) by {
                        if i < old_hist.len() {
                            assert(self.move_history@[i] == old_hist[i]);
                        } else {
                            assert forall|j: int| 0 <= j < 4 implies 0 <= crate::rules::char_digit(
                                #[trigger] self.move_history@[i].1@[j],
                            ) <= 7 by {}
                        }
                    }
                }
            }
        }
    }
}

} // verus!

use crate::rules::{hh_match, history_has_idx, rec_from_col, rec_from_row, rec_to_col, rec_to_row,
    tb_grid, tb_refill, tb_safe};

verus! {

impl Board {
    /// The most recent record (never the very first) that moved a piece
    /// to `coord` (with `to`) or away from it, and its index.
    fn history_has(&self, coord: &Coords, to: bool) -> (r: Option<(PieceType, usize)>)
        requires
            self.wf(),
            coord.valid(),
        ensures
            match r {
                Some((k, i)) => {
                    &&& history_has_idx(self.move_history@, coord.row as int, coord.col as int, to)
                        == Some(i as int)
                    &&& 0 <= i < self.move_history@.len()
                    &&& k == self.move_history@[i as int].0
                },
                None => history_has_idx(
                    self.move_history@,
                    coord.row as int,
                    coord.col as int,
                    to,
                ) is None,
            },
    {
        let ghost h = self.move_history@;
        let ghost cr = coord.row as int;
        let ghost cc = coord.col as int;
        if self.move_history.len() == 0 {
            return None;
        }
        let mut i: usize = self.move_history.len() - 1;
        proof {
            assert(h.take(h.len() as int) =~= h);
        }
        while i > 0
            invariant
                self.wf(),
                coord.valid(),
                h == self.move_history@,
                cr == coord.row as int,
                cc == coord.col as int,
                0 <= i < h.len(),
                history_has_idx(h, cr, cc, to) == history_has_idx(h.take(i + 1), cr, cc, to),
            decreases i,
        {
            let rec = &self.move_history[i];
            let (a, b) = if to {
                (rec.1.get_char(2), rec.1.get_char(3))
            } else {
                (rec.1.get_char(0), rec.1.get_char(1))
            };
            let matched = char_to_digit(a) == coord.row && char_to_digit(b) == coord.col;
            proof {
                assert(crate::rules::rec_ok(h[i as int]));
                assert(digit_char(char_digit(h[i as int].1@[0])) == h[i as int].1@[0]);
                assert(digit_char(char_digit(h[i as int].1@[1])) == h[i as int].1@[1]);
                assert(digit_char(char_digit(h[i as int].1@[2])) == h[i as int].1@[2]);
                assert(digit_char(char_digit(h[i as int].1@[3])) == h[i as int].1@[3]);
                assert(h.take(i + 1).last() == h[i as int]);
                assert(h.take(i + 1).drop_last() =~= h.take(i as int));
            }
            if matched {
                proof {
                    assert(hh_match(h[i as int], cr, cc, to));
                    assert(history_has_idx(h.take(i + 1), cr, cc, to) == Some(i as int));
                }
                return Some((self.move_history[i].0, i));
            }
            proof {
                assert(!hh_match(h[i as int], cr, cc, to));
                assert(history_has_idx(h.take(i + 1), cr, cc, to) == history_has_idx(
                    h.take(i as int),
                    cr,
                    cc,
                    to,
                ));
            }
            i = i - 1;
        }
        proof {
            assert(h.take(1).len() <= 1);
            assert(history_has_idx(h, cr, cc, to) is None);
        }
        None
    }

    /// Takes the last recorded ply back: the moved piece returns to its
    /// origin (a promotion reverts to a pawn), a castling rook or an en
    /// passant victim is put back, and the vacated destination square is
    /// refilled by inspecting the remaining history and the starting
    /// layout. The turn goes back to the other side.
    pub fn takeback(&mut self)
        requires
            old(self).wf(),
            tb_safe(old(self).move_history@),
        ensures
            final (self).wf(),
            old(self).move_history@.len() == 0 ==> *final (self) == *old(self),
            old(self).move_history@.len() > 0 ==> {
                &&& final (self).board == tb_grid(
                    old(self).board,
                    old(self).move_history@,
                    old(self).player_turn,
                )
                &&& final (self).move_history@ == old(self).move_history@.drop_last()
                &&& final (self).player_turn == old(self).player_turn.other()
                &&& final (self).consecutive_non_pawn_or_capture == old(
                    self,
                ).consecutive_non_pawn_or_capture
                &&& final (self).cursor_coordinates == old(self).cursor_coordinates
                &&& final (self).selected_coordinates == old(self).selected_coordinates
                &&& final (self).is_draw == old(self).is_draw
                &&& final (self).is_checkmate == old(self).is_checkmate
                &&& final (self).is_promotion == old(self).is_promotion
            },
    {
        let ghost h0 = self.move_history@;
        let ghost b0 = self.board;
        let ghost turn = self.player_turn;
        if self.move_history.len() == 0 {
            return ;
        }
        if let Some((piece_type, prev_move)) = self.move_history.pop() {
            proof {
                assert(h0.last() == (piece_type, prev_move));
                assert(self.move_history@ =~= h0.drop_last());
                assert(crate::rules::rec_ok(h0.last()));
            }
            let o_row = char_to_digit(prev_move.get_char(0));
            let o_col = char_to_digit(prev_move.get_char(1));
            let d_row = char_to_digit(prev_move.get_char(2));
            let d_col = char_to_digit(prev_move.get_char(3));
            let to = Coords::new(o_row, o_col);
            let from = Coords::new(d_row, d_col);
            proof {
                assert(to.row as int == rec_from_row(h0.last()));
                assert(to.col as int == rec_from_col(h0.last()));
                assert(from.row as int == rec_to_row(h0.last()));
                assert(from.col as int == rec_to_col(h0.last()));
            }
            let col_delta_big = from.col - to.col > 1 || to.col - from.col > 1;
            // castling: clear the rook beside the king's landing square
            // and put it back on the mover's corner
            if matches!(piece_type, PieceType::King) && col_delta_big {
                let right_rook = Coords::new(from.row, from.col - 1);
                let left_rook = Coords::new(from.row, from.col + 1);
                let right_is_rook = match self.get(&right_rook) {
                    Some((PieceType::Rook, _)) => true,
                    _ => false,
                };
                match self.player_turn {
                    PieceColor::Black => {
                        if right_is_rook {
                            self.set(&right_rook, None);
                            self.set(
                                &Coords::new(7, 7),
                                Some((PieceType::Rook, PieceColor::White)),
                            );
                        } else {
                            self.set(&left_rook, None);
                            self.set(
                                &Coords::new(7, 0),
                                Some((PieceType::Rook, PieceColor::White)),
                            );
                        }
                    },
                    PieceColor::White => {
                        if right_is_rook {
                            self.set(&right_rook, None);
                            self.set(
                                &Coords::new(0, 7),
                                Some((PieceType::Rook, PieceColor::Black)),
                            );
                        } else {
                            self.set(&left_rook, None);
                            self.set(
                                &Coords::new(0, 0),
                                Some((PieceType::Rook, PieceColor::Black)),
                            );
                        }
                    },
                }
            } else if matches!(piece_type, PieceType::Pawn) && to.row != from.row && to.col
                != from.col {
                // en passant: put the captured pawn back where the double
                // step had left it
                if self.move_history.len() > 0 {
                    let last = &self.move_history[self.move_history.len() - 1];
                    if matches!(last.0, PieceType::Pawn) {
                        proof {
                            assert(crate::rules::rec_ok(self.move_history@.last()));
                        }
                        let pf_row = char_to_digit(last.1.get_char(0));
                        let pt_row = char_to_digit(last.1.get_char(2));
                        let pt_col = char_to_digit(last.1.get_char(3));
                        if (pt_row - pf_row > 1 || pf_row - pt_row > 1) && (from.row - pt_row == 1
                            || pt_row - from.row == 1) {
                            self.set(
                                &Coords::new(pt_row, pt_col),
                                Some((PieceType::Pawn, self.player_turn)),
                            );
                        }
                    }
                }
            }
            // take the moved piece back, reverting a promotion to a pawn
            if matches!(piece_type, PieceType::Pawn) && (from.row == 0 || from.row == 7) {
                let restored = Some((PieceType::Pawn, self.player_turn.opposite()));
                self.set(&to, restored);
            } else {
                let moved_back = self.get(&from);
                self.set(&to, moved_back);
            }
            // refill the vacated destination square from the remaining
            // history, or from the starting layout
            let has_to = self.history_has(&from, true);
            let has_from = self.history_has(&from, false);
            let refill: Piece = match (has_to, has_from) {
                (Some((kicked_kind, _)), None) => Some((kicked_kind, self.player_turn)),
                (Some((kicked_kind, ti)), Some((_, fi))) if ti > fi => Some(
                    (kicked_kind, self.player_turn),
                ),
                _ => {
                    let default_board = Board::default();
                    match default_board.get(&from) {
                        Some(piece) => {
                            if piece.1 == self.player_turn && matches!(has_from, None) {
                                Some(piece)
                            } else {
                                None
                            }
                        },
                        None => None,
                    }
                },
            };
            proof {
                assert(refill == tb_refill(
                    h0.drop_last(),
                    turn,
                    from.row as int,
                    from.col as int,
                ));
            }
            self.set(&from, refill);
            self.switch_player_turn();
            proof {
                assert(self.board == tb_grid(b0, h0, turn));
                assert(hist_ok(self.move_history@)) by {
                    assert forall|i: int| 0 <= i < self.move_history@.len() implies
                        crate::rules::rec_ok(#[trigger] self.move_history@[i]) by {
                        assert(self.move_history@[i] == h0[i]);
                    }
                }
            }
        }
    }
}

} // verus!

use crate::rules::{fen_castle, fen_ep, fen_row, fen_rows, fen_spec, is_check};
use crate::utils::{col_to_letter, did_piece_already_move, is_getting_checked, push_number};

verus! {

impl Board {
    /// Serializes the position to FEN: the grid row by row with empty
    /// runs counted, the side to move written as black, black's castling
    /// rights, the en passant target, the quiet-ply counter and the move
    /// number.
    #[verifier::rlimit(80)]
    pub fn fen_position(&self) -> (r: String)
        requires
            self.wf(),
        ensures
            r@ == fen_spec(self.board, self.move_history@, self.consecutive_non_pawn_or_capture as int),
    {
        let ghost b = self.board;
        let ghost h = self.move_history@;
        let mut result = String::new();
        // the grid, one row at a time
        let mut i: usize = 0;
        while i < 8
            invariant
                self.wf(),
                b == self.board,
                h == self.move_history@,
                0 <= i <= 8,
                result@ + fen_rows(b, i as int) == fen_rows(b, 0),
            decreases 8 - i,
        {
            let ghost row_start = result@;
            let mut run: i8 = 0;
            let mut j: usize = 0;
            while j < 8
                invariant
                    self.wf(),
                    b == self.board,
                    0 <= i < 8,
                    0 <= j <= 8,
                    0 <= run <= j,
                    row_start + fen_row(b, i as int, 0, 0) == result@ + fen_row(
                        b,
                        i as int,
                        j as int,
                        run as int,
                    ),
                decreases 8 - j,
            {
                match self.board[i][j] {
                    Some((kind, color)) => {
                        if run > 0 {
                            push_digit(&mut result, run);
                        }
                        let letter = PieceType::piece_to_fen_enum(Some(kind), Some(color));
                        result.append(letter);
                        run = 0;
                        proof {
                            assert(row_start + fen_row(b, i as int, 0, 0) =~= result@ + fen_row(
                                b,
                                i as int,
                                j as int + 1,
                                0,
                            ));
                        }
                    },
                    None => {
                        run = run + 1;
                    },
                }
                j = j + 1;
            }
            if run > 0 {
                push_digit(&mut result, run);
            }
            proof {
                assert(result@ =~= row_start + fen_row(b, i as int, 0, 0));
            }
            if i < 7 {
                proof {
                    reveal_strlit("/");
                }
                result.append("/");
                proof {
                    assert(result@ + fen_rows(b, i as int + 1) =~= fen_rows(b, 0));
                }
            } else {
                proof {
                    assert(result@ + fen_rows(b, 8) =~= fen_rows(b, 0));
                }
            }
            i = i + 1;
        }
        proof {
            assert(result@ =~= fen_rows(b, 0));
            reveal_strlit(" b");
            reveal_strlit("k");
            reveal_strlit("q");
            reveal_strlit("-");
            reveal_strlit(" -");
            reveal_strlit(" ");
        }
        // the side to move, written as black
        result.append(" b");
        let ghost after_turn = result@;
        // black's castling availability
        result.append(" ");
        if !did_piece_already_move(&self.move_history, (PieceType::King, Coords { row: 0, col: 4 }))
            && !is_getting_checked(self.board, PieceColor::Black, &self.move_history) {
            let kingside = !did_piece_already_move(
                &self.move_history,
                (PieceType::Rook, Coords { row: 0, col: 7 }),
            );
            let queenside = !did_piece_already_move(
                &self.move_history,
                (PieceType::Rook, Coords { row: 0, col: 0 }),
            );
            if kingside {
                result.append("k");
            }
            if queenside {
                result.append("q");
            }
            if !kingside && !queenside {
                result.append("-");
            }
        } else {
            result.append("-");
        }
        proof {
            assert(result@ =~= after_turn + fen_castle(b, h));
        }
        let ghost after_castle = result@;
        // the en passant target, present exactly after a pawn double step:
        // the square the pawn passed over
        if self.did_pawn_move_two_cells() {
            let last = &self.move_history[self.move_history.len() - 1];
            let from_y = char_to_digit(last.1.get_char(0));
            let from_x = char_to_digit(last.1.get_char(1));
            let to_y = char_to_digit(last.1.get_char(2));
            result.append(" ");
            let letter = col_to_letter(from_x);
            result.append(letter.as_str());
            push_digit(&mut result, 8 - (from_y + to_y) / 2);
        } else {
            result.append(" -");
        }
        proof {
            assert(result@ =~= after_castle + fen_ep(h));
        }
        let ghost after_ep = result@;
        // the counters
        result.append(" ");
        push_number(&mut result, self.consecutive_non_pawn_or_capture as u64);
        result.append(" ");
        push_number(&mut result, (self.move_history.len() / 2) as u64);
        proof {
            assert(result@ =~= fen_spec(b, h, self.consecutive_non_pawn_or_capture as int));
        }
        result
    }
}

} // verus!

use crate::rules::{all_valid, authorized, contains_rc, no_moves, rep_cycle};

verus! {

impl Board {
    /// The legal destinations of the piece described, or an empty list
    /// when kind or colour is missing.
    pub fn get_authorized_positions(
        &self,
        piece_type: Option<PieceType>,
        piece_color: Option<PieceColor>,
        piece_position: &Coords,
    ) -> (out: Vec<Coords>)
        requires
            self.wf(),
            piece_position.valid(),
        ensures
            match (piece_type, piece_color) {
                (Some(k), Some(c)) => forall|tr: int, tc: int|
                    #[trigger] contains_rc(out@, tr, tc) <==> authorized(
                        self.board,
                        self.move_history@,
                        k,
                        c,
                        piece_position.row as int,
                        piece_position.col as int,
                        tr,
                        tc,
                    ),
                _ => out@.len() == 0,
            },
            all_valid(out@),
            out@.len() <= 66,
            crate::rules::no_dup_rc(out@),
    {
        match (piece_type, piece_color) {
            (Some(piece_type), Some(piece_color)) => {
                let checked = is_getting_checked(self.board, self.player_turn, &self.move_history);
                piece_type.authorized_positions(
                    piece_position,
                    piece_color,
                    self.board,
                    &self.move_history,
                    checked,
                )
            },
            _ => Vec::new(),
        }
    }

    /// Counts the legal destinations over every piece of the side to
    /// move: the sum, square by square, of the number of authorized
    /// destinations; it is zero exactly when that side has no move.
    pub fn number_of_authorized_positions(&self) -> (r: usize)
        requires
            self.wf(),
        ensures
            r as int == crate::rules::side_move_count(
                self.board,
                self.move_history@,
                self.player_turn,
                0,
            ),
            (r == 0) <==> no_moves(self.board, self.move_history@, self.player_turn),
    {
        let ghost b = self.board;
        let ghost h = self.move_history@;
        let ghost turn = self.player_turn;
        let mut count: usize = 0;
        let mut i: usize = 0;
        while i < 8
            invariant
                self.wf(),
                b == self.board,
                h == self.move_history@,
                turn == self.player_turn,
                0 <= i <= 8,
                count <= 66 * (8 * i),
                count as int + crate::rules::side_move_count(b, h, turn, 8 * i) == crate::rules::side_move_count(b, h, turn, 0),
                count == 0 ==> (forall|fr: int, fc: int, tr: int, tc: int|
                    0 <= fr < i && 0 <= fc < 8 && crate::rules::ally_at(b, turn, fr, fc)
                        ==> !authorized(b, h, kind_at(b, fr, fc).unwrap(), turn, fr, fc, tr, tc)),
                count != 0 ==> !no_moves(b, h, turn),
            decreases 8 - i,
        {
            let mut j: usize = 0;
            while j < 8
                invariant
                    self.wf(),
                    b == self.board,
                    h == self.move_history@,
                    turn == self.player_turn,
                    0 <= i < 8,
                    0 <= j <= 8,
                    count <= 66 * (8 * i + j),
                    count as int + crate::rules::side_move_count(b, h, turn, 8 * i + j) == crate::rules::side_move_count(b, h, turn, 0),
                    count == 0 ==> (forall|fr: int, fc: int, tr: int, tc: int|
                        0 <= fr < 8 && 0 <= fc < 8 && (fr < i || (fr == i && fc < j))
                            && crate::rules::ally_at(b, turn, fr, fc) ==> !authorized(
                            b,
                            h,
                            kind_at(b, fr, fc).unwrap(),
                            turn,
                            fr,
                            fc,
                            tr,
                            tc,
                        )),
                    count != 0 ==> !no_moves(b, h, turn),
                decreases 8 - j,
            {
                let ghost old_count = count;
                let ghost s = 8 * (i as int) + (j as int);
                proof {
                    assert(s / 8 == i as int && s % 8 == j as int) by (nonlinear_arith)
                        requires
                            s == 8 * (i as int) + (j as int) && 0 <= j < 8 && 0 <= i < 8,
                    ;
                    assert(crate::rules::side_move_count(b, h, turn, s) == (if crate::rules::ally_at(
                        b,
                        turn,
                        i as int,
                        j as int,
                    ) {
                        crate::rules::auth_count(
                            b,
                            h,
                            kind_at(b, i as int, j as int).unwrap(),
                            turn,
                            i as int,
                            j as int,
                        )
                    } else {
                        0int
                    }) + crate::rules::side_move_count(b, h, turn, s + 1));
                }
                match self.board[i][j] {
                    Some((piece_type, piece_color)) => {
                        if piece_color == self.player_turn {
                            let positions = self.get_authorized_positions(
                                Some(piece_type),
                                Some(piece_color),
                                &Coords { row: i as i8, col: j as i8 },
                            );
                            proof {
                                crate::rules::lemma_len_is_count(
                                    positions@,
                                    |tr: int, tc: int|
                                        authorized(
                                            b,
                                            h,
                                            piece_type,
                                            turn,
                                            i as int,
                                            j as int,
                                            tr,
                                            tc,
                                        ),
                                );
                                assert(positions@.len() == crate::rules::auth_count(
                                    b,
                                    h,
                                    piece_type,
                                    turn,
                                    i as int,
                                    j as int,
                                ));
                            }
                            count = count + positions.len();
                            proof {
                                assert(kind_at(b, i as int, j as int).unwrap() == piece_type);
                                if positions@.len() > 0 {
                                    let p0 = positions@[0];
                                    assert(contains_rc(positions@, p0.row as int, p0.col as int));
                                    assert(authorized(
                                        b,
                                        h,
                                        piece_type,
                                        turn,
                                        i as int,
                                        j as int,
                                        p0.row as int,
                                        p0.col as int,
                                    ));
                                    assert(!no_moves(b, h, turn));
                                }
                                if count == 0 {
                                    assert forall|fr: int, fc: int, tr: int, tc: int|
                                        0 <= fr < 8 && 0 <= fc < 8 && (fr < i || (fr == i && fc < j
                                            + 1)) && crate::rules::ally_at(b, turn, fr, fc)
                                        implies !authorized(
                                        b,
                                        h,
                                        kind_at(b, fr, fc).unwrap(),
                                        turn,
                                        fr,
                                        fc,
                                        tr,
                                        tc,
                                    ) by {
                                        if fr == i && fc == j {
                                            if authorized(
                                                b,
                                                h,
                                                kind_at(b, fr, fc).unwrap(),
                                                turn,
                                                fr,
                                                fc,
                                                tr,
                                                tc,
                                            ) {
                                                assert(contains_rc(positions@, tr, tc));
                                                assert(false);
                                            }
                                        }
                                    }
                                }
                            }
                        } else {
                            proof {
                                assert(!crate::rules::ally_at(b, turn, i as int, j as int));
                            }
                        }
                    },
                    None => {
                        proof {
                            assert(!crate::rules::ally_at(b, turn, i as int, j as int));
                        }
                    },
                }
                j = j + 1;
            }
            i = i + 1;
        }
        proof {
            if count == 0 {
                assert forall|fr: int, fc: int, tr: int, tc: int|
                    crate::rules::in_bounds(fr, fc) && crate::rules::ally_at(b, turn, fr, fc)
                    implies !authorized(b, h, kind_at(b, fr, fc).unwrap(), turn, fr, fc, tr, tc) by {}
                assert(no_moves(b, h, turn));
            }
        }
        count
    }

    /// Checkmate: the side to move is in check and has no legal move.
    pub fn is_checkmate(&self) -> (r: bool)
        requires
            self.wf(),
        ensures
            r == (is_check(self.board, self.player_turn) && no_moves(
                self.board,
                self.move_history@,
                self.player_turn,
            )),
    {
        if !is_getting_checked(self.board, self.player_turn, &self.move_history) {
            return false;
        }
        self.number_of_authorized_positions() == 0
    }

    /// The last nine plies repeat a four-ply cycle twice over.
    pub fn draw_by_repetition(&self) -> (r: bool)
        ensures
            r == rep_cycle(self.move_history@),
    {
        let n = self.move_history.len();
        if n >= 9 {
            let h = &self.move_history;
            let e1 = h[n - 1].0 == h[n - 5].0 && h[n - 1].1 == h[n - 5].1;
            let e2 = h[n - 2].0 == h[n - 6].0 && h[n - 2].1 == h[n - 6].1;
            let e3 = h[n - 5].0 == h[n - 9].0 && h[n - 5].1 == h[n - 9].1;
            let e4 = h[n - 3].0 == h[n - 7].0 && h[n - 3].1 == h[n - 7].1;
            let e5 = h[n - 4].0 == h[n - 8].0 && h[n - 4].1 == h[n - 8].1;
            e1 && e2 && e3 && e4 && e5
        } else {
            false
        }
    }

    /// Draw: the side to move has no legal move while not in check
    /// (stalemate), or fifty quiet plies have accumulated, or the last
    /// plies repeat a cycle.
    pub fn is_draw(&self) -> (r: bool)
        requires
            self.wf(),
        ensures
            r == ((no_moves(self.board, self.move_history@, self.player_turn) && !is_check(
                self.board,
                self.player_turn,
            )) || self.consecutive_non_pawn_or_capture == 50 || rep_cycle(self.move_history@)),
    {
        (self.number_of_authorized_positions() == 0 && !is_getting_checked(
            self.board,
            self.player_turn,
            &self.move_history,
        )) || self.consecutive_non_pawn_or_capture == 50 || self.draw_by_repetition()
    }

    /// Replaces the pawn that has just reached its final rank by the
    /// piece the promotion cursor points at, and closes the promotion.
    pub fn promote_piece(&mut self)
        requires
            old(self).wf(),
        ensures
            final (self).wf(),
            !final (self).is_promotion,
            final (self).promotion_cursor == 0,
            final (self).board == crate::rules::promote_grid(
                old(self).board,
                old(self).move_history@,
                old(self).promotion_cursor as int,
            ),
            final (self).move_history@ == old(self).move_history@,
            final (self).player_turn == old(self).player_turn,
            final (self).consecutive_non_pawn_or_capture == old(
                self,
            ).consecutive_non_pawn_or_capture,
    {
        if self.move_history.len() > 0 {
            let last = &self.move_history[self.move_history.len() - 1];
            proof {
                assert(crate::rules::rec_ok(self.move_history@.last()));
            }
            let to_y = char_to_digit(last.1.get_char(2));
            let to_x = char_to_digit(last.1.get_char(3));
            let to = Coords::new(to_y, to_x);
            let new_piece = match self.promotion_cursor {
                0 => PieceType::Queen,
                1 => PieceType::Rook,
                2 => PieceType::Bishop,
                _ => PieceType::Knight,
            };
            let current_piece_color = get_piece_color(self.board, &to);
            if let Some(piece_color) = current_piece_color {
                self.set(&to, Some((new_piece, piece_color)));
            }
        }
        self.is_promotion = false;
        self.promotion_cursor = 0;
    }
}

} // verus!

use crate::utils::sort_positions;

verus! {

impl Board {
    /// After a selection-cursor step: the cursor stands on an authorized
    /// destination of the selected piece, or on the sentinel when that
    /// piece has none.
    pub open spec fn cursor_on_authorized(pre: Board, post: Board) -> bool {
        let b = pre.board;
        let h = pre.move_history@;
        let sr = pre.selected_coordinates.row as int;
        let sc = pre.selected_coordinates.col as int;
        match at(b, sr, sc) {
            Some(p) => if exists|tr: int, tc: int|
                #[trigger] authorized(b, h, p.0, p.1, sr, sc, tr, tc) {
                &&& post.cursor_coordinates.valid()
                &&& authorized(
                    b,
                    h,
                    p.0,
                    p.1,
                    sr,
                    sc,
                    post.cursor_coordinates.row as int,
                    post.cursor_coordinates.col as int,
                )
            } else {
                post.cursor_coordinates.row == UNDEFINED_POSITION && post.cursor_coordinates.col
                    == UNDEFINED_POSITION
            },
            None => post.cursor_coordinates.row == UNDEFINED_POSITION && post.cursor_coordinates.col
                == UNDEFINED_POSITION,
        }
    }

    /// Moves the selection cursor through the legal destinations of the
    /// selected piece, which are cycled in row-major order; with no legal
    /// destination the cursor becomes the sentinel.
    fn move_selected_piece_cursor(&mut self, first_time_moving: bool, direction: i8)
        requires
            old(self).wf(),
            direction == 1 || direction == -1,
            old(self).selected_coordinates.valid(),
        ensures
            final (self).wf(),
            final (self).board == old(self).board,
            final (self).move_history@ == old(self).move_history@,
            final (self).player_turn == old(self).player_turn,
            final (self).selected_coordinates == old(self).selected_coordinates,
            final (self).old_cursor_position == old(self).old_cursor_position,
            final (self).is_draw == old(self).is_draw,
            final (self).is_checkmate == old(self).is_checkmate,
            final (self).is_promotion == old(self).is_promotion,
            final (self).promotion_cursor == old(self).promotion_cursor,
            final (self).consecutive_non_pawn_or_capture == old(
                self,
            ).consecutive_non_pawn_or_capture,
            final (self).is_game_against_bot == old(self).is_game_against_bot,
            Self::cursor_on_authorized(*old(self), *final (self)),
    {
        let ghost b = self.board;
        let ghost h = self.move_history@;
        let ghost sr = self.selected_coordinates.row as int;
        let ghost sc = self.selected_coordinates.col as int;
        let piece_color = get_piece_color(self.board, &self.selected_coordinates);
        let piece_type = get_piece_type(self.board, &self.selected_coordinates);
        let authorized_positions = self.get_authorized_positions(
            piece_type,
            piece_color,
            &self.selected_coordinates,
        );
        if authorized_positions.len() > 0 {
            let len = authorized_positions.len() as i8;
            let base = self.selected_piece_cursor + direction;
            self.selected_piece_cursor = if self.selected_piece_cursor == 0 && first_time_moving {
                0
            } else if base < 0 {
                // cycling one step back from the first entry wraps around
                len - 1
            } else {
                base % len
            };
            proof {
                assert(0 <= self.selected_piece_cursor < len as int);
            }
            let sorted = sort_positions(authorized_positions);
            let idx = self.selected_piece_cursor as usize;
            let position = sorted[idx];
            self.cursor_coordinates = position;
            proof {
                assert(contains_rc(sorted@, position.row as int, position.col as int));
                match at(b, sr, sc) {
                    Some(p) => {
                        assert(authorized(
                            b,
                            h,
                            p.0,
                            p.1,
                            sr,
                            sc,
                            position.row as int,
                            position.col as int,
                        ));
                    },
                    None => {
                        assert(false);
                    },
                }
            }
        } else {
            self.cursor_coordinates = Coords::default();
            proof {
                match at(b, sr, sc) {
                    Some(p) => {
                        if exists|tr: int, tc: int|
                            #[trigger] authorized(b, h, p.0, p.1, sr, sc, tr, tc) {
                            let (tr, tc) = choose|tr: int, tc: int|
                                #[trigger] authorized(b, h, p.0, p.1, sr, sc, tr, tc);
                            assert(contains_rc(authorized_positions@, tr, tc));
                            assert(false);
                        }
                    },
                    None => {},
                }
            }
        }
    }

    /// Moves the board cursor up, or cycles the selection cursor while a
    /// piece is selected; frozen on a finished game or during a promotion.
    pub fn cursor_up(&mut self)
        requires
            old(self).wf(),
        ensures
            final (self).wf(),
            final (self).board == old(self).board,
            final (self).move_history@ == old(self).move_history@,
            final (self).player_turn == old(self).player_turn,
            (old(self).is_checkmate || old(self).is_draw || old(self).is_promotion) ==> *final (self) == *old(self),
            (old(self).active() && old(self).selected()) ==> Self::cursor_on_authorized(
                *old(self),
                *final (self),
            ),
            (old(self).active() && !old(self).selected()) ==> *final (self) == (Board {
                cursor_coordinates: (if old(self).cursor_coordinates.row > 0 {
                    Coords {
                        row: (old(self).cursor_coordinates.row - 1) as i8,
                        col: old(self).cursor_coordinates.col,
                    }
                } else {
                    old(self).cursor_coordinates
                }),
                ..*old(self)
            }),
    {
        if !self.is_checkmate && !self.is_draw && !self.is_promotion {
            if self.is_cell_selected() {
                self.move_selected_piece_cursor(false, -1);
            } else if self.cursor_coordinates.row > 0 {
                self.cursor_coordinates.row = self.cursor_coordinates.row - 1;
            }
        }
    }

    /// Moves the board cursor down, or cycles the selection cursor.
    pub fn cursor_down(&mut self)
        requires
            old(self).wf(),
        ensures
            final (self).wf(),
            final (self).board == old(self).board,
            final (self).move_history@ == old(self).move_history@,
            final (self).player_turn == old(self).player_turn,
            (old(self).is_checkmate || old(self).is_draw || old(self).is_promotion) ==> *final (self) == *old(self),
            (old(self).active() && old(self).selected()) ==> Self::cursor_on_authorized(
                *old(self),
                *final (self),
            ),
            (old(self).active() && !old(self).selected()) ==> *final (self) == (Board {
                cursor_coordinates: (if 0 <= old(self).cursor_coordinates.row < 7 {
                    Coords {
                        row: (old(self).cursor_coordinates.row + 1) as i8,
                        col: old(self).cursor_coordinates.col,
                    }
                } else {
                    old(self).cursor_coordinates
                }),
                ..*old(self)
            }),
    {
        if !self.is_checkmate && !self.is_draw && !self.is_promotion {
            if self.is_cell_selected() {
                self.move_selected_piece_cursor(false, 1);
            } else if self.cursor_coordinates.row < 7 && self.cursor_coordinates.row >= 0 {
                self.cursor_coordinates.row = self.cursor_coordinates.row + 1;
            }
        }
    }

    /// Moves the board cursor left; during a promotion it cycles the
    /// promotion choice instead.
    pub fn cursor_left(&mut self)
        requires
            old(self).wf(),
        ensures
            final (self).wf(),
            final (self).board == old(self).board,
            final (self).move_history@ == old(self).move_history@,
            final (self).player_turn == old(self).player_turn,
            old(self).is_promotion ==> *final (self) == (Board {
                promotion_cursor: (if old(self).promotion_cursor > 0 {
                    (old(self).promotion_cursor - 1) as i8
                } else {
                    3i8
                }),
                ..*old(self)
            }),
            (!old(self).is_promotion && (old(self).is_checkmate || old(self).is_draw)) ==> *final (self) == *old(self),
            (old(self).active() && old(self).selected()) ==> Self::cursor_on_authorized(
                *old(self),
                *final (self),
            ),
            (old(self).active() && !old(self).selected()) ==> *final (self) == (Board {
                cursor_coordinates: (if old(self).cursor_coordinates.col > 0 {
                    Coords {
                        row: old(self).cursor_coordinates.row,
                        col: (old(self).cursor_coordinates.col - 1) as i8,
                    }
                } else {
                    old(self).cursor_coordinates
                }),
                ..*old(self)
            }),
    {
        if self.is_promotion {
            self.promotion_cursor = if self.promotion_cursor > 0 {
                self.promotion_cursor - 1
            } else {
                3
            };
        } else if !self.is_checkmate && !self.is_draw {
            if self.is_cell_selected() {
                self.move_selected_piece_cursor(false, -1);
            } else if self.cursor_coordinates.col > 0 {
                self.cursor_coordinates.col = self.cursor_coordinates.col - 1;
            }
        }
    }

    /// Moves the board cursor right; during a promotion it cycles the
    /// promotion choice instead.
    pub fn cursor_right(&mut self)
        requires
            old(self).wf(),
        ensures
            final (self).wf(),
            final (self).board == old(self).board,
            final (self).move_history@ == old(self).move_history@,
            final (self).player_turn == old(self).player_turn,
            old(self).is_promotion ==> *final (self) == (Board {
                promotion_cursor: (((old(self).promotion_cursor + 1) % 4) as i8),
                ..*old(self)
            }),
            (!old(self).is_promotion && (old(self).is_checkmate || old(self).is_draw)) ==> *final (self) == *old(self),
            (old(self).active() && old(self).selected()) ==> Self::cursor_on_authorized(
                *old(self),
                *final (self),
            ),
            (old(self).active() && !old(self).selected()) ==> *final (self) == (Board {
                cursor_coordinates: (if 0 <= old(self).cursor_coordinates.col < 7 {
                    Coords {
                        row: old(self).cursor_coordinates.row,
                        col: (old(self).cursor_coordinates.col + 1) as i8,
                    }
                } else {
                    old(self).cursor_coordinates
                }),
                ..*old(self)
            }),
    {
        if self.is_promotion {
            self.promotion_cursor = (self.promotion_cursor + 1) % 4;
        } else if !self.is_checkmate && !self.is_draw {
            if self.is_cell_selected() {
                self.move_selected_piece_cursor(false, 1);
            } else if self.cursor_coordinates.col < 7 && self.cursor_coordinates.col >= 0 {
                self.cursor_coordinates.col = self.cursor_coordinates.col + 1;
            }
        }
    }
}

} // verus!

verus! {

impl Board {
    /// Whether the state is live: no finished game, no pending promotion.
    pub open spec fn active(self) -> bool {
        !self.is_promotion && !self.is_checkmate && !self.is_draw
    }

    /// Whether a cell is selected.
    pub open spec fn selected(self) -> bool {
        self.selected_coordinates.row != UNDEFINED_POSITION && self.selected_coordinates.col
            != UNDEFINED_POSITION
    }

    /// The piece under the cursor has no legal destination, so selecting
    /// does nothing at all.
    pub open spec fn spec_select_noop(self) -> bool {
        &&& self.active()
        &&& !self.selected()
        &&& match at(self.board, self.cursor_coordinates.row as int, self.cursor_coordinates.col as int) {
            Some(p) => !(exists|tr: int, tc: int|
                #[trigger] authorized(
                    self.board,
                    self.move_history@,
                    p.0,
                    p.1,
                    self.cursor_coordinates.row as int,
                    self.cursor_coordinates.col as int,
                    tr,
                    tc,
                )),
            None => true,
        }
    }

    /// Drives the state machine one step: resolves a pending promotion,
    /// selects the cell under the cursor when it holds a piece of the
    /// side to move with a legal destination, or confirms the selected
    /// move, applies it, hands the turn over and re-evaluates the
    /// termination flags.
    pub fn select_cell(&mut self)
        requires
            old(self).wf(),
            old(self).consecutive_non_pawn_or_capture < i32::MAX,
            (old(self).active() && !old(self).selected()) ==> old(
                self,
            ).cursor_coordinates.valid(),
            (old(self).active() && old(self).selected() && old(self).cursor_coordinates.valid())
                ==> mp_safe(
                old(self).board,
                old(self).player_turn,
                old(self).selected_coordinates.row as int,
                old(self).selected_coordinates.col as int,
                old(self).cursor_coordinates.row as int,
                old(self).cursor_coordinates.col as int,
            ),
        ensures
            final (self).wf(),
            old(self).spec_select_noop() ==> *final (self) == *old(self),
            !old(self).spec_select_noop() ==> {
                &&& final (self).is_checkmate == (is_check(final (self).board, final (self).player_turn)
                    && no_moves(
                    final (self).board,
                    final (self).move_history@,
                    final (self).player_turn,
                ))
                &&& final (self).is_promotion == promo_pending(
                    final (self).board,
                    final (self).move_history@,
                )
            },
            old(self).is_promotion ==> {
                &&& final (self).board == crate::rules::promote_grid(
                    old(self).board,
                    old(self).move_history@,
                    old(self).promotion_cursor as int,
                )
                &&& final (self).move_history@ == old(self).move_history@
                &&& final (self).player_turn == old(self).player_turn
            },
            (!old(self).is_promotion && (old(self).is_checkmate || old(self).is_draw)) ==> {
                &&& final (self).board == old(self).board
                &&& final (self).move_history@ == old(self).move_history@
                &&& final (self).player_turn == old(self).player_turn
            },
            (old(self).active() && !old(self).selected()) ==> {
                &&& final (self).board == old(self).board
                &&& final (self).move_history@ == old(self).move_history@
                &&& final (self).player_turn == old(self).player_turn
            },
            (old(self).active() && !old(self).selected() && !old(self).spec_select_noop()
                && crate::rules::ally_at(
                old(self).board,
                old(self).player_turn,
                old(self).cursor_coordinates.row as int,
                old(self).cursor_coordinates.col as int,
            )) ==> {
                &&& final (self).selected_coordinates == old(self).cursor_coordinates
                &&& final (self).old_cursor_position == old(self).cursor_coordinates
            },
            (old(self).active() && old(self).selected() && !old(self).cursor_coordinates.valid())
                ==> {
                &&& final (self).board == old(self).board
                &&& final (self).move_history@ == old(self).move_history@
                &&& final (self).player_turn == old(self).player_turn
            },
            (old(self).active() && old(self).selected() && old(self).cursor_coordinates.valid())
                ==> {
                let b0 = old(self).board;
                let fr = old(self).selected_coordinates.row as int;
                let fc = old(self).selected_coordinates.col as int;
                let tr = old(self).cursor_coordinates.row as int;
                let tc = old(self).cursor_coordinates.col as int;
                &&& final (self).board == mp_grid(
                    b0,
                    old(self).player_turn,
                    old(self).is_game_against_bot,
                    fr,
                    fc,
                    tr,
                    tc,
                )
                &&& final (self).player_turn == old(self).player_turn.other()
                &&& !final (self).selected()
                &&& (match kind_at(b0, fr, fc) {
                    Some(k) => {
                        &&& final (self).move_history@.len() == old(self).move_history@.len() + 1
                        &&& final (self).move_history@.drop_last() == old(self).move_history@
                        &&& final (self).move_history@.last().0 == k
                        &&& final (self).move_history@.last().1@ == hist_code(
                            fr,
                            fc,
                            tr,
                            mp_rec_to_col(b0, fr, fc, tr, tc),
                        )
                    },
                    None => final (self).move_history@ == old(self).move_history@,
                })
                &&& final (self).is_draw == ((no_moves(
                    final (self).board,
                    final (self).move_history@,
                    final (self).player_turn,
                ) && !is_check(final (self).board, final (self).player_turn)) || final (self).consecutive_non_pawn_or_capture
                    == 50 || rep_cycle(final (self).move_history@))
            },
    {
        if self.is_promotion {
            self.promote_piece();
        } else if !self.is_checkmate && !self.is_draw {
            if !self.is_cell_selected() {
                let ghost b = self.board;
                let ghost h = self.move_history@;
                let ghost cr = self.cursor_coordinates.row as int;
                let ghost cc = self.cursor_coordinates.col as int;
                let piece_color = get_piece_color(self.board, &self.cursor_coordinates);
                let piece_type = get_piece_type(self.board, &self.cursor_coordinates);
                let authorized_positions = self.get_authorized_positions(
                    piece_type,
                    piece_color,
                    &self.cursor_coordinates,
                );
                if authorized_positions.len() == 0 {
                    proof {
                        match at(b, cr, cc) {
                            Some(p) => {
                                if exists|tr: int, tc: int|
                                    #[trigger] authorized(b, h, p.0, p.1, cr, cc, tr, tc) {
                                    let (tr, tc) = choose|tr: int, tc: int|
                                        #[trigger] authorized(b, h, p.0, p.1, cr, cc, tr, tc);
                                    assert(contains_rc(authorized_positions@, tr, tc));
                                    assert(false);
                                }
                            },
                            None => {},
                        }
                    }
                    return ;
                }
                proof {
                    if authorized_positions@.len() > 0 {
                        let p0 = authorized_positions@[0];
                        assert(contains_rc(authorized_positions@, p0.row as int, p0.col as int));
                    }
                }
                if let Some(piece_color) = get_piece_color(self.board, &self.cursor_coordinates) {
                    if piece_color == self.player_turn {
                        self.selected_coordinates = self.cursor_coordinates;
                        self.old_cursor_position = self.cursor_coordinates;
                        self.move_selected_piece_cursor(true, 1);
                    }
                }
            } else {
                if self.cursor_coordinates.is_valid() {
                    let selected_coords = self.selected_coordinates;
                    let cursor_coords = self.cursor_coordinates;
                    self.move_piece(&selected_coords, &cursor_coords);
                    self.unselect_cell();
                    self.switch_player_turn();
                    let now_draw = self.is_draw();
                    self.is_draw = now_draw;
                }
            }
        }
        let now_checkmate = self.is_checkmate();
        self.is_checkmate = now_checkmate;
        let now_promotion = self.is_latest_move_promotion();
        self.is_promotion = now_promotion;
    }
}

} // verus!

use crate::rules::{blank_grid, count_char, fen_place, first_space_from};

verus! {

/// Why a FEN text was rejected.
#[derive(Clone, Copy, Debug, PartialEq, Eq, Structural)]
pub enum FenError {
    /// The text does not have exactly six space-separated fields.
    NotSixFields,
    /// The placement field overfills a row or holds an unknown character.
    InvalidPlacement,
    /// The side-to-move field does not start with 'w' or 'b'.
    InvalidColor,
}

impl Board {
    /// Reads a position from FEN: the placement field fills the grid and
    /// the second field sets the side to move; the remaining fields are
    /// ignored, but exactly six must be present.
    pub fn from_fen(fen: &str) -> (r: Result<Board, FenError>)
        ensures
            ({
                let s = fen@;
                let ok_fields = count_char(s, ' ') == 5;
                let placement = fen_place(s, 0, 0, 0, blank_grid());
                let sp = first_space_from(s, 0);
                let color_ok = sp + 1 < s.len() && (s[sp + 1] == 'w' || s[sp + 1] == 'b');
                match r {
                    Ok(b) => {
                        &&& ok_fields
                        &&& placement is Some
                        &&& color_ok
                        &&& b.board == placement.unwrap()
                        &&& b.player_turn == (if s[sp + 1] == 'w' {
                            PieceColor::White
                        } else {
                            PieceColor::Black
                        })
                        &&& b.move_history@.len() == 0
                        &&& !b.is_draw && !b.is_checkmate && !b.is_promotion
                        &&& b.consecutive_non_pawn_or_capture == 0
                        &&& !b.is_game_against_bot
                        &&& b.wf()
                    },
                    Err(e) => {
                        &&& (e == FenError::NotSixFields <==> !ok_fields)
                        &&& (e == FenError::InvalidPlacement <==> (ok_fields && placement is None))
                        &&& (e == FenError::InvalidColor <==> (ok_fields && placement is Some
                            && !color_ok))
                    },
                }
            }),
    {
        let ghost s = fen@;
        let n = fen.unicode_len();
        // exactly six space-separated fields
        let mut spaces: usize = 0;
        let mut i: usize = 0;
        while i < n
            invariant
                n == s.len(),
                s == fen@,
                0 <= i <= n,
                spaces == count_char(s.take(i as int), ' '),
                spaces <= i,
            decreases n - i,
        {
            proof {
                assert(s.take(i as int + 1).drop_last() =~= s.take(i as int));
                assert(s.take(i as int + 1).last() == s[i as int]);
            }
            if fen.get_char(i) == ' ' {
                spaces = spaces + 1;
            }
            i = i + 1;
        }
        proof {
            assert(s.take(n as int) =~= s);
        }
        if spaces != 5 {
            return Err(FenError::NotSixFields);
        }
        // the placement field
        let row0: [Piece; 8] = vstd::array::array_fill_for_copy_types(None);
        let mut board: GameBoard = vstd::array::array_fill_for_copy_types(row0);
        proof {
            assert(board == blank_grid());
        }
        let mut r: i8 = 0;
        let mut c: i8 = 0;
        let mut i: usize = 0;
        while i < n && fen.get_char(i) != ' '
            invariant
                n == s.len(),
                s == fen@,
                count_char(s, ' ') == 5,
                0 <= i <= n,
                0 <= r <= 7,
                0 <= c <= 8,
                fen_place(s, 0, 0, 0, blank_grid()) == fen_place(
                    s,
                    i as int,
                    r as int,
                    c as int,
                    board,
                ),
                first_space_from(s, 0) == first_space_from(s, i as int),
            decreases n - i,
        {
            let ch = fen.get_char(i);
            let ghost b_before = board;
            if ch == '/' {
                if r >= 7 {
                    proof {
                        assert(fen_place(s, i as int, r as int, c as int, board) is None);
                    }
                    return Err(FenError::InvalidPlacement);
                }
                r = r + 1;
                c = 0;
            } else {
                match PieceType::from_char(ch) {
                    Some(piece) => {
                        if c > 7 {
                            proof {
                                assert(fen_place(s, i as int, r as int, c as int, board) is None);
                            }
                            return Err(FenError::InvalidPlacement);
                        }
                        board[r as usize][c as usize] = Some(piece);
                        proof {
                            broadcast use vstd::array::group_array_axioms;

                            assert(board =~= gset(b_before, r as int, c as int, Some(piece)));
                        }
                        c = c + 1;
                    },
                    None => {
                        let d = char_to_digit(ch);
                        if d < 0 {
                            proof {
                                assert(fen_place(s, i as int, r as int, c as int, board) is None);
                            }
                            return Err(FenError::InvalidPlacement);
                        }
                        if c as i16 + d as i16 > 8 {
                            proof {
                                assert(fen_place(s, i as int, r as int, c as int, board) is None);
                            }
                            return Err(FenError::InvalidPlacement);
                        }
                        c = c + d;
                    },
                }
            }
            i = i + 1;
        }
        proof {
            assert(fen_place(s, 0, 0, 0, blank_grid()) == Some(board)) by {
                assert(fen_place(s, i as int, r as int, c as int, board) == Some(board));
            }
        }
        // the side to move
        let sp = i;
        proof {
            assert(first_space_from(s, sp as int) == sp as int || sp == n);
            if sp < n {
                assert(s[sp as int] == ' ');
            }
        }
        if n - sp < 2 {
            return Err(FenError::InvalidColor);
        }
        let color_ch = fen.get_char(sp + 1);
        let player_turn = if color_ch == 'w' {
            PieceColor::White
        } else if color_ch == 'b' {
            PieceColor::Black
        } else {
            return Err(FenError::InvalidColor);
        };
        Ok(Board::new(board, player_turn, Vec::new()))
    }
}

} // verus!
