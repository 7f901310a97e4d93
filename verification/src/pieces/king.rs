use vstd::prelude::*;

use crate::board::{Coords, GameBoard, HistRec};
use crate::pieces::{PieceColor, PieceType};
use crate::rules::{
    all_valid, auth_can, authorized, castle_long_ok, castle_short_ok, contains_rc, hist_ok,
    jump_ok, king_can, lemma_contains_rc_push, lemma_no_dup_rc_push, no_dup_rc,
};
use crate::utils::{
    did_piece_already_move, impossible_positions_king_checked, is_getting_checked, square_attacked,
    try_jump,
};

verus! {

pub struct King;

impl King {
    /// The raw reachable squares of a king: the eight adjacent squares,
    /// with no safety filtering at this layer.
    pub fn piece_move(
        coordinates: &Coords,
        color: PieceColor,
        board: GameBoard,
        allow_move_on_ally_positions: bool,
        _move_history: &Vec<HistRec>,
    ) -> (out: Vec<Coords>)
        requires
            coordinates.valid(),
        ensures
            forall|tr: int, tc: int|
                #[trigger] contains_rc(out@, tr, tc) <==> king_can(
                    board,
                    color,
                    coordinates.row as int,
                    coordinates.col as int,
                    tr,
                    tc,
                    allow_move_on_ally_positions,
                ),
            all_valid(out@),
            out@.len() <= 64,
            no_dup_rc(out@),
    {
        let y = coordinates.row;
        let x = coordinates.col;
        let allow = allow_move_on_ally_positions;
        let mut positions: Vec<Coords> = Vec::new();
        try_jump(&board, color, &mut positions, y - 1, x - 1, allow);
        proof {
            assert(!contains_rc(positions@, (y - 1) as int, x as int));
        }
        try_jump(&board, color, &mut positions, y - 1, x, allow);
        proof {
            assert(!contains_rc(positions@, (y - 1) as int, (x + 1) as int));
        }
        try_jump(&board, color, &mut positions, y - 1, x + 1, allow);
        proof {
            assert(!contains_rc(positions@, y as int, (x - 1) as int));
        }
        try_jump(&board, color, &mut positions, y, x - 1, allow);
        proof {
            assert(!contains_rc(positions@, y as int, (x + 1) as int));
        }
        try_jump(&board, color, &mut positions, y, x + 1, allow);
        proof {
            assert(!contains_rc(positions@, (y + 1) as int, (x - 1) as int));
        }
        try_jump(&board, color, &mut positions, y + 1, x - 1, allow);
        proof {
            assert(!contains_rc(positions@, (y + 1) as int, x as int));
        }
        try_jump(&board, color, &mut positions, y + 1, x, allow);
        proof {
            assert(!contains_rc(positions@, (y + 1) as int, (x + 1) as int));
        }
        try_jump(&board, color, &mut positions, y + 1, x + 1, allow);
        proof {
            assert forall|tr: int, tc: int| true implies (#[trigger] contains_rc(
                positions@,
                tr,
                tc,
            ) <==> king_can(board, color, y as int, x as int, tr, tc, allow)) by {
                if king_can(board, color, y as int, x as int, tr, tc, allow) {
                    assert(jump_ok(board, color, tr, tc, allow));
                }
            }
        }
        positions
    }

    /// The safe king steps, and the castling candidates: king and rook
    /// untouched on their home squares, the path empty, the king not in
    /// check, and the crossed squares unattacked. A castling candidate is
    /// reported as the rook's own square.
    pub fn authorized_positions(
        coordinates: &Coords,
        color: PieceColor,
        board: GameBoard,
        move_history: &Vec<HistRec>,
        _is_king_checked: bool,
    ) -> (out: Vec<Coords>)
        requires
            coordinates.valid(),
            hist_ok(move_history@),
        ensures
            forall|tr: int, tc: int|
                #[trigger] contains_rc(out@, tr, tc) <==> authorized(
                    board,
                    move_history@,
                    PieceType::King,
                    color,
                    coordinates.row as int,
                    coordinates.col as int,
                    tr,
                    tc,
                ),
            all_valid(out@),
            out@.len() <= 66,
            no_dup_rc(out@),
    {
        let mut positions = impossible_positions_king_checked(
            coordinates,
            Self::piece_move(coordinates, color, board, false, move_history),
            board,
            color,
            move_history,
        );
        let line: i8 = if matches!(color, PieceColor::White) {
            7
        } else {
            0
        };
        let king_home = Coords { row: line, col: 4 };
        let king_there = match board[line as usize][4] {
            Some((PieceType::King, c)) => c == color,
            _ => false,
        };
        let untouched_king = !did_piece_already_move(move_history, (PieceType::King, king_home));
        let in_check = is_getting_checked(board, color, move_history);
        let rook_there_k = match board[line as usize][7] {
            Some((PieceType::Rook, c)) => c == color,
            _ => false,
        };
        let untouched_rook_k = !did_piece_already_move(
            move_history,
            (PieceType::Rook, Coords { row: line, col: 7 }),
        );
        let path_free_k = matches!(board[line as usize][5], None) && matches!(
            board[line as usize][6],
            None,
        );
        let safe_k = !square_attacked(
            board,
            color.opposite(),
            &Coords { row: line, col: 5 },
            move_history,
        ) && !square_attacked(
            board,
            color.opposite(),
            &Coords { row: line, col: 6 },
            move_history,
        );
        let can_short = king_there && untouched_king && !in_check && rook_there_k
            && untouched_rook_k && path_free_k && safe_k;
        proof {
            assert(can_short == castle_short_ok(board, move_history@, color));
        }
        let rook_there_q = match board[line as usize][0] {
            Some((PieceType::Rook, c)) => c == color,
            _ => false,
        };
        let untouched_rook_q = !did_piece_already_move(
            move_history,
            (PieceType::Rook, Coords { row: line, col: 0 }),
        );
        let path_free_q = matches!(board[line as usize][1], None) && matches!(
            board[line as usize][2],
            None,
        ) && matches!(board[line as usize][3], None);
        let safe_q = !square_attacked(
            board,
            color.opposite(),
            &Coords { row: line, col: 2 },
            move_history,
        ) && !square_attacked(
            board,
            color.opposite(),
            &Coords { row: line, col: 3 },
            move_history,
        );
        let can_long = king_there && untouched_king && !in_check && rook_there_q
            && untouched_rook_q && path_free_q && safe_q;
        proof {
            assert(can_long == castle_long_ok(board, move_history@, color));
        }
        let ghost filtered = positions@;
        if can_short {
            let ghost s = positions@;
            proof {
                // the filtered king steps never land on the ally rook's
                // square, so the castling candidate is new
                assert(!contains_rc(s, line as int, 7)) by {
                    if contains_rc(s, line as int, 7) {
                        assert(auth_can(
                            board,
                            move_history@,
                            PieceType::King,
                            color,
                            coordinates.row as int,
                            coordinates.col as int,
                            line as int,
                            7,
                        ));
                        assert(crate::rules::ally_at(board, color, line as int, 7));
                    }
                }
                lemma_no_dup_rc_push(s, Coords { row: line, col: 7 });
            }
            positions.push(Coords { row: line, col: 7 });
            proof {
                assert forall|tr: int, tc: int| true implies (#[trigger] contains_rc(
                    positions@,
                    tr,
                    tc,
                ) <==> (contains_rc(s, tr, tc) || (tr == line as int && tc == 7))) by {
                    lemma_contains_rc_push(s, Coords { row: line, col: 7 }, tr, tc);
                }
            }
        }
        if can_long {
            let ghost s = positions@;
            proof {
                assert(!contains_rc(filtered, line as int, 0)) by {
                    if contains_rc(filtered, line as int, 0) {
                        assert(auth_can(
                            board,
                            move_history@,
                            PieceType::King,
                            color,
                            coordinates.row as int,
                            coordinates.col as int,
                            line as int,
                            0,
                        ));
                        assert(crate::rules::ally_at(board, color, line as int, 0));
                    }
                }
                if can_short {
                    lemma_contains_rc_push(filtered, Coords { row: line, col: 7 }, line as int, 0);
                }
                assert(!contains_rc(s, line as int, 0));
                lemma_no_dup_rc_push(s, Coords { row: line, col: 0 });
            }
            positions.push(Coords { row: line, col: 0 });
            proof {
                assert forall|tr: int, tc: int| true implies (#[trigger] contains_rc(
                    positions@,
                    tr,
                    tc,
                ) <==> (contains_rc(s, tr, tc) || (tr == line as int && tc == 0))) by {
                    lemma_contains_rc_push(s, Coords { row: line, col: 0 }, tr, tc);
                }
            }
        }
        proof {
            assert forall|tr: int, tc: int| true implies (#[trigger] contains_rc(positions@, tr, tc)
                <==> authorized(
                board,
                move_history@,
                PieceType::King,
                color,
                coordinates.row as int,
                coordinates.col as int,
                tr,
                tc,
            )) by {}
        }
        positions
    }

    /// The squares a king threatens or defends: the eight neighbours.
    pub fn protected_positions(
        coordinates: &Coords,
        color: PieceColor,
        board: GameBoard,
        move_history: &Vec<HistRec>,
    ) -> (out: Vec<Coords>)
        requires
            coordinates.valid(),
        ensures
            forall|tr: int, tc: int|
                #[trigger] contains_rc(out@, tr, tc) <==> king_can(
                    board,
                    color,
                    coordinates.row as int,
                    coordinates.col as int,
                    tr,
                    tc,
                    true,
                ),
            all_valid(out@),
            no_dup_rc(out@),
    {
        Self::piece_move(coordinates, color, board, true, move_history)
    }

    /// The text-art glyph of a king.
    pub fn to_string() -> &'static str {
        "\
    \n\
      \u{271a}\n\
    \u{2594}\u{2588}\u{2588}\u{2588}\u{2594}\n\
     \u{2588}\u{2588}\u{2588}\n\
    \u{2597}\u{2588}\u{2588}\u{2588}\u{2588}\u{2588}\u{2596}\n\
    "
    }
}

} // verus!
