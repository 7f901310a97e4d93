use vstd::prelude::*;

use crate::board::{Coords, GameBoard, HistRec};
use crate::pieces::{PieceColor, PieceType};
use crate::rules::{all_valid, auth_can, contains_rc, jump_ok, knight_can, no_dup_rc};
use crate::utils::{impossible_positions_king_checked, try_jump};

verus! {

pub struct Knight;

impl Knight {
    /// The raw reachable squares of a knight: the eight L-shaped offsets.
    pub fn piece_move(
        coordinates: &Coords,
        color: PieceColor,
        board: GameBoard,
        allow_move_on_ally_positions: bool,
        _move_history: &Vec<HistRec>,
    ) -> (out: Vec<Coords>)
        requires
            coordinates.valid(),
        ensures
            forall|tr: int, tc: int|
                #[trigger] contains_rc(out@, tr, tc) <==> knight_can(
                    board,
                    color,
                    coordinates.row as int,
                    coordinates.col as int,
                    tr,
                    tc,
                    allow_move_on_ally_positions,
                ),
            all_valid(out@),
            out@.len() <= 64,
            no_dup_rc(out@),
    {
        let y = coordinates.row;
        let x = coordinates.col;
        let allow = allow_move_on_ally_positions;
        let mut positions: Vec<Coords> = Vec::new();
        try_jump(&board, color, &mut positions, y - 2, x - 1, allow);
        proof {
            assert(!contains_rc(positions@, (y - 2) as int, (x + 1) as int));
        }
        try_jump(&board, color, &mut positions, y - 2, x + 1, allow);
        proof {
            assert(!contains_rc(positions@, (y - 1) as int, (x - 2) as int));
        }
        try_jump(&board, color, &mut positions, y - 1, x - 2, allow);
        proof {
            assert(!contains_rc(positions@, (y - 1) as int, (x + 2) as int));
        }
        try_jump(&board, color, &mut positions, y - 1, x + 2, allow);
        proof {
            assert(!contains_rc(positions@, (y + 1) as int, (x - 2) as int));
        }
        try_jump(&board, color, &mut positions, y + 1, x - 2, allow);
        proof {
            assert(!contains_rc(positions@, (y + 1) as int, (x + 2) as int));
        }
        try_jump(&board, color, &mut positions, y + 1, x + 2, allow);
        proof {
            assert(!contains_rc(positions@, (y + 2) as int, (x - 1) as int));
        }
        try_jump(&board, color, &mut positions, y + 2, x - 1, allow);
        proof {
            assert(!contains_rc(positions@, (y + 2) as int, (x + 1) as int));
        }
        try_jump(&board, color, &mut positions, y + 2, x + 1, allow);
        proof {
            assert forall|tr: int, tc: int| true implies (#[trigger] contains_rc(
                positions@,
                tr,
                tc,
            ) <==> knight_can(board, color, y as int, x as int, tr, tc, allow)) by {
                if knight_can(board, color, y as int, x as int, tr, tc, allow) {
                    assert(jump_ok(board, color, tr, tc, allow));
                }
            }
        }
        positions
    }

    /// The raw moves filtered so that none leaves the knight's own king
    /// in check.
    pub fn authorized_positions(
        coordinates: &Coords,
        color: PieceColor,
        board: GameBoard,
        move_history: &Vec<HistRec>,
        _is_king_checked: bool,
    ) -> (out: Vec<Coords>)
        requires
            coordinates.valid(),
        ensures
            forall|tr: int, tc: int|
                #[trigger] contains_rc(out@, tr, tc) <==> auth_can(
                    board,
                    move_history@,
                    PieceType::Knight,
                    color,
                    coordinates.row as int,
                    coordinates.col as int,
                    tr,
                    tc,
                ),
            all_valid(out@),
            out@.len() <= 66,
            no_dup_rc(out@),
    {
        impossible_positions_king_checked(
            coordinates,
            Self::piece_move(coordinates, color, board, false, move_history),
            board,
            color,
            move_history,
        )
    }

    /// The squares a knight threatens or defends.
    pub fn protected_positions(
        coordinates: &Coords,
        color: PieceColor,
        board: GameBoard,
        move_history: &Vec<HistRec>,
    ) -> (out: Vec<Coords>)
        requires
            coordinates.valid(),
        ensures
            forall|tr: int, tc: int|
                #[trigger] contains_rc(out@, tr, tc) <==> knight_can(
                    board,
                    color,
                    coordinates.row as int,
                    coordinates.col as int,
                    tr,
                    tc,
                    true,
                ),
            all_valid(out@),
            no_dup_rc(out@),
    {
        Self::piece_move(coordinates, color, board, true, move_history)
    }

    /// The text-art glyph of a knight.
    pub fn to_string() -> &'static str {
        "\
    \n\
    \u{259f}\u{259b}\u{2588}\u{2588}\u{2599}\n\
   \u{259f}\u{2588}\u{2588}\u{2588}\u{2588}\u{2588}\n\
   \u{2580}\u{2580}\u{259f}\u{2588}\u{2588}\u{258c}\n\
    \u{259f}\u{2588}\u{2588}\u{2588}\u{2588}\n\
    "
    }
}

} // verus!
