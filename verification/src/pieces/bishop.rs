use vstd::prelude::*;

use crate::board::{Coords, GameBoard, HistRec};
use crate::pieces::{PieceColor, PieceType};
use crate::rules::{
    all_valid, auth_can, bishop_can, contains_rc, lemma_all_valid_add, lemma_contains_rc_add,
    lemma_no_dup_rc_add_disjoint, lemma_ray_side, no_dup_rc,
};
use crate::utils::{impossible_positions_king_checked, scan_ray};

verus! {

pub struct Bishop;

impl Bishop {
    /// The raw reachable squares of a bishop: the four diagonal rays.
    pub fn piece_move(
        coordinates: &Coords,
        color: PieceColor,
        board: GameBoard,
        allow_move_on_ally_positions: bool,
        _move_history: &Vec<HistRec>,
    ) -> (out: Vec<Coords>)
        requires
            coordinates.valid(),
        ensures
            forall|tr: int, tc: int|
                #[trigger] contains_rc(out@, tr, tc) <==> bishop_can(
                    board,
                    color,
                    coordinates.row as int,
                    coordinates.col as int,
                    tr,
                    tc,
                    allow_move_on_ally_positions,
                ),
            all_valid(out@),
            out@.len() <= 32,
            no_dup_rc(out@),
    {
        let y = coordinates.row;
        let x = coordinates.col;
        let allow = allow_move_on_ally_positions;
        let mut positions = scan_ray(&board, color, y, x, -1, -1, allow);
        let ghost s1 = positions@;
        let mut more = scan_ray(&board, color, y, x, 1, 1, allow);
        let ghost s2 = more@;
        positions.append(&mut more);
        let ghost s12 = positions@;
        let mut more = scan_ray(&board, color, y, x, 1, -1, allow);
        let ghost s3 = more@;
        positions.append(&mut more);
        let ghost s123 = positions@;
        let mut more = scan_ray(&board, color, y, x, -1, 1, allow);
        let ghost s4 = more@;
        positions.append(&mut more);
        proof {
            lemma_all_valid_add(s1, s2);
            lemma_all_valid_add(s12, s3);
            lemma_all_valid_add(s123, s4);
            assert forall|tr: int, tc: int| true implies (#[trigger] contains_rc(
                positions@,
                tr,
                tc,
            ) <==> bishop_can(board, color, y as int, x as int, tr, tc, allow)) by {
                lemma_contains_rc_add(s123, s4, tr, tc);
                lemma_contains_rc_add(s12, s3, tr, tc);
                lemma_contains_rc_add(s1, s2, tr, tc);
            }
            // the four rays cover four disjoint quadrants, so their
            // concatenation repeats no square
            assert forall|r: int, c: int| !(#[trigger] contains_rc(s1, r, c) && #[trigger] contains_rc(
                s2,
                r,
                c,
            )) by {
                if contains_rc(s1, r, c) && contains_rc(s2, r, c) {
                    lemma_ray_side(board, color, y as int, x as int, -1, -1, r, c, allow);
                    lemma_ray_side(board, color, y as int, x as int, 1, 1, r, c, allow);
                }
            }
            lemma_no_dup_rc_add_disjoint(s1, s2);
            assert forall|r: int, c: int| !(#[trigger] contains_rc(s12, r, c) && #[trigger] contains_rc(
                s3,
                r,
                c,
            )) by {
                if contains_rc(s12, r, c) && contains_rc(s3, r, c) {
                    lemma_contains_rc_add(s1, s2, r, c);
                    lemma_ray_side(board, color, y as int, x as int, 1, -1, r, c, allow);
                    if contains_rc(s1, r, c) {
                        lemma_ray_side(board, color, y as int, x as int, -1, -1, r, c, allow);
                    }
                    if contains_rc(s2, r, c) {
                        lemma_ray_side(board, color, y as int, x as int, 1, 1, r, c, allow);
                    }
                }
            }
            lemma_no_dup_rc_add_disjoint(s12, s3);
            assert forall|r: int, c: int|
                !(#[trigger] contains_rc(s123, r, c) && #[trigger] contains_rc(s4, r, c)) by {
                if contains_rc(s123, r, c) && contains_rc(s4, r, c) {
                    lemma_contains_rc_add(s12, s3, r, c);
                    lemma_contains_rc_add(s1, s2, r, c);
                    lemma_ray_side(board, color, y as int, x as int, -1, 1, r, c, allow);
                    if contains_rc(s1, r, c) {
                        lemma_ray_side(board, color, y as int, x as int, -1, -1, r, c, allow);
                    }
                    if contains_rc(s2, r, c) {
                        lemma_ray_side(board, color, y as int, x as int, 1, 1, r, c, allow);
                    }
                    if contains_rc(s3, r, c) {
                        lemma_ray_side(board, color, y as int, x as int, 1, -1, r, c, allow);
                    }
                }
            }
            lemma_no_dup_rc_add_disjoint(s123, s4);
        }
        positions
    }

    /// The raw moves filtered so that none leaves the bishop's own king
    /// in check.
    pub fn authorized_positions(
        coordinates: &Coords,
        color: PieceColor,
        board: GameBoard,
        move_history: &Vec<HistRec>,
        _is_king_checked: bool,
    ) -> (out: Vec<Coords>)
        requires
            coordinates.valid(),
        ensures
            forall|tr: int, tc: int|
                #[trigger] contains_rc(out@, tr, tc) <==> auth_can(
                    board,
                    move_history@,
                    PieceType::Bishop,
                    color,
                    coordinates.row as int,
                    coordinates.col as int,
                    tr,
                    tc,
                ),
            all_valid(out@),
            out@.len() <= 66,
            no_dup_rc(out@),
    {
        impossible_positions_king_checked(
            coordinates,
            Self::piece_move(coordinates, color, board, false, move_history),
            board,
            color,
            move_history,
        )
    }

    /// The squares a bishop threatens or defends.
    pub fn protected_positions(
        coordinates: &Coords,
        color: PieceColor,
        board: GameBoard,
        move_history: &Vec<HistRec>,
    ) -> (out: Vec<Coords>)
        requires
            coordinates.valid(),
        ensures
            forall|tr: int, tc: int|
                #[trigger] contains_rc(out@, tr, tc) <==> bishop_can(
                    board,
                    color,
                    coordinates.row as int,
                    coordinates.col as int,
                    tr,
                    tc,
                    true,
                ),
            all_valid(out@),
            no_dup_rc(out@),
    {
        Self::piece_move(coordinates, color, board, true, move_history)
    }

    /// The text-art glyph of a bishop.
    pub fn to_string() -> &'static str {
        "\
    \n\
       \u{2b58}\n\
      \u{2588}\u{271d}\u{2588}\n\
      \u{2588}\u{2588}\u{2588}\n\
    \u{2597}\u{2588}\u{2588}\u{2588}\u{2588}\u{2588}\u{2596}\n\
    "
    }
}

} // verus!
