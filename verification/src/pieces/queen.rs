use vstd::prelude::*;

use crate::board::{Coords, GameBoard, HistRec};
use crate::pieces::bishop::Bishop;
use crate::pieces::rook::Rook;
use crate::pieces::{PieceColor, PieceType};
use crate::rules::{
    all_valid, auth_can, bishop_can, contains_rc, lemma_all_valid_add, lemma_contains_rc_add,
    lemma_no_dup_rc_add_disjoint, lemma_ray_side, no_dup_rc, queen_can, ray_reaches, rook_can,
};
use crate::utils::impossible_positions_king_checked;

verus! {

pub struct Queen;

impl Queen {
    /// The raw reachable squares of a queen: the bishop and rook rays
    /// together.
    pub fn piece_move(
        coordinates: &Coords,
        color: PieceColor,
        board: GameBoard,
        allow_move_on_ally_positions: bool,
        move_history: &Vec<HistRec>,
    ) -> (out: Vec<Coords>)
        requires
            coordinates.valid(),
        ensures
            forall|tr: int, tc: int|
                #[trigger] contains_rc(out@, tr, tc) <==> queen_can(
                    board,
                    color,
                    coordinates.row as int,
                    coordinates.col as int,
                    tr,
                    tc,
                    allow_move_on_ally_positions,
                ),
            all_valid(out@),
            out@.len() <= 64,
            no_dup_rc(out@),
    {
        let allow = allow_move_on_ally_positions;
        let mut positions = Bishop::piece_move(coordinates, color, board, allow, move_history);
        let ghost s1 = positions@;
        let mut more = Rook::piece_move(coordinates, color, board, allow, move_history);
        let ghost s2 = more@;
        positions.append(&mut more);
        proof {
            lemma_all_valid_add(s1, s2);
            assert forall|tr: int, tc: int| true implies (#[trigger] contains_rc(
                positions@,
                tr,
                tc,
            ) <==> queen_can(
                board,
                color,
                coordinates.row as int,
                coordinates.col as int,
                tr,
                tc,
                allow,
            )) by {
                lemma_contains_rc_add(s1, s2, tr, tc);
            }
            // diagonal squares differ from the origin in both components,
            // straight squares in exactly one, so the parts are disjoint
            let yi = coordinates.row as int;
            let xi = coordinates.col as int;
            assert forall|r: int, c: int| !(#[trigger] contains_rc(s1, r, c) && #[trigger] contains_rc(
                s2,
                r,
                c,
            )) by {
                if contains_rc(s1, r, c) && contains_rc(s2, r, c) {
                    assert(bishop_can(board, color, yi, xi, r, c, allow));
                    assert(rook_can(board, color, yi, xi, r, c, allow));
                    if ray_reaches(board, color, yi, xi, -1, -1, r, c, allow) {
                        lemma_ray_side(board, color, yi, xi, -1, -1, r, c, allow);
                    }
                    if ray_reaches(board, color, yi, xi, -1, 1, r, c, allow) {
                        lemma_ray_side(board, color, yi, xi, -1, 1, r, c, allow);
                    }
                    if ray_reaches(board, color, yi, xi, 1, -1, r, c, allow) {
                        lemma_ray_side(board, color, yi, xi, 1, -1, r, c, allow);
                    }
                    if ray_reaches(board, color, yi, xi, 1, 1, r, c, allow) {
                        lemma_ray_side(board, color, yi, xi, 1, 1, r, c, allow);
                    }
                    if ray_reaches(board, color, yi, xi, -1, 0, r, c, allow) {
                        lemma_ray_side(board, color, yi, xi, -1, 0, r, c, allow);
                    }
                    if ray_reaches(board, color, yi, xi, 1, 0, r, c, allow) {
                        lemma_ray_side(board, color, yi, xi, 1, 0, r, c, allow);
                    }
                    if ray_reaches(board, color, yi, xi, 0, -1, r, c, allow) {
                        lemma_ray_side(board, color, yi, xi, 0, -1, r, c, allow);
                    }
                    if ray_reaches(board, color, yi, xi, 0, 1, r, c, allow) {
                        lemma_ray_side(board, color, yi, xi, 0, 1, r, c, allow);
                    }
                }
            }
            lemma_no_dup_rc_add_disjoint(s1, s2);
        }
        positions
    }

    /// The raw moves filtered so that none leaves the queen's own king
    /// in check.
    pub fn authorized_positions(
        coordinates: &Coords,
        color: PieceColor,
        board: GameBoard,
        move_history: &Vec<HistRec>,
        _is_king_checked: bool,
    ) -> (out: Vec<Coords>)
        requires
            coordinates.valid(),
        ensures
            forall|tr: int, tc: int|
                #[trigger] contains_rc(out@, tr, tc) <==> auth_can(
                    board,
                    move_history@,
                    PieceType::Queen,
                    color,
                    coordinates.row as int,
                    coordinates.col as int,
                    tr,
                    tc,
                ),
            all_valid(out@),
            out@.len() <= 66,
            no_dup_rc(out@),
    {
        impossible_positions_king_checked(
            coordinates,
            Self::piece_move(coordinates, color, board, false, move_history),
            board,
            color,
            move_history,
        )
    }

    /// The squares a queen threatens or defends.
    pub fn protected_positions(
        coordinates: &Coords,
        color: PieceColor,
        board: GameBoard,
        move_history: &Vec<HistRec>,
    ) -> (out: Vec<Coords>)
        requires
            coordinates.valid(),
        ensures
            forall|tr: int, tc: int|
                #[trigger] contains_rc(out@, tr, tc) <==> queen_can(
                    board,
                    color,
                    coordinates.row as int,
                    coordinates.col as int,
                    tr,
                    tc,
                    true,
                ),
            all_valid(out@),
            no_dup_rc(out@),
    {
        Self::piece_move(coordinates, color, board, true, move_history)
    }

    /// The text-art glyph of a queen.
    pub fn to_string() -> &'static str {
        "\
    \n\
    \u{25cf}\u{25cf}\u{25cf}\u{25cf}\u{25cf}\n\
    \u{2593}\u{2593}\u{2593}\u{2593}\u{2593}\n\
     \u{2588}\u{2588}\u{2588}\n\
    \u{2597}\u{2588}\u{2588}\u{2588}\u{2588}\u{2588}\u{2596}\n\
    "
    }
}

} // verus!
