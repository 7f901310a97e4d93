use vstd::prelude::*;

use crate::board::{Coords, GameBoard, HistRec};
use crate::pieces::{PieceColor, PieceType};
use crate::rules::{
    all_valid, auth_can, contains_rc, ep_ok, hist_ok, lemma_contains_rc_push,
    lemma_no_dup_rc_push, no_dup_rc, pawn_can,
};
use crate::utils::{char_to_digit, impossible_positions_king_checked, list_contains};

verus! {

pub struct Pawn;

impl Pawn {
    /// The raw reachable squares of a pawn: quiet advances, captures and
    /// en passant; with `allow_move_on_ally_positions` only the two
    /// threatened diagonals, whatever stands on them.
    #[verifier::rlimit(80)]
    pub fn piece_move(
        coordinates: &Coords,
        color: PieceColor,
        board: GameBoard,
        allow_move_on_ally_positions: bool,
        move_history: &Vec<HistRec>,
    ) -> (out: Vec<Coords>)
        requires
            coordinates.valid(),
            allow_move_on_ally_positions || hist_ok(move_history@),
        ensures
            forall|tr: int, tc: int|
                #[trigger] contains_rc(out@, tr, tc) <==> pawn_can(
                    board,
                    move_history@,
                    color,
                    coordinates.row as int,
                    coordinates.col as int,
                    tr,
                    tc,
                    allow_move_on_ally_positions,
                ),
            all_valid(out@),
            out@.len() <= 64,
            no_dup_rc(out@),
    {
        let y = coordinates.row;
        let x = coordinates.col;
        let direction: i8 = if matches!(color, PieceColor::White) {
            -1
        } else {
            1
        };
        let mut positions: Vec<Coords> = Vec::new();
        if allow_move_on_ally_positions {
            // the two threatened diagonals
            let nr = y + direction;
            if 0 <= nr && nr < 8 {
                if x - 1 >= 0 {
                    let ghost s = positions@;
                    positions.push(Coords { row: nr, col: x - 1 });
                    proof {
                        assert forall|tr: int, tc: int| true implies (#[trigger] contains_rc(
                            positions@,
                            tr,
                            tc,
                        ) <==> (contains_rc(s, tr, tc) || (tr == nr as int && tc == x - 1))) by {
                            lemma_contains_rc_push(s, Coords { row: nr, col: (x - 1) as i8 }, tr, tc);
                        }
                    }
                }
                if x + 1 < 8 {
                    let ghost s = positions@;
                    proof {
                        assert(!contains_rc(s, nr as int, (x + 1) as int));
                        lemma_no_dup_rc_push(s, Coords { row: nr, col: (x + 1) as i8 });
                    }
                    positions.push(Coords { row: nr, col: x + 1 });
                    proof {
                        assert forall|tr: int, tc: int| true implies (#[trigger] contains_rc(
                            positions@,
                            tr,
                            tc,
                        ) <==> (contains_rc(s, tr, tc) || (tr == nr as int && tc == x + 1))) by {
                            lemma_contains_rc_push(s, Coords { row: nr, col: (x + 1) as i8 }, tr, tc);
                        }
                    }
                }
            }
            return positions;
        }
        // quiet advance by one, and by two from the starting rank
        let nr = y + direction;
        if 0 <= nr && nr < 8 && matches!(board[nr as usize][x as usize], None) {
            let ghost s = positions@;
            positions.push(Coords { row: nr, col: x });
            proof {
                assert forall|tr: int, tc: int| true implies (#[trigger] contains_rc(
                    positions@,
                    tr,
                    tc,
                ) <==> (contains_rc(s, tr, tc) || (tr == nr as int && tc == x as int))) by {
                    lemma_contains_rc_push(s, Coords { row: nr, col: x }, tr, tc);
                }
            }
            let start_row: i8 = if matches!(color, PieceColor::White) {
                6
            } else {
                1
            };
            let nr2 = y + direction + direction;
            if y == start_row && 0 <= nr2 && nr2 < 8 && matches!(
                board[nr2 as usize][x as usize],
                None,
            ) {
                let ghost s = positions@;
                proof {
                    assert(!contains_rc(s, nr2 as int, x as int));
                    lemma_no_dup_rc_push(s, Coords { row: nr2, col: x });
                }
                positions.push(Coords { row: nr2, col: x });
                proof {
                    assert forall|tr: int, tc: int| true implies (#[trigger] contains_rc(
                        positions@,
                        tr,
                        tc,
                    ) <==> (contains_rc(s, tr, tc) || (tr == nr2 as int && tc == x as int))) by {
                        lemma_contains_rc_push(s, Coords { row: nr2, col: x }, tr, tc);
                    }
                }
            }
        }
        // captures onto an enemy piece
        if 0 <= nr && nr < 8 && x - 1 >= 0 {
            let enemy = match board[nr as usize][(x - 1) as usize] {
                Some((_, pcolor)) => !(pcolor == color),
                None => false,
            };
            if enemy {
                let ghost s = positions@;
                proof {
                    assert(!contains_rc(s, nr as int, (x - 1) as int));
                    lemma_no_dup_rc_push(s, Coords { row: nr, col: (x - 1) as i8 });
                }
                positions.push(Coords { row: nr, col: x - 1 });
                proof {
                    assert forall|tr: int, tc: int| true implies (#[trigger] contains_rc(
                        positions@,
                        tr,
                        tc,
                    ) <==> (contains_rc(s, tr, tc) || (tr == nr as int && tc == x - 1))) by {
                        lemma_contains_rc_push(s, Coords { row: nr, col: (x - 1) as i8 }, tr, tc);
                    }
                }
            }
        }
        if 0 <= nr && nr < 8 && x + 1 < 8 {
            let enemy = match board[nr as usize][(x + 1) as usize] {
                Some((_, pcolor)) => !(pcolor == color),
                None => false,
            };
            if enemy {
                let ghost s = positions@;
                proof {
                    assert(!contains_rc(s, nr as int, (x + 1) as int));
                    lemma_no_dup_rc_push(s, Coords { row: nr, col: (x + 1) as i8 });
                }
                positions.push(Coords { row: nr, col: x + 1 });
                proof {
                    assert forall|tr: int, tc: int| true implies (#[trigger] contains_rc(
                        positions@,
                        tr,
                        tc,
                    ) <==> (contains_rc(s, tr, tc) || (tr == nr as int && tc == x + 1))) by {
                        lemma_contains_rc_push(s, Coords { row: nr, col: (x + 1) as i8 }, tr, tc);
                    }
                }
            }
        }
        // en passant: the previous ply was an enemy pawn double step that
        // landed beside this pawn
        if move_history.len() > 0 {
            let last = &move_history[move_history.len() - 1];
            if matches!(last.0, PieceType::Pawn) {
                let from_r = char_to_digit(last.1.get_char(0));
                let to_r = char_to_digit(last.1.get_char(2));
                let to_c = char_to_digit(last.1.get_char(3));
                let two = to_r - from_r == 2 || from_r - to_r == 2;
                if two && to_r == y && (to_c == x - 1 || to_c == x + 1) && 0 <= nr && nr < 8
                    && !list_contains(&positions, &Coords { row: nr, col: to_c }) {
                    let ghost s = positions@;
                    proof {
                        lemma_no_dup_rc_push(s, Coords { row: nr, col: to_c });
                    }
                    positions.push(Coords { row: nr, col: to_c });
                    proof {
                        assert(ep_ok(move_history@, y as int, to_c as int));
                        assert forall|tr: int, tc: int| true implies (#[trigger] contains_rc(
                            positions@,
                            tr,
                            tc,
                        ) <==> (contains_rc(s, tr, tc) || (tr == nr as int && tc == to_c as int)))
                            by {
                            lemma_contains_rc_push(s, Coords { row: nr, col: to_c }, tr, tc);
                        }
                    }
                }
            }
        }
        proof {
            assert forall|tr: int, tc: int| #[trigger] contains_rc(positions@, tr, tc) implies
                pawn_can(
                board,
                move_history@,
                color,
                y as int,
                x as int,
                tr,
                tc,
                false,
            ) by {}
            assert forall|tr: int, tc: int|
                pawn_can(board, move_history@, color, y as int, x as int, tr, tc, false) implies
                #[trigger] contains_rc(positions@, tr, tc) by {}
        }
        positions
    }

    /// The raw moves filtered so that none leaves the pawn's own king
    /// in check.
    pub fn authorized_positions(
        coordinates: &Coords,
        color: PieceColor,
        board: GameBoard,
        move_history: &Vec<HistRec>,
        _is_king_checked: bool,
    ) -> (out: Vec<Coords>)
        requires
            coordinates.valid(),
            hist_ok(move_history@),
        ensures
            forall|tr: int, tc: int|
                #[trigger] contains_rc(out@, tr, tc) <==> auth_can(
                    board,
                    move_history@,
                    PieceType::Pawn,
                    color,
                    coordinates.row as int,
                    coordinates.col as int,
                    tr,
                    tc,
                ),
            all_valid(out@),
            out@.len() <= 66,
            no_dup_rc(out@),
    {
        impossible_positions_king_checked(
            coordinates,
            Self::piece_move(coordinates, color, board, false, move_history),
            board,
            color,
            move_history,
        )
    }

    /// The squares a pawn threatens: its two capture diagonals.
    pub fn protected_positions(
        coordinates: &Coords,
        color: PieceColor,
        board: GameBoard,
        move_history: &Vec<HistRec>,
    ) -> (out: Vec<Coords>)
        requires
            coordinates.valid(),
        ensures
            forall|tr: int, tc: int|
                #[trigger] contains_rc(out@, tr, tc) <==> pawn_can(
                    board,
                    Seq::<HistRec>::empty(),
                    color,
                    coordinates.row as int,
                    coordinates.col as int,
                    tr,
                    tc,
                    true,
                ),
            all_valid(out@),
            no_dup_rc(out@),
    {
        let out = Self::piece_move(coordinates, color, board, true, move_history);
        proof {
            crate::rules::lemma_piece_can_allow_hist(
                board,
                move_history@,
                PieceType::Pawn,
                color,
                coordinates.row as int,
                coordinates.col as int,
                0,
                0,
            );
            assert forall|tr: int, tc: int| true implies (#[trigger] contains_rc(out@, tr, tc)
                <==> pawn_can(
                board,
                Seq::<HistRec>::empty(),
                color,
                coordinates.row as int,
                coordinates.col as int,
                tr,
                tc,
                true,
            )) by {}
        }
        out
    }

    /// The text-art glyph of a pawn.
    pub fn to_string() -> &'static str {
        "\
    \n\
      \u{2b58}\n\
     \u{2588}\u{2588}\u{2588}\n\
      \u{2588}\u{2588}\n\
    \u{2597}\u{2588}\u{2588}\u{2588}\u{2588}\u{2596}\n\
    "
    }
}

} // verus!
