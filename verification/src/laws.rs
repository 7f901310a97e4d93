//! The general laws of the engine, stated and proved over the ghost
//! model that the executable contracts are written against.
use vstd::prelude::*;

use crate::board::{GameBoard, HistRec};
use crate::pieces::{PieceColor, PieceType};
use crate::rules::{
    ally_at, at, authorized, bishop_can, col_char, digit_char, empty_at, fen_ep, hist_code,
    in_bounds, is_check, king_can, kind_at, knight_can, last_was_pawn_two, mp_grid, mp_is_castle,
    mp_is_ep, no_moves, off, pawn_can, pawn_dir, pawn_start_row, queen_can, ray_hit, ray_reaches,
    rec_eq, rec_from_col, rec_from_row, rep_cycle, rook_can, tb_grid, tb_refill,
};

verus! {

/// On an empty board a knight reaches exactly the on-grid squares an
/// L-shaped jump away.
pub proof fn law_knight_empty_board(
    b: GameBoard,
    color: PieceColor,
    fr: int,
    fc: int,
    tr: int,
    tc: int,
)
    requires
        forall|r: int, c: int| in_bounds(r, c) ==> empty_at(b, r, c),
        in_bounds(fr, fc),
    ensures
        knight_can(b, color, fr, fc, tr, tc, false) <==> (in_bounds(tr, tc) && ((tr - fr == 1 || tr
            - fr == -1) && (tc - fc == 2 || tc - fc == -2) || (tr - fr == 2 || tr - fr == -2) && (
        tc - fc == 1 || tc - fc == -1))),
{
}

/// On an empty board a king reaches exactly the on-grid adjacent squares.
pub proof fn law_king_empty_board(
    b: GameBoard,
    color: PieceColor,
    fr: int,
    fc: int,
    tr: int,
    tc: int,
)
    requires
        forall|r: int, c: int| in_bounds(r, c) ==> empty_at(b, r, c),
        in_bounds(fr, fc),
    ensures
        king_can(b, color, fr, fc, tr, tc, false) <==> (in_bounds(tr, tc) && (tr != fr || tc != fc)
            && -1 <= tr - fr <= 1 && -1 <= tc - fc <= 1),
{
}

/// On an empty board, with no recorded plies, a pawn advances one row,
/// or two from its starting rank, and nothing else.
pub proof fn law_pawn_empty_board(
    b: GameBoard,
    color: PieceColor,
    fr: int,
    fc: int,
    tr: int,
    tc: int,
)
    requires
        forall|r: int, c: int| in_bounds(r, c) ==> empty_at(b, r, c),
        in_bounds(fr, fc),
    ensures
        pawn_can(b, Seq::<HistRec>::empty(), color, fr, fc, tr, tc, false) <==> (in_bounds(tr, tc)
            && tc == fc && (tr == fr + pawn_dir(color) || (tr == fr + 2 * pawn_dir(color) && fr
            == pawn_start_row(color)))),
{
    if in_bounds(tr, tc) && tc == fc {
        if tr == fr + 2 * pawn_dir(color) && fr == pawn_start_row(color) {
            assert(in_bounds(fr + pawn_dir(color), fc));
            assert(empty_at(b, fr + pawn_dir(color), fc));
            assert(empty_at(b, tr, tc));
        }
        if tr == fr + pawn_dir(color) {
            assert(empty_at(b, tr, tc));
        }
    }
    if pawn_can(b, Seq::<HistRec>::empty(), color, fr, fc, tr, tc, false) {
        if in_bounds(tr, tc) && tr == fr + pawn_dir(color) && (tc == fc - 1 || tc == fc + 1) {
            assert(empty_at(b, tr, tc));
            assert(!crate::rules::enemy_at(b, color, tr, tc));
            assert(!crate::rules::ep_ok(Seq::<HistRec>::empty(), fr, tc));
        }
    }
}

/// On an empty board a sliding ray reaches exactly the on-grid squares
/// along its direction.
proof fn law_ray_empty_board(
    b: GameBoard,
    color: PieceColor,
    fr: int,
    fc: int,
    dr: int,
    dc: int,
    k: int,
)
    requires
        forall|r: int, c: int| in_bounds(r, c) ==> empty_at(b, r, c),
        in_bounds(fr, fc),
        -1 <= dr <= 1,
        -1 <= dc <= 1,
        dr != 0 || dc != 0,
        1 <= k,
        in_bounds(off(fr, dr, k), off(fc, dc, k)),
    ensures
        ray_reaches(b, color, fr, fc, dr, dc, off(fr, dr, k), off(fc, dc, k), false),
{
    assert forall|j: int| 1 <= j < k implies crate::rules::passable(
        b,
        color,
        off(fr, dr, j),
        #[trigger] off(fc, dc, j),
        false,
    ) by {
        assert(in_bounds(off(fr, dr, j), off(fc, dc, j)));
    }
    assert(!ally_at(b, color, off(fr, dr, k), off(fc, dc, k)));
    assert(ray_hit(b, color, fr, fc, dr, dc, k, false));
}

/// On an empty board a bishop reaches exactly the other on-grid squares
/// of its two diagonals.
pub proof fn law_bishop_empty_board(
    b: GameBoard,
    color: PieceColor,
    fr: int,
    fc: int,
    tr: int,
    tc: int,
)
    requires
        forall|r: int, c: int| in_bounds(r, c) ==> empty_at(b, r, c),
        in_bounds(fr, fc),
    ensures
        bishop_can(b, color, fr, fc, tr, tc, false) <==> (in_bounds(tr, tc) && (tr != fr || tc
            != fc) && (tr - fr == tc - fc || tr - fr == fc - tc)),
{
    if in_bounds(tr, tc) && (tr != fr || tc != fc) && (tr - fr == tc - fc || tr - fr == fc - tc) {
        if tr < fr && tc < fc {
            let k = fr - tr;
            law_ray_empty_board(b, color, fr, fc, -1, -1, k);
        } else if tr < fr && tc > fc {
            let k = fr - tr;
            law_ray_empty_board(b, color, fr, fc, -1, 1, k);
        } else if tr > fr && tc < fc {
            let k = tr - fr;
            law_ray_empty_board(b, color, fr, fc, 1, -1, k);
        } else {
            let k = tr - fr;
            law_ray_empty_board(b, color, fr, fc, 1, 1, k);
        }
    }
    if bishop_can(b, color, fr, fc, tr, tc, false) {
        assert(in_bounds(tr, tc) && (tr != fr || tc != fc) && (tr - fr == tc - fc || tr - fr == fc
            - tc)) by {
            if ray_reaches(b, color, fr, fc, -1, -1, tr, tc, false) {
                let k = choose|k: int|
                    #[trigger] ray_hit(b, color, fr, fc, -1, -1, k, false) && tr == off(fr, -1, k)
                        && tc == off(fc, -1, k);
            }
            if ray_reaches(b, color, fr, fc, -1, 1, tr, tc, false) {
                let k = choose|k: int|
                    #[trigger] ray_hit(b, color, fr, fc, -1, 1, k, false) && tr == off(fr, -1, k)
                        && tc == off(fc, 1, k);
            }
            if ray_reaches(b, color, fr, fc, 1, -1, tr, tc, false) {
                let k = choose|k: int|
                    #[trigger] ray_hit(b, color, fr, fc, 1, -1, k, false) && tr == off(fr, 1, k)
                        && tc == off(fc, -1, k);
            }
            if ray_reaches(b, color, fr, fc, 1, 1, tr, tc, false) {
                let k = choose|k: int|
                    #[trigger] ray_hit(b, color, fr, fc, 1, 1, k, false) && tr == off(fr, 1, k)
                        && tc == off(fc, 1, k);
            }
        }
    }
}

/// On an empty board a rook reaches exactly the other on-grid squares of
/// its rank and file.
pub proof fn law_rook_empty_board(
    b: GameBoard,
    color: PieceColor,
    fr: int,
    fc: int,
    tr: int,
    tc: int,
)
    requires
        forall|r: int, c: int| in_bounds(r, c) ==> empty_at(b, r, c),
        in_bounds(fr, fc),
    ensures
        rook_can(b, color, fr, fc, tr, tc, false) <==> (in_bounds(tr, tc) && ((tr == fr && tc
            != fc) || (tc == fc && tr != fr))),
{
    if in_bounds(tr, tc) && ((tr == fr && tc != fc) || (tc == fc && tr != fr)) {
        if tr < fr {
            law_ray_empty_board(b, color, fr, fc, -1, 0, fr - tr);
        } else if tr > fr {
            law_ray_empty_board(b, color, fr, fc, 1, 0, tr - fr);
        } else if tc < fc {
            law_ray_empty_board(b, color, fr, fc, 0, -1, fc - tc);
        } else {
            law_ray_empty_board(b, color, fr, fc, 0, 1, tc - fc);
        }
    }
    if rook_can(b, color, fr, fc, tr, tc, false) {
        assert(in_bounds(tr, tc) && ((tr == fr && tc != fc) || (tc == fc && tr != fr))) by {
            if ray_reaches(b, color, fr, fc, -1, 0, tr, tc, false) {
                let k = choose|k: int|
                    #[trigger] ray_hit(b, color, fr, fc, -1, 0, k, false) && tr == off(fr, -1, k)
                        && tc == off(fc, 0, k);
            }
            if ray_reaches(b, color, fr, fc, 1, 0, tr, tc, false) {
                let k = choose|k: int|
                    #[trigger] ray_hit(b, color, fr, fc, 1, 0, k, false) && tr == off(fr, 1, k)
                        && tc == off(fc, 0, k);
            }
            if ray_reaches(b, color, fr, fc, 0, -1, tr, tc, false) {
                let k = choose|k: int|
                    #[trigger] ray_hit(b, color, fr, fc, 0, -1, k, false) && tr == off(fr, 0, k)
                        && tc == off(fc, -1, k);
            }
            if ray_reaches(b, color, fr, fc, 0, 1, tr, tc, false) {
                let k = choose|k: int|
                    #[trigger] ray_hit(b, color, fr, fc, 0, 1, k, false) && tr == off(fr, 0, k)
                        && tc == off(fc, 1, k);
            }
        }
    }
}

/// On an empty board a queen reaches exactly the union of the rook and
/// bishop squares.
pub proof fn law_queen_empty_board(
    b: GameBoard,
    color: PieceColor,
    fr: int,
    fc: int,
    tr: int,
    tc: int,
)
    requires
        forall|r: int, c: int| in_bounds(r, c) ==> empty_at(b, r, c),
        in_bounds(fr, fc),
    ensures
        queen_can(b, color, fr, fc, tr, tc, false) <==> (in_bounds(tr, tc) && (tr != fr || tc
            != fc) && (tr == fr || tc == fc || tr - fr == tc - fc || tr - fr == fc - tc)),
{
    law_bishop_empty_board(b, color, fr, fc, tr, tc);
    law_rook_empty_board(b, color, fr, fc, tr, tc);
}

/// Under check, the game is checkmate exactly when no piece of the
/// checked side has any authorized destination.
pub proof fn law_checkmate_iff(b: GameBoard, h: Seq<HistRec>, color: PieceColor)
    requires
        is_check(b, color),
    ensures
        (is_check(b, color) && no_moves(b, h, color)) <==> (forall|fr: int, fc: int, tr: int, tc: int|
            in_bounds(fr, fc) && ally_at(b, color, fr, fc) ==> !authorized(
                b,
                h,
                kind_at(b, fr, fc).unwrap(),
                color,
                fr,
                fc,
                tr,
                tc,
            )),
{
}

/// Stalemate: a side with no legal move that is not in check makes the
/// position a draw.
pub proof fn law_stalemate(b: GameBoard, h: Seq<HistRec>, color: PieceColor, counter: int)
    requires
        no_moves(b, h, color),
        !is_check(b, color),
    ensures
        (no_moves(b, h, color) && !is_check(b, color)) || counter == 50 || rep_cycle(h),
{
}

/// The fifty-move rule: at a counter of exactly fifty the draw condition
/// holds; at forty-nine, with no other cause, it does not.
pub proof fn law_fifty_moves(b: GameBoard, h: Seq<HistRec>, color: PieceColor, counter: int)
    ensures
        counter == 50 ==> ((no_moves(b, h, color) && !is_check(b, color)) || counter == 50
            || rep_cycle(h)),
        (counter == 49 && !no_moves(b, h, color) && !rep_cycle(h)) ==> !((no_moves(b, h, color)
            && !is_check(b, color)) || counter == 50 || rep_cycle(h)),
{
}

/// Repetition: when the four plies of a cycle are played twice over and
/// the ninth-from-last ply already began it, the draw condition holds.
pub proof fn law_repetition(b: GameBoard, h: Seq<HistRec>, color: PieceColor, counter: int)
    requires
        h.len() >= 9,
        rec_eq(h[h.len() - 1], h[h.len() - 5]),
        rec_eq(h[h.len() - 5], h[h.len() - 9]),
        rec_eq(h[h.len() - 2], h[h.len() - 6]),
        rec_eq(h[h.len() - 3], h[h.len() - 7]),
        rec_eq(h[h.len() - 4], h[h.len() - 8]),
    ensures
        rep_cycle(h),
        (no_moves(b, h, color) && !is_check(b, color)) || counter == 50 || rep_cycle(h),
{
}

/// The en passant field of the FEN string is the dash exactly when the
/// previous ply was not a pawn double step, and otherwise names the
/// square the pawn passed over: its file, and the rank of the row midway
/// between the step's origin and landing rows.
pub proof fn law_fen_en_passant(h: Seq<HistRec>)
    ensures
        !last_was_pawn_two(h) ==> fen_ep(h) == seq![' ', '-'],
        last_was_pawn_two(h) ==> fen_ep(h) == seq![
            ' ',
            col_char(rec_from_col(h.last())),
            digit_char(8 - (rec_from_row(h.last()) + crate::rules::rec_to_row(h.last())) / 2),
        ],
        last_was_pawn_two(h) <==> fen_ep(h) != seq![' ', '-'],
{
    if last_was_pawn_two(h) {
        assert(fen_ep(h).len() == 3);
        assert(seq![' ', '-'].len() == 2);
    }
}

} // verus!

verus! {

/// A simple ply — no capture, not castling-shaped, not en-passant-shaped,
/// not a promotion — taken back right away restores the grid exactly.
/// The takeback's refill of the vacated square must come up empty; a
/// square that the starting layout fills for the side to move would be
/// refilled spuriously.
pub proof fn law_move_then_takeback(
    b: GameBoard,
    h: Seq<HistRec>,
    turn: PieceColor,
    bot: bool,
    rec: HistRec,
    fr: int,
    fc: int,
    tr: int,
    tc: int,
)
    requires
        in_bounds(fr, fc),
        in_bounds(tr, tc),
        at(b, fr, fc) is Some,
        empty_at(b, tr, tc),
        rec.0 == at(b, fr, fc).unwrap().0,
        rec.1@ == hist_code(fr, fc, tr, tc),
        at(b, fr, fc).unwrap().0 == PieceType::King ==> -1 <= tc - fc <= 1,
        at(b, fr, fc).unwrap().0 == PieceType::Pawn ==> tc == fc && tr != 0 && tr != 7,
        tb_refill(h, turn, tr, tc) is None,
    ensures
        forall|i: int, j: int|
            in_bounds(i, j) ==> at(
                #[trigger] tb_grid(mp_grid(b, turn, bot, fr, fc, tr, tc), h.push(rec), turn),
                i,
                j,
            ) == at(b, i, j),
{
    let p = at(b, fr, fc);
    assert(!mp_is_ep(b, fr, fc, tr, tc));
    assert(!mp_is_castle(b, fr, fc, tr, tc));
    crate::rules::lemma_gset(b, tr, tc, p);
    let b1 = crate::rules::gset(b, tr, tc, p);
    crate::rules::lemma_gset(b1, fr, fc, None);
    let bp = crate::rules::gset(b1, fr, fc, None);
    assert(mp_grid(b, turn, bot, fr, fc, tr, tc) == bp);
    let hfull = h.push(rec);
    assert(hfull.last() == rec);
    assert(hfull.drop_last() =~= h);
    assert(rec_from_row(rec) == fr && rec_from_col(rec) == fc);
    assert(crate::rules::rec_to_row(rec) == tr && crate::rules::rec_to_col(rec) == tc);
    assert(at(bp, tr, tc) == p);
    let b2 = crate::rules::gset(bp, fr, fc, at(bp, tr, tc));
    crate::rules::lemma_gset(bp, fr, fc, at(bp, tr, tc));
    let res = crate::rules::gset(b2, tr, tc, None);
    crate::rules::lemma_gset(b2, tr, tc, None);
    assert(tb_grid(bp, hfull, turn) == res);
    assert forall|i: int, j: int| in_bounds(i, j) implies at(res, i, j) == at(b, i, j) by {}
}

} // verus!

use crate::rules::{attacker_at, find_king_from, gset, lemma_gset, move_sim,
    square_attacked_by};

verus! {

/// When the board holds exactly one king of `color`, the scan finds it.
proof fn lemma_king_square_unique_from(
    b: GameBoard,
    color: PieceColor,
    kr: int,
    kc: int,
    i: int,
)
    requires
        in_bounds(kr, kc),
        at(b, kr, kc) == Some((PieceType::King, color)),
        forall|r: int, c: int|
            in_bounds(r, c) && (r != kr || c != kc) ==> #[trigger] at(b, r, c) != Some(
                (PieceType::King, color),
            ),
        0 <= i <= kr * 8 + kc,
    ensures
        find_king_from(b, color, i) == Some((kr, kc)),
    decreases kr * 8 + kc - i,
{
    assert(0 <= kr * 8 + kc < 64) by (nonlinear_arith)
        requires
            0 <= kr < 8 && 0 <= kc < 8,
    ;
    if i == kr * 8 + kc {
        assert(i / 8 == kr && i % 8 == kc) by (nonlinear_arith)
            requires
                i == kr * 8 + kc && 0 <= kc < 8 && 0 <= kr,
        ;
    } else {
        assert(i / 8 * 8 + i % 8 == i);
        assert(in_bounds(i / 8, i % 8)) by (nonlinear_arith)
            requires
                0 <= i < 64,
        ;
        assert((i / 8) != kr || (i % 8) != kc) by (nonlinear_arith)
            requires
                i / 8 * 8 + i % 8 == i && i < kr * 8 + kc && 0 <= i % 8 < 8 && 0 <= kc < 8,
        ;
        lemma_king_square_unique_from(b, color, kr, kc, i + 1);
    }
}

/// A bishop pinned to its own king by an enemy queen on a shared
/// diagonal keeps only destinations on that diagonal: every authorized
/// move stays collinear with king and queen, capturing the queen
/// included. The diagonal runs with slope `s`.
pub proof fn law_pinned_bishop_stays_on_diagonal(
    b: GameBoard,
    h: Seq<HistRec>,
    color: PieceColor,
    kr: int,
    kc: int,
    br: int,
    bc: int,
    qr: int,
    qc: int,
    s: int,
    tr: int,
    tc: int,
)
    requires
        s == 1 || s == -1,
        in_bounds(kr, kc),
        in_bounds(br, bc),
        in_bounds(qr, qc),
        at(b, kr, kc) == Some((PieceType::King, color)),
        at(b, br, bc) == Some((PieceType::Bishop, color)),
        at(b, qr, qc) == Some((PieceType::Queen, color.other())),
        forall|r: int, c: int|
            in_bounds(r, c) && (r != kr || c != kc) ==> #[trigger] at(b, r, c) != Some(
                (PieceType::King, color),
            ),
        qc - kc == (if s == 1 {
            qr - kr
        } else {
            kr - qr
        }),
        bc - kc == (if s == 1 {
            br - kr
        } else {
            kr - br
        }),
        kr < br < qr || qr < br < kr,
        forall|r: int, c: int|
            ((kr < r < qr || qr < r < kr) && (r != br || c != bc) && c - kc == (if s == 1 {
                r - kr
            } else {
                kr - r
            })) ==> crate::rules::empty_at(b, r, c),
        crate::rules::auth_can(b, h, PieceType::Bishop, color, br, bc, tr, tc),
    ensures
        tc - kc == (if s == 1 {
            tr - kr
        } else {
            kr - tr
        }),
{
    if !(tc - kc == (if s == 1 {
        tr - kr
    } else {
        kr - tr
    })) {
        // the move leaves the pin line: the queen then checks the king
        // on the simulated grid, so the move was not authorized
        assert(bishop_can(b, color, br, bc, tr, tc, false));
        assert(in_bounds(tr, tc) && !crate::rules::ally_at(b, color, tr, tc)) by {
            if ray_reaches(b, color, br, bc, -1, -1, tr, tc, false) {
                let k = choose|k: int|
                    #[trigger] ray_hit(b, color, br, bc, -1, -1, k, false) && tr == off(br, -1, k)
                        && tc == off(bc, -1, k);
            }
            if ray_reaches(b, color, br, bc, -1, 1, tr, tc, false) {
                let k = choose|k: int|
                    #[trigger] ray_hit(b, color, br, bc, -1, 1, k, false) && tr == off(br, -1, k)
                        && tc == off(bc, 1, k);
            }
            if ray_reaches(b, color, br, bc, 1, -1, tr, tc, false) {
                let k = choose|k: int|
                    #[trigger] ray_hit(b, color, br, bc, 1, -1, k, false) && tr == off(br, 1, k)
                        && tc == off(bc, -1, k);
            }
            if ray_reaches(b, color, br, bc, 1, 1, tr, tc, false) {
                let k = choose|k: int|
                    #[trigger] ray_hit(b, color, br, bc, 1, 1, k, false) && tr == off(br, 1, k)
                        && tc == off(bc, 1, k);
            }
        }
        assert(tr != kr || tc != kc);
        assert(tr != qr || tc != qc);
        let sim = move_sim(b, br, bc, tr, tc);
        lemma_gset(b, tr, tc, at(b, br, bc));
        lemma_gset(gset(b, tr, tc, at(b, br, bc)), br, bc, None);
        assert(at(sim, kr, kc) == Some((PieceType::King, color)));
        assert(at(sim, qr, qc) == Some((PieceType::Queen, color.other())));
        assert forall|r: int, c: int|
            in_bounds(r, c) && (r != kr || c != kc) implies #[trigger] at(sim, r, c) != Some(
            (PieceType::King, color),
        ) by {}
        lemma_king_square_unique_from(sim, color, kr, kc, 0);
        // the queen's ray toward the king is clear on the simulated grid
        let dr: int = if kr > qr {
            1
        } else {
            -1
        };
        let dc: int = if kc > qc {
            1
        } else {
            -1
        };
        let k = if kr > qr {
            kr - qr
        } else {
            qr - kr
        };
        assert(kr == off(qr, dr, k) && kc == off(qc, dc, k));
        assert forall|j: int| 1 <= j < k implies crate::rules::passable(
            sim,
            color.other(),
            off(qr, dr, j),
            #[trigger] off(qc, dc, j),
            true,
        ) by {
            let r = off(qr, dr, j);
            let c = off(qc, dc, j);
            assert(kr < r < qr || qr < r < kr);
            assert(c - kc == (if s == 1 {
                r - kr
            } else {
                kr - r
            }));
            if r == br && c == bc {
                assert(at(sim, r, c) is None);
            } else {
                assert(crate::rules::empty_at(b, r, c));
                assert(r != tr || c != tc);
                assert(at(sim, r, c) == at(b, r, c));
            }
        }
        assert(ray_hit(sim, color.other(), qr, qc, dr, dc, k, true));
        if dr == -1 && dc == -1 {
            assert(ray_reaches(sim, color.other(), qr, qc, -1, -1, kr, kc, true));
        } else if dr == -1 && dc == 1 {
            assert(ray_reaches(sim, color.other(), qr, qc, -1, 1, kr, kc, true));
        } else if dr == 1 && dc == -1 {
            assert(ray_reaches(sim, color.other(), qr, qc, 1, -1, kr, kc, true));
        } else {
            assert(ray_reaches(sim, color.other(), qr, qc, 1, 1, kr, kc, true));
        }
        assert(queen_can(sim, color.other(), qr, qc, kr, kc, true));
        assert(attacker_at(sim, color.other(), qr, qc, kr, kc));
        assert(square_attacked_by(sim, color.other(), kr, kc));
        assert(is_check(sim, color));
        assert(false);
    }
}

} // verus!
