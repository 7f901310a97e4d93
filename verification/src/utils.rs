use vstd::prelude::*;
use vstd::string::StringExecFns;

use crate::rules::{char_digit, col_char, digit_char, letter_col};

verus! {

/// Appends the digit character of `d` to `s`.
pub fn push_digit(s: &mut String, d: i8)
    requires
        0 <= d <= 9,
    ensures
        final (s)@ == old(s)@ + seq![digit_char(d as int)],
{
    proof {
        reveal_strlit("0");
        reveal_strlit("1");
        reveal_strlit("2");
        reveal_strlit("3");
        reveal_strlit("4");
        reveal_strlit("5");
        reveal_strlit("6");
        reveal_strlit("7");
        reveal_strlit("8");
        reveal_strlit("9");
    }
    if d == 0 {
        s.append("0");
    } else if d == 1 {
        s.append("1");
    } else if d == 2 {
        s.append("2");
    } else if d == 3 {
        s.append("3");
    } else if d == 4 {
        s.append("4");
    } else if d == 5 {
        s.append("5");
    } else if d == 6 {
        s.append("6");
    } else if d == 7 {
        s.append("7");
    } else if d == 8 {
        s.append("8");
    } else {
        s.append("9");
    }
    proof {
        assert(final (s)@ =~= old(s)@ + seq![digit_char(d as int)]);
    }
}

/// The value of a digit character, -1 for any other character.
pub fn char_to_digit(c: char) -> (r: i8)
    ensures
        r == char_digit(c),
{
    if c == '0' {
        0
    } else if c == '1' {
        1
    } else if c == '2' {
        2
    } else if c == '3' {
        3
    } else if c == '4' {
        4
    } else if c == '5' {
        5
    } else if c == '6' {
        6
    } else if c == '7' {
        7
    } else if c == '8' {
        8
    } else if c == '9' {
        9
    } else {
        -1
    }
}

/// The column of a file letter, -1 for any other character.
pub fn letter_to_col(c: char) -> (r: i8)
    ensures
        r == letter_col(c),
{
    if c == 'a' {
        0
    } else if c == 'b' {
        1
    } else if c == 'c' {
        2
    } else if c == 'd' {
        3
    } else if c == 'e' {
        4
    } else if c == 'f' {
        5
    } else if c == 'g' {
        6
    } else if c == 'h' {
        7
    } else {
        -1
    }
}

/// The file letter of a column in 0 ..= 7, as a string.
pub fn col_to_letter(col: i8) -> (r: String)
    requires
        0 <= col <= 7,
    ensures
        r@ == seq![col_char(col as int)],
{
    proof {
        reveal_strlit("a");
        reveal_strlit("b");
        reveal_strlit("c");
        reveal_strlit("d");
        reveal_strlit("e");
        reveal_strlit("f");
        reveal_strlit("g");
        reveal_strlit("h");
    }
    let r = if col == 0 {
        String::from_str("a")
    } else if col == 1 {
        String::from_str("b")
    } else if col == 2 {
        String::from_str("c")
    } else if col == 3 {
        String::from_str("d")
    } else if col == 4 {
        String::from_str("e")
    } else if col == 5 {
        String::from_str("f")
    } else if col == 6 {
        String::from_str("g")
    } else {
        String::from_str("h")
    };
    proof {
        assert(r@ =~= seq![col_char(col as int)]);
    }
    r
}

} // verus!

use crate::board::{Coords, GameBoard, HistRec, Piece};
use crate::pieces::{PieceColor, PieceType};
use crate::rules::{
    all_valid, ally_at, color_at, contains_rc, in_bounds, kind_at, off, passable, ray_hit,
    ray_reaches,
};

verus! {

/// The colour of the piece on a valid square, `None` for an empty cell.
pub fn get_piece_color(board: GameBoard, coordinates: &Coords) -> (r: Option<PieceColor>)
    requires
        coordinates.valid(),
    ensures
        r == color_at(board, coordinates.row as int, coordinates.col as int),
{
    match board[coordinates.row as usize][coordinates.col as usize] {
        Some((_, c)) => Some(c),
        None => None,
    }
}

/// The kind of the piece on a valid square, `None` for an empty cell.
pub fn get_piece_type(board: GameBoard, coordinates: &Coords) -> (r: Option<PieceType>)
    requires
        coordinates.valid(),
    ensures
        r == kind_at(board, coordinates.row as int, coordinates.col as int),
{
    match board[coordinates.row as usize][coordinates.col as usize] {
        Some((k, _)) => Some(k),
        None => None,
    }
}

/// The valid square holds a piece of `color`.
pub fn is_cell_color_ally(board: GameBoard, coordinates: Coords, color: PieceColor) -> (r: bool)
    requires
        coordinates.valid(),
    ensures
        r == ally_at(board, color, coordinates.row as int, coordinates.col as int),
{
    match get_piece_color(board, &coordinates) {
        Some(c) => c == color,
        None => false,
    }
}

/// The piece is the king of the side opposing `color`.
pub fn is_piece_opposite_king(piece: Piece, color: PieceColor) -> (r: bool)
    ensures
        r == (piece == Some((PieceType::King, color.other()))),
{
    match piece {
        Some((PieceType::King, c)) => c == color.opposite(),
        _ => false,
    }
}

} // verus!

use crate::rules::{lemma_contains_rc_push, lemma_ray_final, lemma_ray_set};

verus! {

/// Scans one ray from (`fr`, `fc`) along the unit offset (`dr`, `dc`) and
/// returns exactly the squares a sliding piece of `color` reaches on it.
#[verifier::rlimit(60)]
pub fn scan_ray(
    board: &GameBoard,
    color: PieceColor,
    fr: i8,
    fc: i8,
    dr: i8,
    dc: i8,
    allow: bool,
) -> (out: Vec<Coords>)
    requires
        0 <= fr < 8,
        0 <= fc < 8,
        -1 <= dr <= 1,
        -1 <= dc <= 1,
        dr != 0 || dc != 0,
    ensures
        forall|tr: int, tc: int|
            #[trigger] contains_rc(out@, tr, tc) <==> ray_reaches(
                *board,
                color,
                fr as int,
                fc as int,
                dr as int,
                dc as int,
                tr,
                tc,
                allow,
            ),
        all_valid(out@),
        out@.len() <= 8,
        crate::rules::no_dup_rc(out@),
{
    let ghost bg = *board;
    let ghost fri = fr as int;
    let ghost fci = fc as int;
    let ghost dri = dr as int;
    let ghost dci = dc as int;
    let mut out: Vec<Coords> = Vec::new();
    let mut r = fr;
    let mut c = fc;
    let mut j: i8 = 0;
    loop
        invariant_except_break
            out@.len() == j,
            forall|jj: int|
                1 <= jj <= j ==> passable(bg, color, off(fri, dri, jj), #[trigger] off(fci, dci, jj), allow),
            forall|tr: int, tc: int|
                #[trigger] contains_rc(out@, tr, tc) <==> exists|k: int|
                    1 <= k <= j && tr == off(fri, dri, k) && tc == #[trigger] off(fci, dci, k),
        invariant
            0 <= fr < 8,
            0 <= fc < 8,
            -1 <= dr <= 1,
            -1 <= dc <= 1,
            dr != 0 || dc != 0,
            bg == *board,
            fri == fr as int && fci == fc as int && dri == dr as int && dci == dc as int,
            0 <= j <= 8,
            r == off(fri, dri, j as int),
            c == off(fci, dci, j as int),
            in_bounds(r as int, c as int),
            out@.len() <= j,
            forall|i: int|
                0 <= i < out@.len() ==> (#[trigger] out@[i]).row == off(fri, dri, i + 1)
                    && out@[i].col == off(fci, dci, i + 1),
            forall|jj: int|
                1 <= jj <= j ==> in_bounds(off(fri, dri, jj), #[trigger] off(fci, dci, jj)),
            all_valid(out@),
        ensures
            forall|tr: int, tc: int|
                #[trigger] contains_rc(out@, tr, tc) <==> ray_reaches(
                    bg,
                    color,
                    fri,
                    fci,
                    dri,
                    dci,
                    tr,
                    tc,
                    allow,
                ),
            all_valid(out@),
            crate::rules::no_dup_rc(out@),
        decreases 8 - j,
    {
        let nr = r + dr;
        let nc = c + dc;
        let ghost jn = j as int + 1;
        proof {
            assert(nr == off(fri, dri, jn) && nc == off(fci, dci, jn));
        }
        if !(0 <= nr && nr < 8 && 0 <= nc && nc < 8) {
            proof {
                // once the ray leaves the grid it never returns
                assert forall|k: int| k > j implies !in_bounds(
                    off(fri, dri, k),
                    #[trigger] off(fci, dci, k),
                ) by {
                    if dr == 1 && nr >= 8 {
                        assert(off(fri, dri, k) >= nr);
                    }
                    if dr == -1 && nr < 0 {
                        assert(off(fri, dri, k) <= nr);
                    }
                    if dc == 1 && nc >= 8 {
                        assert(off(fci, dci, k) >= nc);
                    }
                    if dc == -1 && nc < 0 {
                        assert(off(fci, dci, k) <= nc);
                    }
                }
                lemma_ray_set(bg, color, fri, fci, dri, dci, allow, j as int);
                lemma_ray_final(bg, color, out@, fri, fci, dri, dci, allow, j as int);
                crate::rules::lemma_stepped_no_dup(out@, fri, fci, dri, dci);
            }
            break;
        }
        j = j + 1;
        r = nr;
        c = nc;
        let ghost old_out = out@;
        let cell = board[nr as usize][nc as usize];
        match cell {
            None => {
                out.push(Coords { row: nr, col: nc });
                proof {
                    assert forall|tr: int, tc: int| true implies (#[trigger] contains_rc(
                        out@,
                        tr,
                        tc,
                    ) <==> exists|k: int|
                        1 <= k <= j && tr == off(fri, dri, k) && tc == #[trigger] off(
                            fci,
                            dci,
                            k,
                        )) by {
                        lemma_contains_rc_push(old_out, Coords { row: nr, col: nc }, tr, tc);
                        if contains_rc(old_out, tr, tc) {
                        } else if tr == nr as int && tc == nc as int {
                            assert(tr == off(fri, dri, jn) && tc == off(fci, dci, jn));
                        } else {
                            if exists|k: int|
                                1 <= k <= j && tr == off(fri, dri, k) && tc == #[trigger] off(
                                    fci,
                                    dci,
                                    k,
                                ) {
                                let k = choose|k: int|
                                    1 <= k <= j && tr == off(fri, dri, k) && tc == #[trigger] off(
                                        fci,
                                        dci,
                                        k,
                                    );
                                assert(k <= j - 1 || k == j);
                            }
                        }
                    }
                }
            },
            Some((kind, pcolor)) => {
                let ally = pcolor == color;
                let see_through = allow && matches!(kind, PieceType::King) && !ally;
                let kept = if ally {
                    allow
                } else {
                    true
                };
                if kept {
                    out.push(Coords { row: nr, col: nc });
                }
                proof {
                    if kept {
                        assert(out@ == old_out.push(Coords { row: nr, col: nc }));
                    }
                    assert forall|tr: int, tc: int| true implies (#[trigger] contains_rc(
                        out@,
                        tr,
                        tc,
                    ) <==> exists|k: int|
                        (if kept {
                            1 <= k <= j
                        } else {
                            1 <= k <= j - 1
                        }) && tr == off(fri, dri, k) && tc == #[trigger] off(fci, dci, k)) by {
                        if kept {
                            lemma_contains_rc_push(old_out, Coords { row: nr, col: nc }, tr, tc);
                            if contains_rc(old_out, tr, tc) {
                            } else if tr == nr as int && tc == nc as int {
                                assert(tr == off(fri, dri, jn) && tc == off(fci, dci, jn));
                            }
                        }
                    }
                }
                if see_through {
                    proof {
                        assert(passable(bg, color, nr as int, nc as int, allow));
                    }
                } else {
                    proof {
                        // this square stops the scan
                        assert(!passable(bg, color, nr as int, nc as int, allow));
                        let ghost p = if kept {
                            j as int
                        } else {
                            j as int - 1
                        };
                        assert forall|k: int| k > p implies !(#[trigger] ray_hit(
                            bg,
                            color,
                            fri,
                            fci,
                            dri,
                            dci,
                            k,
                            allow,
                        )) by {
                            if k > j {
                                assert(!passable(
                                    bg,
                                    color,
                                    off(fri, dri, jn),
                                    off(fci, dci, jn),
                                    allow,
                                ));
                            } else if k == j && !kept {
                                assert(ally_at(bg, color, off(fri, dri, k), off(fci, dci, k)));
                            }
                        }
                        lemma_ray_set(bg, color, fri, fci, dri, dci, allow, p);
                        lemma_ray_final(bg, color, out@, fri, fci, dri, dci, allow, p);
                        crate::rules::lemma_stepped_no_dup(out@, fri, fci, dri, dci);
                    }
                    break;
                }
            },
        }
    }
    out
}

} // verus!

use crate::rules::{
    attacker_at, find_king_from, has_king, is_check, jump_ok, king_square, moved_from, move_sim,
    square_attacked_by,
};

verus! {

/// Pushes the candidate square (`nr`, `nc`) when it lies on the grid and,
/// unless `allow`, holds no ally piece.
pub fn try_jump(
    board: &GameBoard,
    color: PieceColor,
    out: &mut Vec<Coords>,
    nr: i8,
    nc: i8,
    allow: bool,
)
    requires
        -16 <= nr <= 16,
        -16 <= nc <= 16,
    ensures
        forall|tr: int, tc: int|
            #[trigger] contains_rc(final (out)@, tr, tc) <==> (contains_rc(old(out)@, tr, tc) || (
            jump_ok(*board, color, nr as int, nc as int, allow) && tr == nr as int && tc
                == nc as int)),
        all_valid(old(out)@) ==> all_valid(final (out)@),
        final (out)@.len() <= old(out)@.len() + 1,
        (crate::rules::no_dup_rc(old(out)@) && !contains_rc(old(out)@, nr as int, nc as int))
            ==> crate::rules::no_dup_rc(final (out)@),
{
    let ghost s = out@;
    let mut keep = false;
    if 0 <= nr && nr < 8 && 0 <= nc && nc < 8 {
        if allow {
            keep = true;
        } else {
            match board[nr as usize][nc as usize] {
                Some((_, pcolor)) => {
                    keep = !(pcolor == color);
                },
                None => {
                    keep = true;
                },
            }
        }
    }
    if keep {
        out.push(Coords { row: nr, col: nc });
    }
    proof {
        assert forall|tr: int, tc: int| true implies (#[trigger] contains_rc(out@, tr, tc) <==> (
        contains_rc(s, tr, tc) || (jump_ok(*board, color, nr as int, nc as int, allow) && tr
            == nr as int && tc == nc as int))) by {
            if keep {
                crate::rules::lemma_contains_rc_push(s, Coords { row: nr, col: nc }, tr, tc);
            }
        }
    }
}

/// True iff the list holds `coord`.
pub fn list_contains(v: &Vec<Coords>, coord: &Coords) -> (r: bool)
    ensures
        r == contains_rc(v@, coord.row as int, coord.col as int),
{
    let mut i: usize = 0;
    while i < v.len()
        invariant
            0 <= i <= v@.len(),
            forall|j: int| 0 <= j < i ==> !((#[trigger] v@[j]).row == coord.row as int && v@[j].col == coord.col as int),
        decreases v@.len() - i,
    {
        if v[i].row == coord.row && v[i].col == coord.col {
            return true;
        }
        i = i + 1;
    }
    false
}

/// The square of the first king of `color` in row-major order, if any.
pub fn find_king(board: GameBoard, color: PieceColor) -> (r: Option<Coords>)
    ensures
        match r {
            Some(k) => king_square(board, color) == Some((k.row as int, k.col as int)) && k.valid(),
            None => king_square(board, color) is None,
        },
{
    let mut idx: usize = 0;
    while idx < 64
        invariant
            0 <= idx <= 64,
            king_square(board, color) == find_king_from(board, color, idx as int),
        decreases 64 - idx,
    {
        let r = idx / 8;
        let c = idx % 8;
        match board[r][c] {
            Some((PieceType::King, pcolor)) => {
                if pcolor == color {
                    proof {
                        assert(find_king_from(board, color, idx as int) == Some((
                            idx as int / 8,
                            idx as int % 8,
                        )));
                    }
                    return Some(Coords { row: r as i8, col: c as i8 });
                }
            },
            _ => {},
        }
        proof {
            assert(find_king_from(board, color, idx as int) == find_king_from(
                board,
                color,
                idx as int + 1,
            ));
        }
        idx = idx + 1;
    }
    None
}

/// The coordinates of the king of `color`, which must stand on the board.
pub fn get_king_coordinates(board: GameBoard, color: PieceColor) -> (r: Coords)
    requires
        has_king(board, color),
    ensures
        king_square(board, color) == Some((r.row as int, r.col as int)),
        r.valid(),
{
    match find_king(board, color) {
        Some(k) => k,
        None => {
            proof {
                assert(false);
            }
            Coords { row: 0, col: 0 }
        },
    }
}

/// True iff some piece of `by_color` threatens the valid square `target`.
pub fn square_attacked(
    board: GameBoard,
    by_color: PieceColor,
    target: &Coords,
    move_history: &Vec<HistRec>,
) -> (r: bool)
    requires
        target.valid(),
    ensures
        r == square_attacked_by(board, by_color, target.row as int, target.col as int),
{
    let mut ar: usize = 0;
    while ar < 8
        invariant
            0 <= ar <= 8,
            target.valid(),
            forall|i: int, j: int|
                0 <= i < ar && 0 <= j < 8 ==> !#[trigger] attacker_at(
                    board,
                    by_color,
                    i,
                    j,
                    target.row as int,
                    target.col as int,
                ),
        decreases 8 - ar,
    {
        let mut ac: usize = 0;
        while ac < 8
            invariant
                0 <= ar < 8,
                0 <= ac <= 8,
                target.valid(),
                forall|i: int, j: int|
                    0 <= i < ar && 0 <= j < 8 ==> !#[trigger] attacker_at(
                        board,
                        by_color,
                        i,
                        j,
                        target.row as int,
                        target.col as int,
                    ),
                forall|j: int|
                    0 <= j < ac ==> !#[trigger] attacker_at(
                        board,
                        by_color,
                        ar as int,
                        j,
                        target.row as int,
                        target.col as int,
                    ),
            decreases 8 - ac,
        {
            match board[ar][ac] {
                Some((kind, pcolor)) => {
                    if pcolor == by_color {
                        let protected = kind.protected_positions(
                            &Coords { row: ar as i8, col: ac as i8 },
                            pcolor,
                            board,
                            move_history,
                        );
                        if list_contains(&protected, target) {
                            proof {
                                assert(attacker_at(
                                    board,
                                    by_color,
                                    ar as int,
                                    ac as int,
                                    target.row as int,
                                    target.col as int,
                                ));
                            }
                            return true;
                        }
                        proof {
                            assert(!attacker_at(
                                board,
                                by_color,
                                ar as int,
                                ac as int,
                                target.row as int,
                                target.col as int,
                            ));
                        }
                    }
                },
                None => {},
            }
            ac = ac + 1;
        }
        ar = ar + 1;
    }
    proof {
        if square_attacked_by(board, by_color, target.row as int, target.col as int) {
            let (i, j) = choose|i: int, j: int|
                #[trigger] attacker_at(board, by_color, i, j, target.row as int, target.col as int);
            assert(false);
        }
    }
    false
}

/// True iff the king of `color` is attacked by some enemy piece. A board
/// without that king is reported as not in check.
pub fn is_getting_checked(board: GameBoard, color: PieceColor, move_history: &Vec<HistRec>) -> (r:
    bool)
    ensures
        r == is_check(board, color),
{
    match find_king(board, color) {
        Some(king) => square_attacked(board, color.opposite(), &king, move_history),
        None => false,
    }
}

/// Keeps the candidate moves of the piece on `original_coordinates` whose
/// play would not leave the king of `color` in check.
pub fn impossible_positions_king_checked(
    original_coordinates: &Coords,
    positions: Vec<Coords>,
    board: GameBoard,
    color: PieceColor,
    move_history: &Vec<HistRec>,
) -> (out: Vec<Coords>)
    requires
        original_coordinates.valid(),
        all_valid(positions@),
    ensures
        forall|tr: int, tc: int|
            #[trigger] contains_rc(out@, tr, tc) <==> (contains_rc(positions@, tr, tc) && !is_check(
                move_sim(
                    board,
                    original_coordinates.row as int,
                    original_coordinates.col as int,
                    tr,
                    tc,
                ),
                color,
            )),
        all_valid(out@),
        out@.len() <= positions@.len(),
        crate::rules::no_dup_rc(positions@) ==> crate::rules::no_dup_rc(out@),
{
    let fr = original_coordinates.row;
    let fc = original_coordinates.col;
    let mut out: Vec<Coords> = Vec::new();
    let mut i: usize = 0;
    while i < positions.len()
        invariant
            0 <= i <= positions@.len(),
            0 <= fr < 8,
            0 <= fc < 8,
            all_valid(positions@),
            all_valid(out@),
            out@.len() <= i,
            crate::rules::no_dup_rc(positions@) ==> crate::rules::no_dup_rc(out@),
            forall|tr: int, tc: int|
                #[trigger] contains_rc(out@, tr, tc) <==> (contains_rc(
                    positions@.take(i as int),
                    tr,
                    tc,
                ) && !is_check(move_sim(board, fr as int, fc as int, tr, tc), color)),
        decreases positions@.len() - i,
    {
        let p = positions[i];
        let mut sim = board;
        let moving = sim[fr as usize][fc as usize];
        let mut row = sim[p.row as usize];
        row[p.col as usize] = moving;
        sim[p.row as usize] = row;
        let mut row2 = sim[fr as usize];
        row2[fc as usize] = None;
        sim[fr as usize] = row2;
        proof {
            broadcast use vstd::array::group_array_axioms;
            assert(sim =~= move_sim(board, fr as int, fc as int, p.row as int, p.col as int));
        }
        let ghost old_out = out@;
        let keep = !is_getting_checked(sim, color, move_history);
        if keep {
            out.push(p);
        }
        proof {
            if keep && crate::rules::no_dup_rc(positions@) {
                assert(!contains_rc(old_out, p.row as int, p.col as int)) by {
                    if contains_rc(old_out, p.row as int, p.col as int) {
                        assert(contains_rc(positions@.take(i as int), p.row as int, p.col as int));
                        let jx = choose|jx: int|
                            0 <= jx < positions@.take(i as int).len() && (#[trigger] positions@.take(
                                i as int,
                            )[jx]).row == p.row as int && positions@.take(i as int)[jx].col
                                == p.col as int;
                        assert(positions@[jx].row == positions@[i as int].row && positions@[jx].col
                            == positions@[i as int].col);
                    }
                }
                crate::rules::lemma_no_dup_rc_push(old_out, p);
            }
            assert(positions@.take(i as int + 1) =~= positions@.take(i as int).push(positions@[i as int]));
            assert forall|tr: int, tc: int| true implies (#[trigger] contains_rc(out@, tr, tc) <==> (
            contains_rc(positions@.take(i as int + 1), tr, tc) && !is_check(
                move_sim(board, fr as int, fc as int, tr, tc),
                color,
            ))) by {
                if keep {
                    crate::rules::lemma_contains_rc_push(old_out, p, tr, tc);
                }
                crate::rules::lemma_contains_rc_push(
                    positions@.take(i as int),
                    positions@[i as int],
                    tr,
                    tc,
                );
            }
        }
        i = i + 1;
    }
    proof {
        assert(positions@.take(positions@.len() as int) =~= positions@);
    }
    out
}

/// Some record of the history moved the given piece away from its square:
/// the record's kind matches and its origin digits match the coordinate.
pub fn did_piece_already_move(
    move_history: &Vec<HistRec>,
    piece: (PieceType, Coords),
) -> (r: bool)
    requires
        piece.1.valid(),
        crate::rules::hist_ok(move_history@),
    ensures
        r == moved_from(move_history@, piece.0, piece.1.row as int, piece.1.col as int),
{
    let mut i: usize = 0;
    while i < move_history.len()
        invariant
            0 <= i <= move_history@.len(),
            piece.1.valid(),
            crate::rules::hist_ok(move_history@),
            forall|j: int|
                0 <= j < i ==> !((#[trigger] move_history@[j]).0 == piece.0
                    && move_history@[j].1@[0] == digit_char(piece.1.row as int)
                    && move_history@[j].1@[1] == digit_char(piece.1.col as int)),
        decreases move_history@.len() - i,
    {
        let rec = &move_history[i];
        if rec.0 == piece.0 {
            let r0 = rec.1.get_char(0);
            let r1 = rec.1.get_char(1);
            let hr = char_to_digit(r0);
            let hc = char_to_digit(r1);
            if hr == piece.1.row && hc == piece.1.col && hr >= 0 && hc >= 0 {
                proof {
                    assert(digit_char(char_digit(rec.1@[0])) == rec.1@[0]);
                    assert(digit_char(char_digit(rec.1@[1])) == rec.1@[1]);
                }
                return true;
            }
        }
        i = i + 1;
    }
    proof {
        if moved_from(move_history@, piece.0, piece.1.row as int, piece.1.col as int) {
            let j = choose|j: int|
                0 <= j < move_history@.len() && (#[trigger] move_history@[j]).0 == piece.0
                    && move_history@[j].1@[0] == digit_char(piece.1.row as int)
                    && move_history@[j].1@[1] == digit_char(piece.1.col as int);
            assert(false);
        }
    }
    false
}

} // verus!

use crate::rules::dec_digits;

verus! {

/// Appends the decimal digits of `n` to `s`.
pub fn push_number(s: &mut String, n: u64)
    ensures
        final (s)@ == old(s)@ + dec_digits(n as int),
    decreases n,
{
    if n < 10 {
        push_digit(s, n as i8);
    } else {
        push_number(s, n / 10);
        push_digit(s, (n % 10) as i8);
    }
    proof {
        assert(final (s)@ =~= old(s)@ + dec_digits(n as int));
    }
}

} // verus!

use crate::rules::{lemma_contains_rc_swap_remove, rm_le, sorted_rm};

verus! {

/// Sorts a list of coordinates row-major, keeping exactly the same
/// squares.
pub fn sort_positions(v: Vec<Coords>) -> (out: Vec<Coords>)
    ensures
        sorted_rm(out@),
        out@.len() == v@.len(),
        forall|r: int, c: int| #[trigger] contains_rc(out@, r, c) <==> contains_rc(v@, r, c),
        all_valid(v@) ==> all_valid(out@),
{
    let ghost orig = v@;
    let mut rest = v;
    let mut out: Vec<Coords> = Vec::new();
    while rest.len() > 0
        invariant
            out@.len() + rest@.len() == orig.len(),
            sorted_rm(out@),
            forall|i: int, j: int|
                0 <= i < out@.len() && 0 <= j < rest@.len() ==> rm_le(
                    #[trigger] out@[i],
                    #[trigger] rest@[j],
                ),
            forall|r: int, c: int|
                #[trigger] contains_rc(orig, r, c) <==> (contains_rc(out@, r, c) || contains_rc(
                    rest@,
                    r,
                    c,
                )),
            all_valid(orig) ==> all_valid(out@) && all_valid(rest@),
        decreases rest@.len(),
    {
        // find the least remaining square
        let mut m: usize = 0;
        let mut k: usize = 1;
        while k < rest.len()
            invariant
                0 < rest@.len(),
                0 <= m < k <= rest@.len(),
                forall|t: int| 0 <= t < k ==> rm_le(rest@[m as int], #[trigger] rest@[t]),
            decreases rest@.len() - k,
        {
            if rest[k].row < rest[m].row || (rest[k].row == rest[m].row && rest[k].col
                < rest[m].col) {
                m = k;
            }
            k = k + 1;
        }
        let ghost rest0 = rest@;
        let ghost out0 = out@;
        let x = rest.swap_remove(m);
        out.push(x);
        proof {
            assert(rest@ =~= rest0.update(m as int, rest0.last()).drop_last());
            assert(out@ == out0.push(x));
            assert(x == rest0[m as int]);
            assert forall|r: int, c: int| true implies (#[trigger] contains_rc(orig, r, c) <==> (
            contains_rc(out@, r, c) || contains_rc(rest@, r, c))) by {
                lemma_contains_rc_swap_remove(rest0, m as int, r, c);
                lemma_contains_rc_push(out0, x, r, c);
            }
            assert forall|i: int, j: int|
                0 <= i < out@.len() && 0 <= j < rest@.len() implies rm_le(
                #[trigger] out@[i],
                #[trigger] rest@[j],
            ) by {
                assert(rest@[j] == rest0[j] || rest@[j] == rest0.last());
            }
            assert(sorted_rm(out@)) by {
                assert forall|i: int, j: int| 0 <= i < j < out@.len() implies rm_le(
                    #[trigger] out@[i],
                    #[trigger] out@[j],
                ) by {
                    if j == out@.len() - 1 {
                        assert(out@[j] == x);
                        assert(rm_le(out@[i], rest0[m as int]));
                    }
                }
            }
        }
    }
    proof {
        assert forall|r: int, c: int| true implies (#[trigger] contains_rc(out@, r, c)
            <==> contains_rc(orig, r, c)) by {
            if contains_rc(rest@, r, c) {
                let i = choose|i: int|
                    0 <= i < rest@.len() && (#[trigger] rest@[i]).row == r && rest@[i].col == c;
                assert(false);
            }
        }
    }
    out
}

} // verus!

verus! {

/// Rewrites an engine move such as "e2e4" into the four-digit history
/// code of its origin and destination.
pub fn convert_notation_into_position(notation: String) -> (r: String)
    requires
        notation@.len() >= 4,
        0 <= crate::rules::letter_col(notation@[0]),
        1 <= crate::rules::char_digit(notation@[1]) <= 8,
        0 <= crate::rules::letter_col(notation@[2]),
        1 <= crate::rules::char_digit(notation@[3]) <= 8,
    ensures
        r@ == seq![
            digit_char(8 - char_digit(notation@[1])),
            digit_char(crate::rules::letter_col(notation@[0])),
            digit_char(8 - char_digit(notation@[3])),
            digit_char(crate::rules::letter_col(notation@[2])),
        ],
{
    let from_x = letter_to_col(notation.as_str().get_char(0));
    let from_y = 8 - char_to_digit(notation.as_str().get_char(1));
    let to_x = letter_to_col(notation.as_str().get_char(2));
    let to_y = 8 - char_to_digit(notation.as_str().get_char(3));
    let mut r = String::new();
    push_digit(&mut r, from_y);
    push_digit(&mut r, from_x);
    push_digit(&mut r, to_y);
    push_digit(&mut r, to_x);
    proof {
        assert(r@ =~= seq![
            digit_char(8 - char_digit(notation@[1])),
            digit_char(crate::rules::letter_col(notation@[0])),
            digit_char(8 - char_digit(notation@[3])),
            digit_char(crate::rules::letter_col(notation@[2])),
        ]);
    }
    r
}

/// Rewrites a four-digit history code such as "6444" into readable
/// algebraic notation such as "e2-e4".
pub fn convert_position_into_notation(position: String) -> (r: String)
    requires
        position@.len() >= 4,
        forall|i: int| 0 <= i < 4 ==> 0 <= char_digit(#[trigger] position@[i]) <= 7,
    ensures
        r@ == seq![
            col_char(char_digit(position@[1])),
            digit_char(8 - char_digit(position@[0])),
            '-',
            col_char(char_digit(position@[3])),
            digit_char(8 - char_digit(position@[2])),
        ],
{
    let from_y = char_to_digit(position.as_str().get_char(0));
    let from_x = char_to_digit(position.as_str().get_char(1));
    let to_y = char_to_digit(position.as_str().get_char(2));
    let to_x = char_to_digit(position.as_str().get_char(3));
    let mut r = col_to_letter(from_x);
    push_digit(&mut r, 8 - from_y);
    proof {
        reveal_strlit("-");
    }
    r.append("-");
    let second = col_to_letter(to_x);
    r.append(second.as_str());
    push_digit(&mut r, 8 - to_y);
    proof {
        assert(r@ =~= seq![
            col_char(char_digit(position@[1])),
            digit_char(8 - char_digit(position@[0])),
            '-',
            col_char(char_digit(position@[3])),
            digit_char(8 - char_digit(position@[2])),
        ]);
    }
    r
}

} // verus!
