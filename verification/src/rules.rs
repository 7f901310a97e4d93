//! The ghost model of the game: spec-level descriptions of the grid,
//! of what each piece can reach, of check, and of the move notation.
use vstd::prelude::*;

use crate::board::{GameBoard, Piece};
use crate::pieces::{PieceColor, PieceType};

verus! {

/// A row/column pair lies on the 8 by 8 grid.
pub open spec fn in_bounds(r: int, c: int) -> bool {
    0 <= r < 8 && 0 <= c < 8
}

/// The cell of `b` at row `r`, column `c`.
pub open spec fn at(b: GameBoard, r: int, c: int) -> Piece {
    b[r][c]
}

/// `b` with the cell at (`r`, `c`) replaced by `p`.
pub open spec fn gset(b: GameBoard, r: int, c: int, p: Piece) -> GameBoard {
    vstd::array::spec_array_update(b, r, vstd::array::spec_array_update(b[r], c, p))
}

/// What `gset` does to each cell.
pub proof fn lemma_gset(b: GameBoard, r: int, c: int, p: Piece)
    requires
        in_bounds(r, c),
    ensures
        forall|i: int, j: int|
            in_bounds(i, j) ==> #[trigger] at(#[trigger] gset(b, r, c, p), i, j) == if i == r && j
                == c {
                p
            } else {
                at(b, i, j)
            },
{
    broadcast use vstd::array::group_array_axioms;

}

/// The digit character for a value in 0 ..= 9.
pub open spec fn digit_char(d: int) -> char {
    if d == 0 {
        '0'
    } else if d == 1 {
        '1'
    } else if d == 2 {
        '2'
    } else if d == 3 {
        '3'
    } else if d == 4 {
        '4'
    } else if d == 5 {
        '5'
    } else if d == 6 {
        '6'
    } else if d == 7 {
        '7'
    } else if d == 8 {
        '8'
    } else {
        '9'
    }
}

/// The value of a digit character, -1 for any other character.
pub open spec fn char_digit(c: char) -> int {
    if c == '0' {
        0
    } else if c == '1' {
        1
    } else if c == '2' {
        2
    } else if c == '3' {
        3
    } else if c == '4' {
        4
    } else if c == '5' {
        5
    } else if c == '6' {
        6
    } else if c == '7' {
        7
    } else if c == '8' {
        8
    } else if c == '9' {
        9
    } else {
        -1
    }
}

/// The column of a file letter, -1 for any other character.
pub open spec fn letter_col(c: char) -> int {
    if c == 'a' {
        0
    } else if c == 'b' {
        1
    } else if c == 'c' {
        2
    } else if c == 'd' {
        3
    } else if c == 'e' {
        4
    } else if c == 'f' {
        5
    } else if c == 'g' {
        6
    } else if c == 'h' {
        7
    } else {
        -1
    }
}

/// The file letter of a column in 0 ..= 7.
pub open spec fn col_char(c: int) -> char {
    if c == 0 {
        'a'
    } else if c == 1 {
        'b'
    } else if c == 2 {
        'c'
    } else if c == 3 {
        'd'
    } else if c == 4 {
        'e'
    } else if c == 5 {
        'f'
    } else if c == 6 {
        'g'
    } else {
        'h'
    }
}

} // verus!

use crate::board::{Coords, HistRec};

verus! {

// ---------------------------------------------------------------------------
// Cells and occupancy
// ---------------------------------------------------------------------------

/// The colour of the piece at (`r`, `c`), if any.
pub open spec fn color_at(b: GameBoard, r: int, c: int) -> Option<PieceColor> {
    match at(b, r, c) {
        Some(p) => Some(p.1),
        None => None,
    }
}

/// The kind of the piece at (`r`, `c`), if any.
pub open spec fn kind_at(b: GameBoard, r: int, c: int) -> Option<PieceType> {
    match at(b, r, c) {
        Some(p) => Some(p.0),
        None => None,
    }
}

/// The cell at (`r`, `c`) is empty.
pub open spec fn empty_at(b: GameBoard, r: int, c: int) -> bool {
    at(b, r, c) is None
}

/// The cell holds a piece of `color`.
pub open spec fn ally_at(b: GameBoard, color: PieceColor, r: int, c: int) -> bool {
    color_at(b, r, c) == Some(color)
}

/// The cell holds a piece of the other side.
pub open spec fn enemy_at(b: GameBoard, color: PieceColor, r: int, c: int) -> bool {
    color_at(b, r, c) == Some(color.other())
}

/// A sliding piece of `color` scans onward through this cell: it is empty,
/// or, when threat squares are being computed (`allow`), it holds the enemy
/// king, which a sliding piece sees through.
pub open spec fn passable(b: GameBoard, color: PieceColor, r: int, c: int, allow: bool) -> bool {
    empty_at(b, r, c) || (allow && at(b, r, c) == Some((PieceType::King, color.other())))
}

// ---------------------------------------------------------------------------
// Rays
// ---------------------------------------------------------------------------

/// `base` moved `k` steps along the unit offset `d` in {-1, 0, 1}.
pub open spec fn off(base: int, d: int, k: int) -> int {
    if d == 1 {
        base + k
    } else if d == -1 {
        base - k
    } else {
        base
    }
}

/// The square `k` steps from (`fr`, `fc`) along (`dr`, `dc`) is reached by a
/// sliding scan: every strictly earlier square is passable, the square lies
/// on the grid, and it is not an ally square unless `allow`.
pub open spec fn ray_hit(
    b: GameBoard,
    color: PieceColor,
    fr: int,
    fc: int,
    dr: int,
    dc: int,
    k: int,
    allow: bool,
) -> bool {
    &&& 1 <= k
    &&& in_bounds(off(fr, dr, k), off(fc, dc, k))
    &&& forall|j: int| 1 <= j < k ==> passable(b, color, off(fr, dr, j), #[trigger] off(fc, dc, j), allow)
    &&& (allow || !ally_at(b, color, off(fr, dr, k), off(fc, dc, k)))
}

/// (`tr`, `tc`) is reached from (`fr`, `fc`) along the ray (`dr`, `dc`).
pub open spec fn ray_reaches(
    b: GameBoard,
    color: PieceColor,
    fr: int,
    fc: int,
    dr: int,
    dc: int,
    tr: int,
    tc: int,
    allow: bool,
) -> bool {
    exists|k: int|
        #[trigger] ray_hit(b, color, fr, fc, dr, dc, k, allow) && tr == off(fr, dr, k) && tc == off(
            fc,
            dc,
            k,
        )
}

// ---------------------------------------------------------------------------
// Reachability of each piece kind
// ---------------------------------------------------------------------------

/// Raw bishop reachability: the union of the four diagonal rays.
pub open spec fn bishop_can(
    b: GameBoard,
    color: PieceColor,
    fr: int,
    fc: int,
    tr: int,
    tc: int,
    allow: bool,
) -> bool {
    ||| ray_reaches(b, color, fr, fc, -1, -1, tr, tc, allow)
    ||| ray_reaches(b, color, fr, fc, -1, 1, tr, tc, allow)
    ||| ray_reaches(b, color, fr, fc, 1, -1, tr, tc, allow)
    ||| ray_reaches(b, color, fr, fc, 1, 1, tr, tc, allow)
}

/// Raw rook reachability: the union of the four straight rays.
pub open spec fn rook_can(
    b: GameBoard,
    color: PieceColor,
    fr: int,
    fc: int,
    tr: int,
    tc: int,
    allow: bool,
) -> bool {
    ||| ray_reaches(b, color, fr, fc, -1, 0, tr, tc, allow)
    ||| ray_reaches(b, color, fr, fc, 1, 0, tr, tc, allow)
    ||| ray_reaches(b, color, fr, fc, 0, -1, tr, tc, allow)
    ||| ray_reaches(b, color, fr, fc, 0, 1, tr, tc, allow)
}

/// Raw queen reachability: bishop and rook rays together.
pub open spec fn queen_can(
    b: GameBoard,
    color: PieceColor,
    fr: int,
    fc: int,
    tr: int,
    tc: int,
    allow: bool,
) -> bool {
    bishop_can(b, color, fr, fc, tr, tc, allow) || rook_can(b, color, fr, fc, tr, tc, allow)
}

/// Raw knight reachability: the eight L-shaped offsets.
pub open spec fn knight_can(
    b: GameBoard,
    color: PieceColor,
    fr: int,
    fc: int,
    tr: int,
    tc: int,
    allow: bool,
) -> bool {
    &&& in_bounds(tr, tc)
    &&& {
        ||| ((tr - fr == 1 || tr - fr == -1) && (tc - fc == 2 || tc - fc == -2))
        ||| ((tr - fr == 2 || tr - fr == -2) && (tc - fc == 1 || tc - fc == -1))
    }
    &&& (allow || !ally_at(b, color, tr, tc))
}

/// Raw king reachability: the eight adjacent squares, with no
/// safety filtering at this layer.
pub open spec fn king_can(
    b: GameBoard,
    color: PieceColor,
    fr: int,
    fc: int,
    tr: int,
    tc: int,
    allow: bool,
) -> bool {
    &&& in_bounds(tr, tc)
    &&& (tr != fr || tc != fc)
    &&& -1 <= tr - fr <= 1
    &&& -1 <= tc - fc <= 1
    &&& (allow || !ally_at(b, color, tr, tc))
}

/// The row direction a pawn of `color` advances in.
pub open spec fn pawn_dir(color: PieceColor) -> int {
    if color == PieceColor::White {
        -1
    } else {
        1
    }
}

/// The starting rank of a pawn of `color`.
pub open spec fn pawn_start_row(color: PieceColor) -> int {
    if color == PieceColor::White {
        6
    } else {
        1
    }
}

/// The previous ply allows an en passant capture by a pawn on row `fr`
/// landing on column `tc`: the last record is a pawn double step that
/// ended on (`fr`, `tc`).
pub open spec fn ep_ok(h: Seq<HistRec>, fr: int, tc: int) -> bool {
    &&& h.len() > 0
    &&& h.last().0 == PieceType::Pawn
    &&& {
        let from_r = char_digit(h.last().1@[0]);
        let to_r = char_digit(h.last().1@[2]);
        let to_c = char_digit(h.last().1@[3]);
        &&& (to_r - from_r == 2 || from_r - to_r == 2)
        &&& to_r == fr
        &&& to_c == tc
    }
}

/// Raw pawn reachability. With `allow` the pawn's two capture diagonals
/// are reported whatever stands on them (its threat squares); otherwise
/// the quiet advances, captures and en passant.
pub open spec fn pawn_can(
    b: GameBoard,
    h: Seq<HistRec>,
    color: PieceColor,
    fr: int,
    fc: int,
    tr: int,
    tc: int,
    allow: bool,
) -> bool {
    if allow {
        in_bounds(tr, tc) && tr == fr + pawn_dir(color) && (tc == fc - 1 || tc == fc + 1)
    } else {
        ||| (in_bounds(tr, tc) && tc == fc && tr == fr + pawn_dir(color) && empty_at(b, tr, tc))
        ||| (in_bounds(tr, tc) && tc == fc && tr == fr + 2 * pawn_dir(color) && fr
            == pawn_start_row(color) && empty_at(b, fr + pawn_dir(color), fc) && empty_at(
            b,
            tr,
            tc,
        ))
        ||| (in_bounds(tr, tc) && tr == fr + pawn_dir(color) && (tc == fc - 1 || tc == fc + 1)
            && enemy_at(b, color, tr, tc))
        ||| (in_bounds(tr, tc) && tr == fr + pawn_dir(color) && (tc == fc - 1 || tc == fc + 1)
            && ep_ok(h, fr, tc))
    }
}

/// Raw reachability of a piece of kind `kind`.
pub open spec fn piece_can(
    b: GameBoard,
    h: Seq<HistRec>,
    kind: PieceType,
    color: PieceColor,
    fr: int,
    fc: int,
    tr: int,
    tc: int,
    allow: bool,
) -> bool {
    match kind {
        PieceType::Pawn => pawn_can(b, h, color, fr, fc, tr, tc, allow),
        PieceType::Knight => knight_can(b, color, fr, fc, tr, tc, allow),
        PieceType::Bishop => bishop_can(b, color, fr, fc, tr, tc, allow),
        PieceType::Rook => rook_can(b, color, fr, fc, tr, tc, allow),
        PieceType::Queen => queen_can(b, color, fr, fc, tr, tc, allow),
        PieceType::King => king_can(b, color, fr, fc, tr, tc, allow),
    }
}

// ---------------------------------------------------------------------------
// Attack, check, and the authorized filter
// ---------------------------------------------------------------------------

/// The piece at (`ar`, `ac`) belongs to `color` and threatens (`r`, `c`).
/// Threat squares never depend on the move history.
pub open spec fn attacker_at(
    b: GameBoard,
    color: PieceColor,
    ar: int,
    ac: int,
    r: int,
    c: int,
) -> bool {
    &&& in_bounds(ar, ac)
    &&& match at(b, ar, ac) {
        Some(p) => p.1 == color && piece_can(b, Seq::empty(), p.0, color, ar, ac, r, c, true),
        None => false,
    }
}

/// Some piece of `color` threatens (`r`, `c`).
pub open spec fn square_attacked_by(b: GameBoard, color: PieceColor, r: int, c: int) -> bool {
    exists|ar: int, ac: int| #[trigger] attacker_at(b, color, ar, ac, r, c)
}

/// The first square holding the king of `color`, scanning row-major from
/// flat index `i`.
pub open spec fn find_king_from(b: GameBoard, color: PieceColor, i: int) -> Option<(int, int)>
    decreases 64 - i,
{
    if i < 0 || i >= 64 {
        None
    } else if at(b, i / 8, i % 8) == Some((PieceType::King, color)) {
        Some((i / 8, i % 8))
    } else {
        find_king_from(b, color, i + 1)
    }
}

/// The square of the king of `color`, if one stands on the board.
pub open spec fn king_square(b: GameBoard, color: PieceColor) -> Option<(int, int)> {
    find_king_from(b, color, 0)
}

/// A king of `color` stands somewhere on the board.
pub open spec fn has_king(b: GameBoard, color: PieceColor) -> bool {
    king_square(b, color) is Some
}

/// The king of `color` is attacked. A board without that king is not
/// in check.
pub open spec fn is_check(b: GameBoard, color: PieceColor) -> bool {
    match king_square(b, color) {
        Some(k) => square_attacked_by(b, color.other(), k.0, k.1),
        None => false,
    }
}

/// The grid after the piece on (`fr`, `fc`) is placed on (`tr`, `tc`)
/// and its own square is cleared.
pub open spec fn move_sim(b: GameBoard, fr: int, fc: int, tr: int, tc: int) -> GameBoard {
    gset(gset(b, tr, tc, at(b, fr, fc)), fr, fc, None)
}

/// A raw move that does not leave the mover's own king in check.
pub open spec fn auth_can(
    b: GameBoard,
    h: Seq<HistRec>,
    kind: PieceType,
    color: PieceColor,
    fr: int,
    fc: int,
    tr: int,
    tc: int,
) -> bool {
    &&& piece_can(b, h, kind, color, fr, fc, tr, tc, false)
    &&& !is_check(move_sim(b, fr, fc, tr, tc), color)
}

// ---------------------------------------------------------------------------
// Move history
// ---------------------------------------------------------------------------

/// A history record holds four digit characters, each in 0 ..= 7.
pub open spec fn rec_ok(rec: HistRec) -> bool {
    rec.1@.len() == 4 && forall|i: int| 0 <= i < 4 ==> 0 <= char_digit(#[trigger] rec.1@[i]) <= 7
}

/// Every record of the history is well formed.
pub open spec fn hist_ok(h: Seq<HistRec>) -> bool {
    forall|i: int| 0 <= i < h.len() ==> rec_ok(#[trigger] h[i])
}

/// The four coordinates of a record.
pub open spec fn rec_from_row(rec: HistRec) -> int {
    char_digit(rec.1@[0])
}

pub open spec fn rec_from_col(rec: HistRec) -> int {
    char_digit(rec.1@[1])
}

pub open spec fn rec_to_row(rec: HistRec) -> int {
    char_digit(rec.1@[2])
}

pub open spec fn rec_to_col(rec: HistRec) -> int {
    char_digit(rec.1@[3])
}

/// The history code of a move from (`fr`, `fc`) to (`tr`, `tc`).
pub open spec fn hist_code(fr: int, fc: int, tr: int, tc: int) -> Seq<char> {
    seq![digit_char(fr), digit_char(fc), digit_char(tr), digit_char(tc)]
}

/// Some record moved a piece of kind `kind` away from (`r`, `c`).
pub open spec fn moved_from(h: Seq<HistRec>, kind: PieceType, r: int, c: int) -> bool {
    exists|i: int|
        0 <= i < h.len() && (#[trigger] h[i]).0 == kind && h[i].1@[0] == digit_char(r)
            && h[i].1@[1] == digit_char(c)
}

/// The last recorded ply moved a pawn two rows.
pub open spec fn last_was_pawn_two(h: Seq<HistRec>) -> bool {
    &&& h.len() > 0
    &&& h.last().0 == PieceType::Pawn
    &&& {
        let d = rec_to_row(h.last()) - rec_from_row(h.last());
        d == 2 || d == -2
    }
}

} // verus!

verus! {

// ---------------------------------------------------------------------------
// Lists of coordinates
// ---------------------------------------------------------------------------

/// The list holds the square (`r`, `c`).
pub open spec fn contains_rc(v: Seq<Coords>, r: int, c: int) -> bool {
    exists|i: int| 0 <= i < v.len() && (#[trigger] v[i]).row == r && v[i].col == c
}

/// Every coordinate of the list lies on the grid.
pub open spec fn all_valid(v: Seq<Coords>) -> bool {
    forall|i: int| 0 <= i < v.len() ==> (#[trigger] v[i]).valid()
}

/// Membership in a concatenation is membership in either part.
pub proof fn lemma_contains_rc_add(a: Seq<Coords>, b: Seq<Coords>, r: int, c: int)
    ensures
        contains_rc(a + b, r, c) <==> contains_rc(a, r, c) || contains_rc(b, r, c),
{
    if contains_rc(a, r, c) {
        let i = choose|i: int| 0 <= i < a.len() && (#[trigger] a[i]).row == r && a[i].col == c;
        assert((a + b)[i].row == r && (a + b)[i].col == c);
    }
    if contains_rc(b, r, c) {
        let i = choose|i: int| 0 <= i < b.len() && (#[trigger] b[i]).row == r && b[i].col == c;
        assert((a + b)[a.len() + i].row == r && (a + b)[a.len() + i].col == c);
    }
    if contains_rc(a + b, r, c) {
        let i = choose|i: int|
            0 <= i < (a + b).len() && ((a + b)[i]).row == r && (#[trigger] (a + b)[i]).col == c;
        if i < a.len() {
            assert(a[i].row == r && a[i].col == c);
        } else {
            assert(b[i - a.len()].row == r && b[i - a.len()].col == c);
        }
    }
}

} // verus!

verus! {

/// Membership after a push: the old members plus the pushed square.
pub proof fn lemma_contains_rc_push(v: Seq<Coords>, x: Coords, r: int, c: int)
    ensures
        contains_rc(v.push(x), r, c) <==> (contains_rc(v, r, c) || (x.row == r && x.col == c)),
{
    let w = v.push(x);
    if contains_rc(v, r, c) {
        let i = choose|i: int| 0 <= i < v.len() && (#[trigger] v[i]).row == r && v[i].col == c;
        assert(w[i].row == r && w[i].col == c);
    }
    if x.row == r && x.col == c {
        assert(w[v.len() as int].row == r && w[v.len() as int].col == c);
    }
    if contains_rc(w, r, c) {
        let i = choose|i: int| 0 <= i < w.len() && (#[trigger] w[i]).row == r && w[i].col == c;
        if i < v.len() {
            assert(v[i].row == r && v[i].col == c);
        }
    }
}

/// On a scanned ray whose first `p` squares were reached and whose
/// continuation is blocked, the reached steps are exactly 1 ..= `p`.
pub proof fn lemma_ray_set(
    b: GameBoard,
    color: PieceColor,
    fr: int,
    fc: int,
    dr: int,
    dc: int,
    allow: bool,
    p: int,
)
    requires
        0 <= p,
        forall|jj: int|
            1 <= jj < p ==> passable(b, color, off(fr, dr, jj), #[trigger] off(fc, dc, jj), allow),
        forall|jj: int|
            1 <= jj <= p ==> in_bounds(off(fr, dr, jj), #[trigger] off(fc, dc, jj)),
        forall|jj: int|
            1 <= jj <= p ==> (allow || !ally_at(b, color, off(fr, dr, jj), #[trigger] off(fc, dc, jj))),
        forall|k: int| k > p ==> !(#[trigger] ray_hit(b, color, fr, fc, dr, dc, k, allow)),
    ensures
        forall|k: int|
            1 <= k ==> (#[trigger] ray_hit(b, color, fr, fc, dr, dc, k, allow) <==> k <= p),
{
    assert forall|k: int| 1 <= k <= p implies ray_hit(b, color, fr, fc, dr, dc, k, allow) by {
        assert(off(fc, dc, k) == off(fc, dc, k));
    }
}

/// Turns an exact step set into the exact square set of the ray.
pub proof fn lemma_ray_final(
    b: GameBoard,
    color: PieceColor,
    out: Seq<Coords>,
    fr: int,
    fc: int,
    dr: int,
    dc: int,
    allow: bool,
    p: int,
)
    requires
        forall|tr: int, tc: int|
            #[trigger] contains_rc(out, tr, tc) <==> exists|k: int|
                1 <= k <= p && tr == off(fr, dr, k) && tc == #[trigger] off(fc, dc, k),
        forall|k: int|
            1 <= k ==> (#[trigger] ray_hit(b, color, fr, fc, dr, dc, k, allow) <==> k <= p),
    ensures
        forall|tr: int, tc: int|
            #[trigger] contains_rc(out, tr, tc) <==> ray_reaches(
                b,
                color,
                fr,
                fc,
                dr,
                dc,
                tr,
                tc,
                allow,
            ),
{
    assert forall|tr: int, tc: int| #[trigger] contains_rc(out, tr, tc) implies ray_reaches(
        b,
        color,
        fr,
        fc,
        dr,
        dc,
        tr,
        tc,
        allow,
    ) by {
        let k = choose|k: int|
            1 <= k <= p && tr == off(fr, dr, k) && tc == #[trigger] off(fc, dc, k);
        assert(ray_hit(b, color, fr, fc, dr, dc, k, allow));
    }
    assert forall|tr: int, tc: int|
        ray_reaches(b, color, fr, fc, dr, dc, tr, tc, allow) implies #[trigger] contains_rc(
        out,
        tr,
        tc,
    ) by {
        let k = choose|k: int|
            #[trigger] ray_hit(b, color, fr, fc, dr, dc, k, allow) && tr == off(fr, dr, k) && tc
                == off(fc, dc, k);
        assert(1 <= k <= p);
        assert(off(fc, dc, k) == off(fc, dc, k));
    }
}

} // verus!

verus! {

/// Validity of a concatenation follows from validity of the parts.
pub proof fn lemma_all_valid_add(a: Seq<Coords>, b: Seq<Coords>)
    requires
        all_valid(a),
        all_valid(b),
    ensures
        all_valid(a + b),
{
    assert forall|i: int| 0 <= i < (a + b).len() implies ((a + b)[i]).valid() by {
        if i < a.len() {
            assert((a + b)[i] == a[i]);
        } else {
            assert((a + b)[i] == b[i - a.len()]);
        }
    }
}

/// A single-square candidate is kept: on the grid, and not an ally
/// square unless `allow`.
pub open spec fn jump_ok(b: GameBoard, color: PieceColor, r: int, c: int, allow: bool) -> bool {
    in_bounds(r, c) && (allow || !ally_at(b, color, r, c))
}

/// Threat squares do not depend on the history that is passed along.
pub proof fn lemma_piece_can_allow_hist(
    b: GameBoard,
    h: Seq<HistRec>,
    kind: PieceType,
    color: PieceColor,
    fr: int,
    fc: int,
    tr: int,
    tc: int,
)
    ensures
        piece_can(b, h, kind, color, fr, fc, tr, tc, true) == piece_can(
            b,
            Seq::<HistRec>::empty(),
            kind,
            color,
            fr,
            fc,
            tr,
            tc,
            true,
        ),
{
}

// ---------------------------------------------------------------------------
// Castling and the authorized filter per kind
// ---------------------------------------------------------------------------

/// The home rank of `color`.
pub open spec fn home_row(color: PieceColor) -> int {
    if color == PieceColor::White {
        7
    } else {
        0
    }
}

/// King-side castling is available to `color`: king and rook stand
/// untouched on their home squares, the squares between them are empty,
/// the king is not in check, and the squares it crosses or lands on are
/// not attacked.
pub open spec fn castle_short_ok(b: GameBoard, h: Seq<HistRec>, color: PieceColor) -> bool {
    let line = home_row(color);
    &&& at(b, line, 4) == Some((PieceType::King, color))
    &&& at(b, line, 7) == Some((PieceType::Rook, color))
    &&& !moved_from(h, PieceType::King, line, 4)
    &&& !moved_from(h, PieceType::Rook, line, 7)
    &&& empty_at(b, line, 5)
    &&& empty_at(b, line, 6)
    &&& !is_check(b, color)
    &&& !square_attacked_by(b, color.other(), line, 5)
    &&& !square_attacked_by(b, color.other(), line, 6)
}

/// Queen-side castling is available to `color`.
pub open spec fn castle_long_ok(b: GameBoard, h: Seq<HistRec>, color: PieceColor) -> bool {
    let line = home_row(color);
    &&& at(b, line, 4) == Some((PieceType::King, color))
    &&& at(b, line, 0) == Some((PieceType::Rook, color))
    &&& !moved_from(h, PieceType::King, line, 4)
    &&& !moved_from(h, PieceType::Rook, line, 0)
    &&& empty_at(b, line, 1)
    &&& empty_at(b, line, 2)
    &&& empty_at(b, line, 3)
    &&& !is_check(b, color)
    &&& !square_attacked_by(b, color.other(), line, 2)
    &&& !square_attacked_by(b, color.other(), line, 3)
}

/// The legal destinations of the piece of `kind` and `color` standing on
/// (`fr`, `fc`): its raw moves that leave its own king safe, and for the
/// king the castling candidates, reported as the rook's square.
pub open spec fn authorized(
    b: GameBoard,
    h: Seq<HistRec>,
    kind: PieceType,
    color: PieceColor,
    fr: int,
    fc: int,
    tr: int,
    tc: int,
) -> bool {
    ||| auth_can(b, h, kind, color, fr, fc, tr, tc)
    ||| (kind == PieceType::King && castle_short_ok(b, h, color) && tr == home_row(color) && tc
        == 7)
    ||| (kind == PieceType::King && castle_long_ok(b, h, color) && tr == home_row(color) && tc
        == 0)
}

/// No piece of `color` has any legal destination.
pub open spec fn no_moves(b: GameBoard, h: Seq<HistRec>, color: PieceColor) -> bool {
    forall|fr: int, fc: int, tr: int, tc: int|
        in_bounds(fr, fc) && ally_at(b, color, fr, fc) ==> !authorized(
            b,
            h,
            kind_at(b, fr, fc).unwrap(),
            color,
            fr,
            fc,
            tr,
            tc,
        )
}

// ---------------------------------------------------------------------------
// FEN letters
// ---------------------------------------------------------------------------

/// The piece a FEN letter denotes: upper case white, lower case black.
pub open spec fn char_piece(ch: char) -> Option<(PieceType, PieceColor)> {
    if ch == 'P' {
        Some((PieceType::Pawn, PieceColor::White))
    } else if ch == 'N' {
        Some((PieceType::Knight, PieceColor::White))
    } else if ch == 'B' {
        Some((PieceType::Bishop, PieceColor::White))
    } else if ch == 'R' {
        Some((PieceType::Rook, PieceColor::White))
    } else if ch == 'Q' {
        Some((PieceType::Queen, PieceColor::White))
    } else if ch == 'K' {
        Some((PieceType::King, PieceColor::White))
    } else if ch == 'p' {
        Some((PieceType::Pawn, PieceColor::Black))
    } else if ch == 'n' {
        Some((PieceType::Knight, PieceColor::Black))
    } else if ch == 'b' {
        Some((PieceType::Bishop, PieceColor::Black))
    } else if ch == 'r' {
        Some((PieceType::Rook, PieceColor::Black))
    } else if ch == 'q' {
        Some((PieceType::Queen, PieceColor::Black))
    } else if ch == 'k' {
        Some((PieceType::King, PieceColor::Black))
    } else {
        None
    }
}

/// The FEN letter of a piece.
pub open spec fn fen_char(kind: PieceType, color: PieceColor) -> char {
    match (kind, color) {
        (PieceType::Pawn, PieceColor::White) => 'P',
        (PieceType::Knight, PieceColor::White) => 'N',
        (PieceType::Bishop, PieceColor::White) => 'B',
        (PieceType::Rook, PieceColor::White) => 'R',
        (PieceType::Queen, PieceColor::White) => 'Q',
        (PieceType::King, PieceColor::White) => 'K',
        (PieceType::Pawn, PieceColor::Black) => 'p',
        (PieceType::Knight, PieceColor::Black) => 'n',
        (PieceType::Bishop, PieceColor::Black) => 'b',
        (PieceType::Rook, PieceColor::Black) => 'r',
        (PieceType::Queen, PieceColor::Black) => 'q',
        (PieceType::King, PieceColor::Black) => 'k',
    }
}

} // verus!

verus! {

// ---------------------------------------------------------------------------
// The starting layout
// ---------------------------------------------------------------------------

/// The piece standing on (`r`, `c`) in the starting layout.
pub open spec fn init_piece(r: int, c: int) -> Piece {
    if r == 0 || r == 7 {
        let color = if r == 0 {
            PieceColor::Black
        } else {
            PieceColor::White
        };
        if c == 0 || c == 7 {
            Some((PieceType::Rook, color))
        } else if c == 1 || c == 6 {
            Some((PieceType::Knight, color))
        } else if c == 2 || c == 5 {
            Some((PieceType::Bishop, color))
        } else if c == 3 {
            Some((PieceType::Queen, color))
        } else {
            Some((PieceType::King, color))
        }
    } else if r == 1 {
        Some((PieceType::Pawn, PieceColor::Black))
    } else if r == 6 {
        Some((PieceType::Pawn, PieceColor::White))
    } else {
        None
    }
}

// ---------------------------------------------------------------------------
// The model of move application
// ---------------------------------------------------------------------------

/// The move resets the counter of quiet plies: a pawn moved or a piece
/// was captured.
pub open spec fn mp_resets_counter(b: GameBoard, fr: int, fc: int, tr: int, tc: int) -> bool {
    ||| kind_at(b, fr, fc) == Some(PieceType::Pawn)
    ||| (kind_at(b, fr, fc) is Some && kind_at(b, tr, tc) is Some)
}

/// The move is handled as an en passant capture: a pawn moves diagonally
/// onto an empty cell.
pub open spec fn mp_is_ep(b: GameBoard, fr: int, fc: int, tr: int, tc: int) -> bool {
    &&& kind_at(b, fr, fc) == Some(PieceType::Pawn)
    &&& fr != tr
    &&& fc != tc
    &&& empty_at(b, tr, tc)
}

/// The move is handled as castling: a king moves more than one column.
pub open spec fn mp_is_castle(b: GameBoard, fr: int, fc: int, tr: int, tc: int) -> bool {
    &&& kind_at(b, fr, fc) == Some(PieceType::King)
    &&& (fc - tc > 1 || tc - fc > 1)
}

/// The column the king lands on when castling.
pub open spec fn mp_castle_king_col(fc: int, tc: int) -> int {
    if fc - tc > 0 {
        fc - 2
    } else {
        fc + 2
    }
}

/// The column the castling rook is taken from: the move's target column,
/// except that an engine reports castling as a two-column king step, so
/// under a bot game the black rook is taken from its corner.
pub open spec fn mp_castle_rook_src(turn: PieceColor, bot: bool, fc: int, tc: int) -> int {
    if bot && turn == PieceColor::Black {
        if fc - tc < 0 {
            7
        } else {
            0
        }
    } else {
        tc
    }
}

/// The column the castling rook lands on.
pub open spec fn mp_castle_rook_dst(fc: int, tc: int) -> int {
    if fc - tc < 0 {
        5
    } else {
        3
    }
}

/// The indices that move application writes stay on the grid.
pub open spec fn mp_safe(
    b: GameBoard,
    turn: PieceColor,
    fr: int,
    fc: int,
    tr: int,
    tc: int,
) -> bool {
    &&& (mp_is_ep(b, fr, fc, tr, tc) ==> 0 <= tr - pawn_dir(turn) <= 7)
    &&& (mp_is_castle(b, fr, fc, tr, tc) ==> 0 <= mp_castle_king_col(fc, tc) <= 7)
}

/// The grid after the move from (`fr`, `fc`) to (`tr`, `tc`) is applied.
pub open spec fn mp_grid(
    b: GameBoard,
    turn: PieceColor,
    bot: bool,
    fr: int,
    fc: int,
    tr: int,
    tc: int,
) -> GameBoard {
    let b1 = if mp_is_ep(b, fr, fc, tr, tc) {
        gset(b, tr - pawn_dir(turn), tc, None)
    } else {
        b
    };
    if mp_is_castle(b, fr, fc, tr, tc) {
        let kc = mp_castle_king_col(fc, tc);
        let rs = mp_castle_rook_src(turn, bot, fc, tc);
        let rd = mp_castle_rook_dst(fc, tc);
        let b2 = gset(b1, tr, kc, at(b1, fr, fc));
        let b3 = gset(b2, tr, rd, at(b2, tr, rs));
        let b4 = gset(b3, tr, rs, None);
        gset(b4, fr, fc, None)
    } else {
        let b2 = gset(b1, tr, tc, at(b1, fr, fc));
        gset(b2, fr, fc, None)
    }
}

/// The destination column written into the history record: the king's
/// landing column for castling, else the move's target column.
pub open spec fn mp_rec_to_col(b: GameBoard, fr: int, fc: int, tr: int, tc: int) -> int {
    if mp_is_castle(b, fr, fc, tr, tc) {
        mp_castle_king_col(fc, tc)
    } else {
        tc
    }
}

// ---------------------------------------------------------------------------
// The model of takeback
// ---------------------------------------------------------------------------

/// The record moved to (`r`, `c`) (with `to_side`) or away from it.
pub open spec fn hh_match(rec: HistRec, r: int, c: int, to_side: bool) -> bool {
    if to_side {
        rec.1@[2] == digit_char(r) && rec.1@[3] == digit_char(c)
    } else {
        rec.1@[0] == digit_char(r) && rec.1@[1] == digit_char(c)
    }
}

/// The largest index of a record matching (`r`, `c`), never index 0.
pub open spec fn history_has_idx(h: Seq<HistRec>, r: int, c: int, to_side: bool) -> Option<int>
    decreases h.len(),
{
    if h.len() <= 1 {
        None
    } else if hh_match(h.last(), r, c, to_side) {
        Some(h.len() - 1)
    } else {
        history_has_idx(h.drop_last(), r, c, to_side)
    }
}

/// The piece takeback places back on the vacated destination square: a
/// captured piece recovered from the remaining history, or a piece of the
/// starting layout that never moved away, or nothing.
pub open spec fn tb_refill(h: Seq<HistRec>, turn: PieceColor, r: int, c: int) -> Piece {
    let ht = history_has_idx(h, r, c, true);
    let hf = history_has_idx(h, r, c, false);
    if (ht is Some && hf is None) || (ht is Some && hf is Some && ht.unwrap() > hf.unwrap()) {
        Some((h[ht.unwrap()].0, turn))
    } else {
        match init_piece(r, c) {
            Some(p) => if p.1 == turn && hf is None {
                Some(p)
            } else {
                None
            },
            None => None,
        }
    }
}

/// The last popped record reads back with indices that takeback writes
/// staying on the grid.
pub open spec fn tb_safe(h: Seq<HistRec>) -> bool {
    h.len() > 0 ==> {
        let rec = h.last();
        (rec.0 == PieceType::King && (rec_to_col(rec) - rec_from_col(rec) > 1 || rec_from_col(rec)
            - rec_to_col(rec) > 1)) ==> 1 <= rec_to_col(rec) <= 6
    }
}

/// The grid after the last recorded ply of `h` is taken back on `b`;
/// `turn` is the side to move before the takeback (the side that did not
/// play the undone ply).
pub open spec fn tb_grid(b: GameBoard, h: Seq<HistRec>, turn: PieceColor) -> GameBoard {
    let rec = h.last();
    let hp = h.drop_last();
    let or_ = rec_from_row(rec);
    let oc = rec_from_col(rec);
    let dr_ = rec_to_row(rec);
    let dc = rec_to_col(rec);
    let b1 = if rec.0 == PieceType::King && (dc - oc > 1 || oc - dc > 1) {
        // castling: clear the rook beside the king's landing square and
        // put it back on the mover's corner
        if kind_at(b, dr_, dc - 1) == Some(PieceType::Rook) {
            if turn == PieceColor::Black {
                gset(gset(b, dr_, dc - 1, None), 7, 7, Some((PieceType::Rook, PieceColor::White)))
            } else {
                gset(gset(b, dr_, dc - 1, None), 0, 7, Some((PieceType::Rook, PieceColor::Black)))
            }
        } else {
            if turn == PieceColor::Black {
                gset(gset(b, dr_, dc + 1, None), 7, 0, Some((PieceType::Rook, PieceColor::White)))
            } else {
                gset(gset(b, dr_, dc + 1, None), 0, 0, Some((PieceType::Rook, PieceColor::Black)))
            }
        }
    } else if rec.0 == PieceType::Pawn && dr_ != or_ && dc != oc {
        // en passant: put the captured pawn back where the double step
        // had left it
        if hp.len() > 0 && hp.last().0 == PieceType::Pawn && {
            let pf = rec_from_row(hp.last());
            let pt = rec_to_row(hp.last());
            (pt - pf > 1 || pf - pt > 1) && (dr_ - pt == 1 || pt - dr_ == 1)
        } {
            gset(b, rec_to_row(hp.last()), rec_to_col(hp.last()), Some((PieceType::Pawn, turn)))
        } else {
            b
        }
    } else {
        b
    };
    // take the moved piece back, reverting a promotion to a pawn
    let b2 = if rec.0 == PieceType::Pawn && (dr_ == 0 || dr_ == 7) {
        gset(b1, or_, oc, Some((PieceType::Pawn, turn.other())))
    } else {
        gset(b1, or_, oc, at(b1, dr_, dc))
    };
    gset(b2, dr_, dc, tb_refill(hp, turn, dr_, dc))
}

// ---------------------------------------------------------------------------
// Draw conditions
// ---------------------------------------------------------------------------

/// The records denote the same ply: same kind, same code.
pub open spec fn rec_eq(a: HistRec, b: HistRec) -> bool {
    a.0 == b.0 && a.1@ == b.1@
}

/// The last nine plies repeat a four-ply cycle twice over.
pub open spec fn rep_cycle(h: Seq<HistRec>) -> bool {
    let n = h.len();
    &&& n >= 9
    &&& rec_eq(h[n - 1], h[n - 5])
    &&& rec_eq(h[n - 2], h[n - 6])
    &&& rec_eq(h[n - 5], h[n - 9])
    &&& rec_eq(h[n - 3], h[n - 7])
    &&& rec_eq(h[n - 4], h[n - 8])
}

// ---------------------------------------------------------------------------
// The FEN string
// ---------------------------------------------------------------------------

/// The decimal digits of a non-negative number.
pub open spec fn dec_digits(n: int) -> Seq<char>
    decreases n,
{
    if n < 10 {
        seq![digit_char(n)]
    } else {
        dec_digits(n / 10) + seq![digit_char(n % 10)]
    }
}

/// The FEN text of row `r` from column `c` on, with `run` empty cells
/// pending.
pub open spec fn fen_row(b: GameBoard, r: int, c: int, run: int) -> Seq<char>
    decreases 8 - c,
{
    if c < 0 || c >= 8 {
        if run > 0 {
            seq![digit_char(run)]
        } else {
            Seq::<char>::empty()
        }
    } else {
        match at(b, r, c) {
            Some(p) => (if run > 0 {
                seq![digit_char(run)]
            } else {
                Seq::<char>::empty()
            }) + seq![fen_char(p.0, p.1)] + fen_row(b, r, c + 1, 0),
            None => fen_row(b, r, c + 1, run + 1),
        }
    }
}

/// The FEN placement field: the rows joined by '/'.
pub open spec fn fen_rows(b: GameBoard, r: int) -> Seq<char>
    decreases 8 - r,
{
    if r < 0 || r >= 8 {
        Seq::<char>::empty()
    } else if r == 7 {
        fen_row(b, 7, 0, 0)
    } else {
        fen_row(b, r, 0, 0) + seq!['/'] + fen_rows(b, r + 1)
    }
}

/// The castling field, derived for black alone: the letters of the
/// remaining rights, or a dash when the king has moved, stands in check,
/// or no right remains.
pub open spec fn fen_castle(b: GameBoard, h: Seq<HistRec>) -> Seq<char> {
    if !moved_from(h, PieceType::King, 0, 4) && !is_check(b, PieceColor::Black) {
        let kingside = !moved_from(h, PieceType::Rook, 0, 7);
        let queenside = !moved_from(h, PieceType::Rook, 0, 0);
        seq![' '] + (if kingside {
            seq!['k']
        } else {
            Seq::<char>::empty()
        }) + (if queenside {
            seq!['q']
        } else {
            Seq::<char>::empty()
        }) + (if !kingside && !queenside {
            seq!['-']
        } else {
            Seq::<char>::empty()
        })
    } else {
        seq![' ', '-']
    }
}

/// The en passant field: present exactly when the previous ply was a
/// pawn double step, and then naming the square the pawn passed over,
/// the row midway between the step's origin and landing rows.
pub open spec fn fen_ep(h: Seq<HistRec>) -> Seq<char> {
    if last_was_pawn_two(h) {
        seq![
            ' ',
            col_char(rec_from_col(h.last())),
            digit_char(8 - (rec_from_row(h.last()) + rec_to_row(h.last())) / 2),
        ]
    } else {
        seq![' ', '-']
    }
}

/// The whole FEN string of a position: placement, the fixed side letter,
/// castling, en passant, the quiet-ply counter and the move number.
pub open spec fn fen_spec(b: GameBoard, h: Seq<HistRec>, counter: int) -> Seq<char> {
    fen_rows(b, 0) + seq![' ', 'b'] + fen_castle(b, h) + fen_ep(h) + seq![' '] + dec_digits(counter)
        + seq![' '] + dec_digits(h.len() as int / 2)
}

} // verus!

verus! {

/// The parity of the plies a side plays: white plays the even plies.
pub open spec fn turn_index(color: PieceColor) -> int {
    if color == PieceColor::White {
        0
    } else {
        1
    }
}

/// The last recorded ply put a pawn on its final rank.
pub open spec fn promo_pending(b: GameBoard, h: Seq<HistRec>) -> bool {
    &&& h.len() > 0
    &&& {
        let tr = rec_to_row(h.last());
        let tc = rec_to_col(h.last());
        match at(b, tr, tc) {
            Some(p) => p.0 == PieceType::Pawn && tr == (if p.1 == PieceColor::White {
                0int
            } else {
                7int
            }),
            None => false,
        }
    }
}

} // verus!

verus! {

/// The piece kind the promotion cursor points at.
pub open spec fn promo_kind(cursor: int) -> PieceType {
    if cursor == 0 {
        PieceType::Queen
    } else if cursor == 1 {
        PieceType::Rook
    } else if cursor == 2 {
        PieceType::Bishop
    } else {
        PieceType::Knight
    }
}

} // verus!

verus! {

/// Row-major order on coordinates.
pub open spec fn rm_le(a: Coords, b: Coords) -> bool {
    a.row < b.row || (a.row == b.row && a.col <= b.col)
}

/// The list is sorted row-major.
pub open spec fn sorted_rm(v: Seq<Coords>) -> bool {
    forall|i: int, j: int| 0 <= i < j < v.len() ==> rm_le(#[trigger] v[i], #[trigger] v[j])
}

/// Membership after a swap-removal: the removed element may go, the rest
/// stay.
pub proof fn lemma_contains_rc_swap_remove(v: Seq<Coords>, m: int, r: int, c: int)
    requires
        0 <= m < v.len(),
    ensures
        contains_rc(v, r, c) <==> (contains_rc(v.update(m, v.last()).drop_last(), r, c) || (v[m].row
            == r && v[m].col == c)),
{
    let w = v.update(m, v.last()).drop_last();
    if contains_rc(w, r, c) {
        let i = choose|i: int| 0 <= i < w.len() && (#[trigger] w[i]).row == r && w[i].col == c;
        if i == m {
            assert(v[v.len() - 1].row == r && v[v.len() - 1].col == c);
        } else {
            assert(v[i].row == r && v[i].col == c);
        }
    }
    if contains_rc(v, r, c) && !(v[m].row == r && v[m].col == c) {
        let i = choose|i: int| 0 <= i < v.len() && (#[trigger] v[i]).row == r && v[i].col == c;
        if i == v.len() - 1 {
            assert(w[m].row == r && w[m].col == c);
        } else {
            assert(w[i].row == r && w[i].col == c);
        }
    }
}

} // verus!

verus! {

/// The grid after the pending promotion is resolved: the piece on the
/// last move's destination is replaced by the chosen kind, keeping its
/// colour.
pub open spec fn promote_grid(b: GameBoard, h: Seq<HistRec>, cursor: int) -> GameBoard {
    if h.len() > 0 && color_at(b, rec_to_row(h.last()), rec_to_col(h.last())) is Some {
        gset(
            b,
            rec_to_row(h.last()),
            rec_to_col(h.last()),
            Some((promo_kind(cursor), color_at(b, rec_to_row(h.last()), rec_to_col(h.last())).unwrap())),
        )
    } else {
        b
    }
}

} // verus!

verus! {

/// An all-empty grid.
pub open spec fn blank_grid() -> GameBoard {
    vstd::array::spec_array_fill_for_copy_type(vstd::array::spec_array_fill_for_copy_type(None))
}

/// How many times `ch` occurs in `s`.
pub open spec fn count_char(s: Seq<char>, ch: char) -> int
    decreases s.len(),
{
    if s.len() == 0 {
        0
    } else {
        count_char(s.drop_last(), ch) + if s.last() == ch {
            1int
        } else {
            0
        }
    }
}

/// The index of the first space at or after `i`, or the length.
pub open spec fn first_space_from(s: Seq<char>, i: int) -> int
    decreases s.len() - i,
{
    if i < 0 || i >= s.len() {
        s.len() as int
    } else if s[i] == ' ' {
        i
    } else {
        first_space_from(s, i + 1)
    }
}

/// Interprets the FEN placement field from index `i` at row `r`, column
/// `c`: letters place pieces, digits skip cells, '/' opens the next row;
/// the field ends at a space or at the end of the text. An overfull row
/// or an unknown character yields nothing.
pub open spec fn fen_place(s: Seq<char>, i: int, r: int, c: int, b: GameBoard) -> Option<GameBoard>
    decreases s.len() - i,
{
    if i < 0 || i >= s.len() || s[i] == ' ' {
        Some(b)
    } else if s[i] == '/' {
        if r >= 7 {
            None
        } else {
            fen_place(s, i + 1, r + 1, 0, b)
        }
    } else if char_piece(s[i]) is Some {
        if c > 7 {
            None
        } else {
            fen_place(s, i + 1, r, c + 1, gset(b, r, c, char_piece(s[i])))
        }
    } else if char_digit(s[i]) >= 0 {
        if c + char_digit(s[i]) > 8 {
            None
        } else {
            fen_place(s, i + 1, r, c + char_digit(s[i]), b)
        }
    } else {
        None
    }
}

} // verus!

verus! {

/// No two entries of the list name the same square. Coordinates carry
/// nothing but their row and column, so this is freedom from duplicates.
pub open spec fn no_dup_rc(v: Seq<Coords>) -> bool {
    forall|i: int, j: int|
        0 <= i < j < v.len() ==> !((#[trigger] v[i]).row == (#[trigger] v[j]).row && v[i].col
            == v[j].col)
}

/// Pushing a square that is not yet listed keeps the list duplicate-free.
pub proof fn lemma_no_dup_rc_push(v: Seq<Coords>, x: Coords)
    requires
        no_dup_rc(v),
        !contains_rc(v, x.row as int, x.col as int),
    ensures
        no_dup_rc(v.push(x)),
{
    let w = v.push(x);
    assert forall|i: int, j: int| 0 <= i < j < w.len() implies !((#[trigger] w[i]).row
        == (#[trigger] w[j]).row && w[i].col == w[j].col) by {
        if j == w.len() - 1 {
            if v[i].row == x.row as int && v[i].col == x.col as int {
                assert(contains_rc(v, x.row as int, x.col as int));
            }
        }
    }
}

/// Joining two duplicate-free lists over disjoint square sets keeps the
/// result duplicate-free.
pub proof fn lemma_no_dup_rc_add_disjoint(a: Seq<Coords>, b: Seq<Coords>)
    requires
        no_dup_rc(a),
        no_dup_rc(b),
        forall|r: int, c: int| !(#[trigger] contains_rc(a, r, c) && #[trigger] contains_rc(b, r, c)),
    ensures
        no_dup_rc(a + b),
{
    let w = a + b;
    assert forall|i: int, j: int| 0 <= i < j < w.len() implies !((#[trigger] w[i]).row
        == (#[trigger] w[j]).row && w[i].col == w[j].col) by {
        if i < a.len() && j >= a.len() {
            if w[i].row == w[j].row && w[i].col == w[j].col {
                assert(a[i].row == w[i].row && a[i].col == w[i].col);
                assert(b[j - a.len()].row == w[j].row && b[j - a.len()].col == w[j].col);
                assert(contains_rc(a, w[i].row as int, w[i].col as int));
                assert(contains_rc(b, w[i].row as int, w[i].col as int));
            }
        } else if j < a.len() {
            assert(w[i] == a[i] && w[j] == a[j]);
        } else {
            assert(w[i] == b[i - a.len()] && w[j] == b[j - a.len()]);
        }
    }
}

/// Which side of the origin a square reached along a ray lies on.
pub proof fn lemma_ray_side(
    b: GameBoard,
    color: PieceColor,
    fr: int,
    fc: int,
    dr: int,
    dc: int,
    tr: int,
    tc: int,
    allow: bool,
)
    requires
        ray_reaches(b, color, fr, fc, dr, dc, tr, tc, allow),
    ensures
        dr == 1 ==> tr > fr,
        dr == -1 ==> tr < fr,
        dr == 0 ==> tr == fr,
        dc == 1 ==> tc > fc,
        dc == -1 ==> tc < fc,
        dc == 0 ==> tc == fc,
{
    let k = choose|k: int|
        #[trigger] ray_hit(b, color, fr, fc, dr, dc, k, allow) && tr == off(fr, dr, k) && tc == off(
            fc,
            dc,
            k,
        );
}

/// A list whose entry `i` is the square `i + 1` steps along a ray is
/// duplicate-free.
pub proof fn lemma_stepped_no_dup(v: Seq<Coords>, fr: int, fc: int, dr: int, dc: int)
    requires
        -1 <= dr <= 1,
        -1 <= dc <= 1,
        dr != 0 || dc != 0,
        forall|i: int|
            0 <= i < v.len() ==> (#[trigger] v[i]).row == off(fr, dr, i + 1) && v[i].col == off(
                fc,
                dc,
                i + 1,
            ),
    ensures
        no_dup_rc(v),
{
    assert forall|i: int, j: int| 0 <= i < j < v.len() implies !((#[trigger] v[i]).row
        == (#[trigger] v[j]).row && v[i].col == v[j].col) by {
        if dr != 0 {
            assert(off(fr, dr, i + 1) != off(fr, dr, j + 1));
        } else {
            assert(off(fc, dc, i + 1) != off(fc, dc, j + 1));
        }
    }
}

} // verus!

verus! {

/// How many on-grid squares from flat index `t` on satisfy `p`.
pub open spec fn count_sq(p: spec_fn(int, int) -> bool, t: int) -> int
    decreases 64 - t,
{
    if t < 0 || t >= 64 {
        0
    } else {
        (if p(t / 8, t % 8) {
            1int
        } else {
            0int
        }) + count_sq(p, t + 1)
    }
}

/// The number of authorized destinations of the piece of `kind` and
/// `color` standing on (`fr`, `fc`).
pub open spec fn auth_count(
    b: GameBoard,
    h: Seq<HistRec>,
    kind: PieceType,
    color: PieceColor,
    fr: int,
    fc: int,
) -> int {
    count_sq(|tr: int, tc: int| authorized(b, h, kind, color, fr, fc, tr, tc), 0)
}

/// The total number of authorized destinations of `color`, summed over
/// the squares from flat index `s` on.
pub open spec fn side_move_count(b: GameBoard, h: Seq<HistRec>, color: PieceColor, s: int) -> int
    decreases 64 - s,
{
    if s < 0 || s >= 64 {
        0
    } else {
        (if ally_at(b, color, s / 8, s % 8) {
            auth_count(b, h, kind_at(b, s / 8, s % 8).unwrap(), color, s / 8, s % 8)
        } else {
            0int
        }) + side_move_count(b, h, color, s + 1)
    }
}

proof fn lemma_count_sq_zero(p: spec_fn(int, int) -> bool, t: int)
    requires
        0 <= t <= 64,
        forall|r: int, c: int| in_bounds(r, c) ==> !p(r, c),
    ensures
        count_sq(p, t) == 0,
    decreases 64 - t,
{
    if t < 64 {
        assert(in_bounds(t / 8, t % 8)) by (nonlinear_arith)
            requires
                0 <= t < 64,
        ;
        lemma_count_sq_zero(p, t + 1);
    }
}

proof fn lemma_count_sq_remove(
    p: spec_fn(int, int) -> bool,
    q: spec_fn(int, int) -> bool,
    xr: int,
    xc: int,
    t: int,
)
    requires
        in_bounds(xr, xc),
        p(xr, xc),
        forall|r: int, c: int| #[trigger] q(r, c) == (p(r, c) && !(r == xr && c == xc)),
        0 <= t <= 64,
    ensures
        count_sq(p, t) == count_sq(q, t) + if xr * 8 + xc >= t {
            1int
        } else {
            0int
        },
    decreases 64 - t,
{
    assert(0 <= xr * 8 + xc < 64) by (nonlinear_arith)
        requires
            0 <= xr < 8 && 0 <= xc < 8,
    ;
    if t < 64 {
        let r = t / 8;
        let c = t % 8;
        assert(t == r * 8 + c);
        assert((r == xr && c == xc) <==> t == xr * 8 + xc) by (nonlinear_arith)
            requires
                t == r * 8 + c && 0 <= c < 8 && 0 <= xc < 8,
        ;
        assert(q(r, c) == (p(r, c) && !(r == xr && c == xc)));
        lemma_count_sq_remove(p, q, xr, xc, t + 1);
    }
}

/// A duplicate-free list of valid squares whose membership realises `p`
/// on the grid has exactly as many entries as `p` has on-grid points.
pub proof fn lemma_len_is_count(v: Seq<Coords>, p: spec_fn(int, int) -> bool)
    requires
        no_dup_rc(v),
        all_valid(v),
        forall|r: int, c: int| in_bounds(r, c) ==> (contains_rc(v, r, c) <==> p(r, c)),
    ensures
        v.len() == count_sq(p, 0),
    decreases v.len(),
{
    if v.len() == 0 {
        assert forall|r: int, c: int| in_bounds(r, c) implies !p(r, c) by {
            assert(!contains_rc(v, r, c));
        }
        lemma_count_sq_zero(p, 0);
    } else {
        let x = v.last();
        let v2 = v.drop_last();
        let xr = x.row as int;
        let xc = x.col as int;
        let q = |r: int, c: int| p(r, c) && !(r == xr && c == xc);
        assert(no_dup_rc(v2)) by {
            assert forall|i: int, j: int| 0 <= i < j < v2.len() implies !((#[trigger] v2[i]).row
                == (#[trigger] v2[j]).row && v2[i].col == v2[j].col) by {
                assert(v2[i] == v[i] && v2[j] == v[j]);
            }
        }
        assert(all_valid(v2)) by {
            assert forall|i: int| 0 <= i < v2.len() implies (#[trigger] v2[i]).valid() by {
                assert(v2[i] == v[i]);
            }
        }
        assert(contains_rc(v, xr, xc)) by {
            assert(v[v.len() - 1].row == xr && v[v.len() - 1].col == xc);
        }
        assert(v[v.len() - 1].valid());
        assert(in_bounds(xr, xc));
        assert(p(xr, xc));
        assert forall|r: int, c: int| in_bounds(r, c) implies (contains_rc(v2, r, c) <==> q(
            r,
            c,
        )) by {
            if contains_rc(v2, r, c) {
                let i = choose|i: int|
                    0 <= i < v2.len() && (#[trigger] v2[i]).row == r && v2[i].col == c;
                assert(v[i].row == r && v[i].col == c);
                assert(contains_rc(v, r, c));
                assert(!(r == xr && c == xc));
            }
            if q(r, c) {
                let i = choose|i: int|
                    0 <= i < v.len() && (#[trigger] v[i]).row == r && v[i].col == c;
                assert(i < v.len() - 1);
                assert(v2[i].row == r && v2[i].col == c);
            }
        }
        lemma_len_is_count(v2, q);
        lemma_count_sq_remove(p, q, xr, xc, 0);
    }
}

} // verus!
