use vstd::prelude::*;

verus! {

/// The colour of a piece, also used for whose turn it is.
#[derive(Clone, Copy, Debug, PartialEq, Eq, Structural)]
pub enum PieceColor {
    White,
    Black,
}

/// The six chess piece kinds.
#[derive(Clone, Copy, Debug, PartialEq, Eq, Structural)]
pub enum PieceType {
    Pawn,
    Knight,
    Bishop,
    Rook,
    Queen,
    King,
}

impl PieceColor {
    /// The other side.
    pub fn opposite(&self) -> (r: PieceColor)
        ensures
            r == self.other(),
    {
        match self {
            PieceColor::White => PieceColor::Black,
            PieceColor::Black => PieceColor::White,
        }
    }

    /// Spec-level mirror of `opposite`.
    pub open spec fn other(self) -> PieceColor {
        match self {
            PieceColor::White => PieceColor::Black,
            PieceColor::Black => PieceColor::White,
        }
    }
}

} // verus!

pub mod bishop;
pub mod king;
pub mod knight;
pub mod pawn;
pub mod queen;
pub mod rook;

use crate::board::{Coords, GameBoard, HistRec};
use crate::rules::{
    all_valid, authorized, char_piece, contains_rc, fen_char, hist_ok, no_dup_rc, piece_can,
};

verus! {

impl PieceType {
    /// The legal destinations of the piece of this kind and `color` on
    /// `coordinates`: raw moves that leave its own king safe, plus the
    /// castling candidates for the king.
    pub fn authorized_positions(
        self,
        coordinates: &Coords,
        color: PieceColor,
        board: GameBoard,
        move_history: &Vec<HistRec>,
        is_king_checked: bool,
    ) -> (out: Vec<Coords>)
        requires
            coordinates.valid(),
            hist_ok(move_history@),
        ensures
            forall|tr: int, tc: int|
                #[trigger] contains_rc(out@, tr, tc) <==> authorized(
                    board,
                    move_history@,
                    self,
                    color,
                    coordinates.row as int,
                    coordinates.col as int,
                    tr,
                    tc,
                ),
            all_valid(out@),
            out@.len() <= 66,
            no_dup_rc(out@),
    {
        match self {
            PieceType::Pawn => crate::pieces::pawn::Pawn::authorized_positions(
                coordinates,
                color,
                board,
                move_history,
                is_king_checked,
            ),
            PieceType::Knight => crate::pieces::knight::Knight::authorized_positions(
                coordinates,
                color,
                board,
                move_history,
                is_king_checked,
            ),
            PieceType::Bishop => crate::pieces::bishop::Bishop::authorized_positions(
                coordinates,
                color,
                board,
                move_history,
                is_king_checked,
            ),
            PieceType::Rook => crate::pieces::rook::Rook::authorized_positions(
                coordinates,
                color,
                board,
                move_history,
                is_king_checked,
            ),
            PieceType::Queen => crate::pieces::queen::Queen::authorized_positions(
                coordinates,
                color,
                board,
                move_history,
                is_king_checked,
            ),
            PieceType::King => crate::pieces::king::King::authorized_positions(
                coordinates,
                color,
                board,
                move_history,
                is_king_checked,
            ),
        }
    }

    /// The squares the piece of this kind and `color` on `coordinates`
    /// threatens or defends.
    pub fn protected_positions(
        self,
        coordinates: &Coords,
        color: PieceColor,
        board: GameBoard,
        move_history: &Vec<HistRec>,
    ) -> (out: Vec<Coords>)
        requires
            coordinates.valid(),
        ensures
            forall|tr: int, tc: int|
                #[trigger] contains_rc(out@, tr, tc) <==> piece_can(
                    board,
                    Seq::<HistRec>::empty(),
                    self,
                    color,
                    coordinates.row as int,
                    coordinates.col as int,
                    tr,
                    tc,
                    true,
                ),
            all_valid(out@),
            no_dup_rc(out@),
    {
        match self {
            PieceType::Pawn => crate::pieces::pawn::Pawn::protected_positions(
                coordinates,
                color,
                board,
                move_history,
            ),
            PieceType::Knight => crate::pieces::knight::Knight::protected_positions(
                coordinates,
                color,
                board,
                move_history,
            ),
            PieceType::Bishop => crate::pieces::bishop::Bishop::protected_positions(
                coordinates,
                color,
                board,
                move_history,
            ),
            PieceType::Rook => crate::pieces::rook::Rook::protected_positions(
                coordinates,
                color,
                board,
                move_history,
            ),
            PieceType::Queen => crate::pieces::queen::Queen::protected_positions(
                coordinates,
                color,
                board,
                move_history,
            ),
            PieceType::King => crate::pieces::king::King::protected_positions(
                coordinates,
                color,
                board,
                move_history,
            ),
        }
    }

    /// The piece a FEN letter denotes: upper case white, lower case black.
    pub fn from_char(ch: char) -> (r: Option<(PieceType, PieceColor)>)
        ensures
            r == char_piece(ch),
    {
        if ch == 'P' {
            Some((PieceType::Pawn, PieceColor::White))
        } else if ch == 'N' {
            Some((PieceType::Knight, PieceColor::White))
        } else if ch == 'B' {
            Some((PieceType::Bishop, PieceColor::White))
        } else if ch == 'R' {
            Some((PieceType::Rook, PieceColor::White))
        } else if ch == 'Q' {
            Some((PieceType::Queen, PieceColor::White))
        } else if ch == 'K' {
            Some((PieceType::King, PieceColor::White))
        } else if ch == 'p' {
            Some((PieceType::Pawn, PieceColor::Black))
        } else if ch == 'n' {
            Some((PieceType::Knight, PieceColor::Black))
        } else if ch == 'b' {
            Some((PieceType::Bishop, PieceColor::Black))
        } else if ch == 'r' {
            Some((PieceType::Rook, PieceColor::Black))
        } else if ch == 'q' {
            Some((PieceType::Queen, PieceColor::Black))
        } else if ch == 'k' {
            Some((PieceType::King, PieceColor::Black))
        } else {
            None
        }
    }

    /// The FEN letter of a cell, the empty string for an empty cell.
    pub fn piece_to_fen_enum(
        piece_type: Option<PieceType>,
        piece_color: Option<PieceColor>,
    ) -> (r: &'static str)
        ensures
            match (piece_type, piece_color) {
                (Some(k), Some(c)) => r@ == seq![fen_char(k, c)],
                _ => r@ == Seq::<char>::empty(),
            },
    {
        proof {
            reveal_strlit("P");
            reveal_strlit("N");
            reveal_strlit("B");
            reveal_strlit("R");
            reveal_strlit("Q");
            reveal_strlit("K");
            reveal_strlit("p");
            reveal_strlit("n");
            reveal_strlit("b");
            reveal_strlit("r");
            reveal_strlit("q");
            reveal_strlit("k");
            reveal_strlit("");
        }
        let r = match (piece_type, piece_color) {
            (Some(PieceType::Pawn), Some(PieceColor::White)) => "P",
            (Some(PieceType::Knight), Some(PieceColor::White)) => "N",
            (Some(PieceType::Bishop), Some(PieceColor::White)) => "B",
            (Some(PieceType::Rook), Some(PieceColor::White)) => "R",
            (Some(PieceType::Queen), Some(PieceColor::White)) => "Q",
            (Some(PieceType::King), Some(PieceColor::White)) => "K",
            (Some(PieceType::Pawn), Some(PieceColor::Black)) => "p",
            (Some(PieceType::Knight), Some(PieceColor::Black)) => "n",
            (Some(PieceType::Bishop), Some(PieceColor::Black)) => "b",
            (Some(PieceType::Rook), Some(PieceColor::Black)) => "r",
            (Some(PieceType::Queen), Some(PieceColor::Black)) => "q",
            (Some(PieceType::King), Some(PieceColor::Black)) => "k",
            _ => "",
        };
        proof {
            match (piece_type, piece_color) {
                (Some(k), Some(c)) => {
                    assert(r@ =~= seq![fen_char(k, c)]);
                },
                _ => {
                    assert(r@ =~= Seq::<char>::empty());
                },
            }
        }
        r
    }

    /// The chess symbol of a piece, a space for an empty cell.
    pub fn piece_to_utf_enum(
        piece_type: PieceType,
        piece_color: Option<PieceColor>,
    ) -> &'static str {
        match (piece_type, piece_color) {
            (PieceType::Pawn, Some(PieceColor::White)) => "\u{265f}",
            (PieceType::Knight, Some(PieceColor::White)) => "\u{265e}",
            (PieceType::Bishop, Some(PieceColor::White)) => "\u{265d}",
            (PieceType::Rook, Some(PieceColor::White)) => "\u{265c}",
            (PieceType::Queen, Some(PieceColor::White)) => "\u{265b}",
            (PieceType::King, Some(PieceColor::White)) => "\u{265a}",
            (PieceType::Pawn, Some(PieceColor::Black)) => "\u{2659}",
            (PieceType::Knight, Some(PieceColor::Black)) => "\u{2658}",
            (PieceType::Bishop, Some(PieceColor::Black)) => "\u{2657}",
            (PieceType::Rook, Some(PieceColor::Black)) => "\u{2656}",
            (PieceType::Queen, Some(PieceColor::Black)) => "\u{2655}",
            (PieceType::King, Some(PieceColor::Black)) => "\u{2654}",
            _ => " ",
        }
    }

    /// The text-art glyph of a cell, an empty string for an empty cell.
    pub fn piece_type_to_string_enum(piece_type: Option<PieceType>) -> &'static str {
        match piece_type {
            Some(PieceType::Pawn) => crate::pieces::pawn::Pawn::to_string(),
            Some(PieceType::Knight) => crate::pieces::knight::Knight::to_string(),
            Some(PieceType::Bishop) => crate::pieces::bishop::Bishop::to_string(),
            Some(PieceType::Rook) => crate::pieces::rook::Rook::to_string(),
            Some(PieceType::Queen) => crate::pieces::queen::Queen::to_string(),
            Some(PieceType::King) => crate::pieces::king::King::to_string(),
            None => "",
        }
    }
}

} // verus!
