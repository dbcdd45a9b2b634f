//! Pieces on the board: a colour and a kind, or the empty square.

use crate::types::PieceKind;
use std::cmp::Ordering;
use vstd::prelude::*;
use vstd::std_specs::cmp::PartialEqSpecImpl;
use vstd::std_specs::cmp::PartialOrdSpecImpl;

verus! {

/// The two sides.
#[derive(Copy, Clone, Debug, PartialEq, Eq, Structural)]
pub enum ChessColor {
    White,
    Black,
}

impl ChessColor {
    /// The other side.
    pub open spec fn spec_opposite(self) -> ChessColor {
        match self {
            ChessColor::White => ChessColor::Black,
            ChessColor::Black => ChessColor::White,
        }
    }

    /// The other side.
    pub fn opposite(&self) -> (c: ChessColor)
        ensures
            c == self.spec_opposite(),
    {
        match *self {
            ChessColor::White => ChessColor::Black,
            ChessColor::Black => ChessColor::White,
        }
    }
}

/// What a square holds: nothing, or a piece of one colour and one kind.
///
/// Equality and ordering between pieces go by material value alone: a white
/// rook and a black rook compare equal, and so do a bishop and a knight.
/// `same_piece` is the comparison that tells colour and kind apart.
#[derive(Copy, Clone, Debug, Eq)]
pub enum Piece {
    Empty,
    WhiteKing,
    WhiteQueen,
    WhiteRook,
    WhiteBishop,
    WhiteKnight,
    WhitePawn,
    BlackKing,
    BlackQueen,
    BlackRook,
    BlackBishop,
    BlackKnight,
    BlackPawn,
}

impl Piece {
    /// The colour of the piece; none for the empty square.
    pub open spec fn spec_color(self) -> Option<ChessColor> {
        match self {
            Piece::Empty => None,
            Piece::WhiteKing => Some(ChessColor::White),
            Piece::WhiteQueen => Some(ChessColor::White),
            Piece::WhiteRook => Some(ChessColor::White),
            Piece::WhiteBishop => Some(ChessColor::White),
            Piece::WhiteKnight => Some(ChessColor::White),
            Piece::WhitePawn => Some(ChessColor::White),
            Piece::BlackKing => Some(ChessColor::Black),
            Piece::BlackQueen => Some(ChessColor::Black),
            Piece::BlackRook => Some(ChessColor::Black),
            Piece::BlackBishop => Some(ChessColor::Black),
            Piece::BlackKnight => Some(ChessColor::Black),
            Piece::BlackPawn => Some(ChessColor::Black),
        }
    }

    /// The kind of the piece; none for the empty square.
    pub open spec fn spec_kind(self) -> Option<PieceKind> {
        match self {
            Piece::Empty => None,
            Piece::WhiteKing => Some(PieceKind::King),
            Piece::WhiteQueen => Some(PieceKind::Queen),
            Piece::WhiteRook => Some(PieceKind::Rook),
            Piece::WhiteBishop => Some(PieceKind::Bishop),
            Piece::WhiteKnight => Some(PieceKind::Knight),
            Piece::WhitePawn => Some(PieceKind::Pawn),
            Piece::BlackKing => Some(PieceKind::King),
            Piece::BlackQueen => Some(PieceKind::Queen),
            Piece::BlackRook => Some(PieceKind::Rook),
            Piece::BlackBishop => Some(PieceKind::Bishop),
            Piece::BlackKnight => Some(PieceKind::Knight),
            Piece::BlackPawn => Some(PieceKind::Pawn),
        }
    }

    /// The piece of the given colour and kind.
    pub open spec fn spec_of(color: ChessColor, kind: PieceKind) -> Piece {
        match color {
            ChessColor::White => match kind {
                PieceKind::King => Piece::WhiteKing,
                PieceKind::Queen => Piece::WhiteQueen,
                PieceKind::Rook => Piece::WhiteRook,
                PieceKind::Bishop => Piece::WhiteBishop,
                PieceKind::Knight => Piece::WhiteKnight,
                PieceKind::Pawn => Piece::WhitePawn,
            },
            ChessColor::Black => match kind {
                PieceKind::King => Piece::BlackKing,
                PieceKind::Queen => Piece::BlackQueen,
                PieceKind::Rook => Piece::BlackRook,
                PieceKind::Bishop => Piece::BlackBishop,
                PieceKind::Knight => Piece::BlackKnight,
                PieceKind::Pawn => Piece::BlackPawn,
            },
        }
    }

    /// Material value; the empty square and the king count 0.
    pub open spec fn spec_points(self) -> u8 {
        match self.spec_kind() {
            None => 0,
            Some(k) => k.spec_points(),
        }
    }

    /// The label of the piece: the colour's letter, a space, the kind's
    /// letter; empty for the empty square.
    pub open spec fn label(self) -> Seq<char> {
        match self {
            Piece::Empty => Seq::<char>::empty(),
            _ => seq![
                if self.spec_color() == Some(ChessColor::White) { 'W' } else { 'B' },
                ' ',
                self.spec_kind().unwrap().label()[0],
            ],
        }
    }

    /// Whether the square is empty.
    pub fn is_empty(&self) -> (r: bool)
        ensures
            r == (*self == Piece::Empty),
    {
        match *self {
            Piece::Empty => true,
            _ => false,
        }
    }

    /// The piece of the given colour and kind.
    pub fn of(color: ChessColor, kind: PieceKind) -> (p: Piece)
        ensures
            p == Piece::spec_of(color, kind),
            p.spec_color() == Some(color),
            p.spec_kind() == Some(kind),
    {
        match color {
            ChessColor::White => match kind {
                PieceKind::King => Piece::WhiteKing,
                PieceKind::Queen => Piece::WhiteQueen,
                PieceKind::Rook => Piece::WhiteRook,
                PieceKind::Bishop => Piece::WhiteBishop,
                PieceKind::Knight => Piece::WhiteKnight,
                PieceKind::Pawn => Piece::WhitePawn,
            },
            ChessColor::Black => match kind {
                PieceKind::King => Piece::BlackKing,
                PieceKind::Queen => Piece::BlackQueen,
                PieceKind::Rook => Piece::BlackRook,
                PieceKind::Bishop => Piece::BlackBishop,
                PieceKind::Knight => Piece::BlackKnight,
                PieceKind::Pawn => Piece::BlackPawn,
            },
        }
    }

    /// Whether both squares hold the same colour, or are both empty.
    pub fn matches_color(&self, other: &Self) -> (r: bool)
        ensures
            r == (self.spec_color() == other.spec_color()),
    {
        match (self.color(), other.color()) {
            (None, None) => true,
            (Some(ChessColor::White), Some(ChessColor::White)) => true,
            (Some(ChessColor::Black), Some(ChessColor::Black)) => true,
            _ => false,
        }
    }

    /// Whether the square holds a piece of the given colour.
    pub fn is_color(&self, color: ChessColor) -> (r: bool)
        ensures
            r == (self.spec_color() == Some(color)),
    {
        match (self.color(), color) {
            (Some(ChessColor::White), ChessColor::White) => true,
            (Some(ChessColor::Black), ChessColor::Black) => true,
            _ => false,
        }
    }

    /// The colour of the piece; none for the empty square.
    pub fn color(&self) -> (c: Option<ChessColor>)
        ensures
            c == self.spec_color(),
    {
        match *self {
            Piece::Empty => None,
            Piece::WhiteKing => Some(ChessColor::White),
            Piece::WhiteQueen => Some(ChessColor::White),
            Piece::WhiteRook => Some(ChessColor::White),
            Piece::WhiteBishop => Some(ChessColor::White),
            Piece::WhiteKnight => Some(ChessColor::White),
            Piece::WhitePawn => Some(ChessColor::White),
            Piece::BlackKing => Some(ChessColor::Black),
            Piece::BlackQueen => Some(ChessColor::Black),
            Piece::BlackRook => Some(ChessColor::Black),
            Piece::BlackBishop => Some(ChessColor::Black),
            Piece::BlackKnight => Some(ChessColor::Black),
            Piece::BlackPawn => Some(ChessColor::Black),
        }
    }

    /// The kind of the piece; none for the empty square.
    pub fn kind(&self) -> (k: Option<PieceKind>)
        ensures
            k == self.spec_kind(),
    {
        match *self {
            Piece::Empty => None,
            Piece::WhiteKing => Some(PieceKind::King),
            Piece::WhiteQueen => Some(PieceKind::Queen),
            Piece::WhiteRook => Some(PieceKind::Rook),
            Piece::WhiteBishop => Some(PieceKind::Bishop),
            Piece::WhiteKnight => Some(PieceKind::Knight),
            Piece::WhitePawn => Some(PieceKind::Pawn),
            Piece::BlackKing => Some(PieceKind::King),
            Piece::BlackQueen => Some(PieceKind::Queen),
            Piece::BlackRook => Some(PieceKind::Rook),
            Piece::BlackBishop => Some(PieceKind::Bishop),
            Piece::BlackKnight => Some(PieceKind::Knight),
            Piece::BlackPawn => Some(PieceKind::Pawn),
        }
    }

    /// The label as an owned string.
    pub fn display_string(&self) -> (s: String)
        ensures
            s@ == self.label(),
    {
        self.display().to_owned()
    }

    /// The label of the piece, such as `W K` for the white king; empty for
    /// the empty square.
    pub fn display(&self) -> (s: &str)
        ensures
            s@ == self.label(),
    {
        proof {
            reveal_strlit("");
            reveal_strlit("W K");
            reveal_strlit("W Q");
            reveal_strlit("W R");
            reveal_strlit("W B");
            reveal_strlit("W N");
            reveal_strlit("W P");
            reveal_strlit("B K");
            reveal_strlit("B Q");
            reveal_strlit("B R");
            reveal_strlit("B B");
            reveal_strlit("B N");
            reveal_strlit("B P");
        }
        let s = match *self {
            Piece::Empty => "",
            Piece::WhiteKing => "W K",
            Piece::WhiteQueen => "W Q",
            Piece::WhiteRook => "W R",
            Piece::WhiteBishop => "W B",
            Piece::WhiteKnight => "W N",
            Piece::WhitePawn => "W P",
            Piece::BlackKing => "B K",
            Piece::BlackQueen => "B Q",
            Piece::BlackRook => "B R",
            Piece::BlackBishop => "B B",
            Piece::BlackKnight => "B N",
            Piece::BlackPawn => "B P",
        };
        assert(s@ =~= self.label());
        s
    }

    /// Material value: queen 9, rook 5, bishop 3, knight 3, pawn 1, and 0
    /// for the king and for the empty square.
    pub fn points(&self) -> (p: u8)
        ensures
            p == self.spec_points(),
    {
        match self.kind() {
            None => 0,
            Some(k) => k.points(),
        }
    }

    /// Whether two squares hold the same colour and kind, or are both empty.
    pub fn same_piece(&self, other: &Piece) -> (r: bool)
        ensures
            r == (*self === *other),
    {
        match (self.kind(), other.kind()) {
            (None, None) => true,
            (Some(a), Some(b)) => a.same_kind(&b) && self.matches_color(other),
            _ => false,
        }
    }
}

impl PartialEq for Piece {
    fn eq(&self, other: &Self) -> (r: bool) {
        self.points() == other.points()
    }
}

impl PartialEqSpecImpl for Piece {
    open spec fn obeys_eq_spec() -> bool {
        true
    }

    open spec fn eq_spec(&self, other: &Self) -> bool {
        self.spec_points() == other.spec_points()
    }
}

impl PartialOrd for Piece {
    fn partial_cmp(&self, other: &Self) -> (r: Option<Ordering>) {
        let a: u8 = self.points();
        let b: u8 = other.points();
        if a < b {
            Some(Ordering::Less)
        } else if a == b {
            Some(Ordering::Equal)
        } else {
            Some(Ordering::Greater)
        }
    }
}

impl PartialOrdSpecImpl for Piece {
    open spec fn obeys_partial_cmp_spec() -> bool {
        true
    }

    open spec fn partial_cmp_spec(&self, other: &Self) -> Option<Ordering> {
        if self.spec_points() < other.spec_points() {
            Some(Ordering::Less)
        } else if self.spec_points() == other.spec_points() {
            Some(Ordering::Equal)
        } else {
            Some(Ordering::Greater)
        }
    }
}

} // verus!
