//! Piece kinds: the colourless identity of a chess piece and its material value.

use std::cmp::Ordering;
use vstd::prelude::*;
use vstd::std_specs::cmp::PartialEqSpecImpl;
use vstd::std_specs::cmp::PartialOrdSpecImpl;

verus! {

/// The kind of a chess piece, without its colour.
///
/// Equality and ordering between kinds go by material value alone, so a
/// bishop and a knight compare equal. Use `same_kind` to tell kinds apart.
#[derive(Copy, Clone, Debug, Eq)]
pub enum Piece {
    King,
    Queen,
    Rook,
    Bishop,
    Knight,
    Pawn,
}

/// The name under which the rest of the crate refers to a piece's kind.
pub type PieceKind = Piece;

impl Piece {
    /// Material value of the kind.
    pub open spec fn spec_points(self) -> u8 {
        match self {
            Piece::King => 0,
            Piece::Queen => 9,
            Piece::Rook => 5,
            Piece::Bishop => 3,
            Piece::Knight => 3,
            Piece::Pawn => 1,
        }
    }

    /// The one-letter label of the kind.
    pub open spec fn label(self) -> Seq<char> {
        match self {
            Piece::King => seq!['K'],
            Piece::Queen => seq!['Q'],
            Piece::Rook => seq!['R'],
            Piece::Bishop => seq!['B'],
            Piece::Knight => seq!['N'],
            Piece::Pawn => seq!['P'],
        }
    }

    /// The one-letter label used when a piece is shown or written down.
    pub fn display(&self) -> (s: &str)
        ensures
            s@ == self.label(),
    {
        proof {
            reveal_strlit("K");
            reveal_strlit("Q");
            reveal_strlit("R");
            reveal_strlit("B");
            reveal_strlit("N");
            reveal_strlit("P");
        }
        let s = match *self {
            Piece::King => "K",
            Piece::Queen => "Q",
            Piece::Rook => "R",
            Piece::Bishop => "B",
            Piece::Knight => "N",
            Piece::Pawn => "P",
        };
        assert(s@ =~= self.label());
        s
    }

    /// Material value: king 0, queen 9, rook 5, bishop 3, knight 3, pawn 1.
    pub fn points(&self) -> (p: u8)
        ensures
            p == self.spec_points(),
    {
        match *self {
            Piece::King => 0,
            Piece::Queen => 9,
            Piece::Rook => 5,
            Piece::Bishop => 3,
            Piece::Knight => 3,
            Piece::Pawn => 1,
        }
    }

    /// Whether two kinds are the same kind, which `==` does not decide.
    pub fn same_kind(&self, other: &Piece) -> (r: bool)
        ensures
            r == (*self === *other),
    {
        match (*self, *other) {
            (Piece::King, Piece::King) => true,
            (Piece::Queen, Piece::Queen) => true,
            (Piece::Rook, Piece::Rook) => true,
            (Piece::Bishop, Piece::Bishop) => true,
            (Piece::Knight, Piece::Knight) => true,
            (Piece::Pawn, Piece::Pawn) => true,
            _ => false,
        }
    }
}

impl PartialEq for Piece {
    fn eq(&self, other: &Self) -> (r: bool) {
        self.points() == other.points()
    }
}

impl PartialEqSpecImpl for Piece {
    open spec fn obeys_eq_spec() -> bool {
        true
    }

    open spec fn eq_spec(&self, other: &Self) -> bool {
        self.spec_points() == other.spec_points()
    }
}

impl PartialOrd for Piece {
    fn partial_cmp(&self, other: &Self) -> (r: Option<Ordering>) {
        let a: u8 = self.points();
        let b: u8 = other.points();
        if a < b {
            Some(Ordering::Less)
        } else if a == b {
            Some(Ordering::Equal)
        } else {
            Some(Ordering::Greater)
        }
    }
}

impl PartialOrdSpecImpl for Piece {
    open spec fn obeys_partial_cmp_spec() -> bool {
        true
    }

    open spec fn partial_cmp_spec(&self, other: &Self) -> Option<Ordering> {
        if self.spec_points() < other.spec_points() {
            Some(Ordering::Less)
        } else if self.spec_points() == other.spec_points() {
            Some(Ordering::Equal)
        } else {
            Some(Ordering::Greater)
        }
    }
}

} // verus!
