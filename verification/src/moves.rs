//! Moves and the rights that special moves depend on.

use crate::piece::ChessColor;
use crate::square::Square;
use crate::types::PieceKind;
use vstd::prelude::*;
use vstd::std_specs::cmp::PartialEqSpecImpl;

verus! {

/// The wing towards which a king castles.
#[derive(Copy, Clone, Debug, PartialEq, Eq, Structural)]
pub enum CastleSide {
    KingSide,
    QueenSide,
}

/// What a move does besides taking a piece from one square to another.
///
/// Two kinds are equal when they are the same variant with the same side or
/// the same promotion kind; promotion kinds are told apart as kinds, not by
/// their material value.
#[derive(Copy, Clone, Debug, Eq)]
pub enum MoveKind {
    /// A move to an empty square.
    Normal,
    /// A move that takes the piece on the destination.
    Capture,
    /// A pawn's advance of two squares from its starting rank.
    DoublePawnPush,
    /// A pawn's capture of a pawn that has just advanced two squares; the
    /// captured pawn stands beside the capturing one, not on the destination.
    EnPassantCapture,
    /// The king's move of two squares towards a rook, which crosses over it.
    Castle(CastleSide),
    /// A pawn's move to the farthest rank, where it becomes the given kind.
    Promotion(PieceKind),
}

/// A move: origin, destination and kind.
#[derive(Copy, Clone, Debug, Eq)]
pub struct Move {
    pub from: Square,
    pub to: Square,
    pub kind: MoveKind,
}

/// The four castling rights.
#[derive(Copy, Clone, Debug, PartialEq, Eq, Structural)]
pub struct CastlingRights {
    pub white_king_side: bool,
    pub white_queen_side: bool,
    pub black_king_side: bool,
    pub black_queen_side: bool,
}

impl MoveKind {
    /// Whether two kinds are the same.
    pub fn same_kind(&self, other: &MoveKind) -> (r: bool)
        ensures
            r == (*self == *other),
    {
        match (*self, *other) {
            (MoveKind::Normal, MoveKind::Normal) => true,
            (MoveKind::Capture, MoveKind::Capture) => true,
            (MoveKind::DoublePawnPush, MoveKind::DoublePawnPush) => true,
            (MoveKind::EnPassantCapture, MoveKind::EnPassantCapture) => true,
            (MoveKind::Castle(a), MoveKind::Castle(b)) => a == b,
            (MoveKind::Promotion(a), MoveKind::Promotion(b)) => a.same_kind(&b),
            _ => false,
        }
    }
}

impl PartialEq for MoveKind {
    fn eq(&self, other: &Self) -> (r: bool) {
        self.same_kind(other)
    }
}

impl PartialEqSpecImpl for MoveKind {
    open spec fn obeys_eq_spec() -> bool {
        true
    }

    open spec fn eq_spec(&self, other: &Self) -> bool {
        *self == *other
    }
}

impl Move {
    /// Whether both squares of the move lie on the board.
    pub open spec fn valid(self) -> bool {
        self.from.valid() && self.to.valid()
    }

    /// Whether both squares of the move lie on the board.
    pub fn is_valid(&self) -> (ok: bool)
        ensures
            ok == self.valid(),
    {
        self.from.is_valid() && self.to.is_valid()
    }

    /// Whether two moves have the same origin, destination and kind.
    pub fn same_move(&self, other: &Move) -> (r: bool)
        ensures
            r == (*self == *other),
    {
        self.from == other.from && self.to == other.to && self.kind.same_kind(&other.kind)
    }
}

impl PartialEq for Move {
    fn eq(&self, other: &Self) -> (r: bool) {
        self.same_move(other)
    }
}

impl PartialEqSpecImpl for Move {
    open spec fn obeys_eq_spec() -> bool {
        true
    }

    open spec fn eq_spec(&self, other: &Self) -> bool {
        *self == *other
    }
}

impl CastlingRights {
    /// Whether the given side may still castle towards the given wing.
    pub open spec fn spec_allows(self, color: ChessColor, side: CastleSide) -> bool {
        match (color, side) {
            (ChessColor::White, CastleSide::KingSide) => self.white_king_side,
            (ChessColor::White, CastleSide::QueenSide) => self.white_queen_side,
            (ChessColor::Black, CastleSide::KingSide) => self.black_king_side,
            (ChessColor::Black, CastleSide::QueenSide) => self.black_queen_side,
        }
    }

    /// Whether every right that `self` grants is granted by `earlier` too.
    pub open spec fn within(self, earlier: CastlingRights) -> bool {
        &&& self.white_king_side ==> earlier.white_king_side
        &&& self.white_queen_side ==> earlier.white_queen_side
        &&& self.black_king_side ==> earlier.black_king_side
        &&& self.black_queen_side ==> earlier.black_queen_side
    }

    /// All four rights.
    pub fn all() -> (r: CastlingRights)
        ensures
            r == (CastlingRights {
                white_king_side: true,
                white_queen_side: true,
                black_king_side: true,
                black_queen_side: true,
            }),
    {
        CastlingRights {
            white_king_side: true,
            white_queen_side: true,
            black_king_side: true,
            black_queen_side: true,
        }
    }

    /// No right at all.
    pub fn none() -> (r: CastlingRights)
        ensures
            r == (CastlingRights {
                white_king_side: false,
                white_queen_side: false,
                black_king_side: false,
                black_queen_side: false,
            }),
    {
        CastlingRights {
            white_king_side: false,
            white_queen_side: false,
            black_king_side: false,
            black_queen_side: false,
        }
    }

    /// Whether the given side may still castle towards the given wing.
    pub fn allows(&self, color: ChessColor, side: CastleSide) -> (r: bool)
        ensures
            r == self.spec_allows(color, side),
    {
        match (color, side) {
            (ChessColor::White, CastleSide::KingSide) => self.white_king_side,
            (ChessColor::White, CastleSide::QueenSide) => self.white_queen_side,
            (ChessColor::Black, CastleSide::KingSide) => self.black_king_side,
            (ChessColor::Black, CastleSide::QueenSide) => self.black_queen_side,
        }
    }
}

} // verus!
