//! The state of a game: ongoing, in check, or over and how.

use crate::attack::in_check;
use crate::board::Board;
use crate::legal::legal_moves;
use crate::piece::ChessColor;
use crate::piece::Piece;
use crate::position::Position;
use crate::position::PositionModel;
use crate::types::PieceKind;
use vstd::prelude::*;

verus! {

/// The state of a game.
#[derive(Copy, Clone, Debug, PartialEq, Eq, Structural)]
pub enum Status {
    /// The side to move has a legal move and is not in check.
    Ongoing,
    /// The side to move has a legal move and its king is attacked.
    Check,
    /// The side to move has no legal move and its king is attacked; the
    /// colour is the winner's.
    Checkmate(ChessColor),
    /// The side to move has no legal move and its king is not attacked.
    Stalemate,
    /// A hundred plies have passed without a capture or a pawn move.
    DrawByFiftyMove,
    /// Neither side has the material to give mate.
    DrawByInsufficientMaterial,
}

/// Whether a square holds a bishop or a knight.
pub open spec fn is_minor(p: Piece) -> bool {
    p.spec_kind() == Some(PieceKind::Bishop) || p.spec_kind() == Some(PieceKind::Knight)
}

/// Whether a square holds a pawn, a rook or a queen.
pub open spec fn is_mating_piece(p: Piece) -> bool {
    p.spec_kind() == Some(PieceKind::Pawn) || p.spec_kind() == Some(PieceKind::Rook)
        || p.spec_kind() == Some(PieceKind::Queen)
}

/// The number of bishops and knights on the first `n` squares of a grid.
pub open spec fn minors_before(g: Seq<Piece>, n: int) -> int
    decreases n,
{
    if n <= 0 {
        0
    } else {
        minors_before(g, n - 1) + (if is_minor(g[n - 1]) {
            1int
        } else {
            0int
        })
    }
}

/// Whether neither side can give mate: the board holds no pawn, rook or
/// queen, and at most one bishop or knight altogether.
pub open spec fn insufficient_material(g: Seq<Piece>) -> bool {
    &&& forall|i: int| 0 <= i < 64 ==> !is_mating_piece(#[trigger] g[i])
    &&& minors_before(g, 64) <= 1
}

/// The state of a game in the given position, `halfmove` plies after the
/// last capture or pawn move.
///
/// Mate and stalemate come first; then the draw by the fifty-move rule,
/// then the draw by insufficient material; a game that is not over is in
/// check or simply ongoing.
pub open spec fn status_of(p: PositionModel, halfmove: int) -> Status {
    if legal_moves(p).len() == 0 {
        if in_check(p.grid, p.side) {
            Status::Checkmate(p.side.spec_opposite())
        } else {
            Status::Stalemate
        }
    } else if halfmove >= 100 {
        Status::DrawByFiftyMove
    } else if insufficient_material(p.grid) {
        Status::DrawByInsufficientMaterial
    } else if in_check(p.grid, p.side) {
        Status::Check
    } else {
        Status::Ongoing
    }
}

impl Status {
    /// Whether the game is over.
    pub open spec fn spec_is_over(self) -> bool {
        !(self == Status::Ongoing || self == Status::Check)
    }

    /// Whether the game is over.
    pub fn is_over(&self) -> (over: bool)
        ensures
            over == self.spec_is_over(),
    {
        match *self {
            Status::Ongoing => false,
            Status::Check => false,
            _ => true,
        }
    }
}

/// Mate, stalemate and check told apart: a side without a legal move is
/// mated where its king is attacked and stalemated where it is not, never
/// the other; a side with a legal move is in check exactly where its king
/// is attacked and neither draw has come about.
pub proof fn lemma_status_cases(p: PositionModel, halfmove: int)
    ensures
        status_of(p, halfmove) == Status::Checkmate(p.side.spec_opposite()) <==> legal_moves(
            p,
        ).len() == 0 && in_check(p.grid, p.side),
        status_of(p, halfmove) == Status::Stalemate <==> legal_moves(p).len() == 0 && !in_check(
            p.grid,
            p.side,
        ),
        status_of(p, halfmove) == Status::Check <==> legal_moves(p).len() > 0 && in_check(
            p.grid,
            p.side,
        ) && halfmove < 100 && !insufficient_material(p.grid),
        status_of(p, halfmove).spec_is_over() <==> legal_moves(p).len() == 0 || halfmove >= 100
            || insufficient_material(p.grid),
{
}

/// Whether neither side has the material to give mate.
pub fn has_insufficient_material(b: &Board) -> (r: bool)
    ensures
        r == insufficient_material(b@),
{
    let mut minors: u8 = 0;
    let mut i: usize = 0;
    while i < 64
        invariant
            i <= 64,
            minors == minors_before(b@, i as int),
            minors <= i,
            forall|j: int| 0 <= j < i ==> !is_mating_piece(#[trigger] b@[j]),
        decreases 64 - i,
    {
        match b.squares[i].kind() {
            Some(PieceKind::Pawn) | Some(PieceKind::Rook) | Some(PieceKind::Queen) => {
                assert(is_mating_piece(b@[i as int]));
                return false;
            },
            Some(PieceKind::Bishop) | Some(PieceKind::Knight) => {
                minors += 1;
            },
            _ => {},
        }
        i += 1;
    }
    minors <= 1
}

impl Position {
    /// The state of a game in this position, `halfmove` plies after the
    /// last capture or pawn move.
    pub fn status(&self, halfmove: u32) -> (s: Status)
        ensures
            s == status_of(self@, halfmove as int),
    {
        let moves = self.legal_moves();
        let check = self.in_check();
        if moves.len() == 0 {
            if check {
                Status::Checkmate(self.side_to_move.opposite())
            } else {
                Status::Stalemate
            }
        } else if halfmove >= 100 {
            Status::DrawByFiftyMove
        } else if has_insufficient_material(&self.board) {
            Status::DrawByInsufficientMaterial
        } else if check {
            Status::Check
        } else {
            Status::Ongoing
        }
    }
}

} // verus!
