//! The rules of movement, stated square by square: which moves a piece may
//! make, whatever the order in which a generator lists them.
//!
//! A piece other than a pawn moves to the squares that it reaches and that
//! hold no piece of its own colour; the king may castle besides. A pawn
//! advances onto empty squares and captures diagonally ahead.

use crate::attack::forward;
use crate::attack::magnitude;
use crate::attack::reaches;
use crate::board::at;
use crate::movegen::can_castle;
use crate::moves::Move;
use crate::moves::MoveKind;
use crate::piece::ChessColor;
use crate::piece::Piece;
use crate::position::PositionModel;
use crate::position::home_rank;
use crate::position::king_target_file;
use crate::position::last_rank;
use crate::position::pawn_rank;
use crate::square::Square;
use crate::types::PieceKind;
use vstd::prelude::*;

verus! {

/// Whether a kind is one that a pawn may promote to.
pub open spec fn promotable(k: PieceKind) -> bool {
    k == PieceKind::Queen || k == PieceKind::Rook || k == PieceKind::Bishop || k
        == PieceKind::Knight
}

/// Whether a move's kind fits what stands on its destination: a normal
/// move goes to an empty square, a capture to a piece of the other colour.
pub open spec fn lands(g: Seq<Piece>, side: ChessColor, m: Move) -> bool {
    let t = at(g, m.to.file as int, m.to.rank as int);
    (m.kind == MoveKind::Normal && t == Piece::Empty) || (m.kind == MoveKind::Capture
        && t.spec_color() == Some(side.spec_opposite()))
}

/// Whether a move is one that a pawn of `side` on the move's origin may make.
pub open spec fn pawn_rule(g: Seq<Piece>, side: ChessColor, en_passant: Option<Square>, m: Move) -> bool {
    let f = m.from.file as int;
    let r = m.from.rank as int;
    let tf = m.to.file as int;
    let tr = m.to.rank as int;
    let t = at(g, tf, tr);
    let ahead = tr == r + forward(side);
    let straight = tf == f && t == Piece::Empty;
    let diagonal = magnitude(tf - f) == 1;
    let taking = diagonal && t.spec_color() == Some(side.spec_opposite());
    match m.kind {
        MoveKind::Normal => ahead && straight && tr != last_rank(side),
        MoveKind::DoublePawnPush => {
            &&& straight
            &&& r == pawn_rank(side)
            &&& tr == r + 2 * forward(side)
            &&& at(g, f, r + forward(side)) == Piece::Empty
        },
        MoveKind::Capture => ahead && taking && tr != last_rank(side),
        MoveKind::EnPassantCapture => {
            &&& ahead
            &&& diagonal
            &&& t == Piece::Empty
            &&& en_passant == Some(m.to)
            &&& at(g, tf, r) == Piece::spec_of(side.spec_opposite(), PieceKind::Pawn)
        },
        MoveKind::Promotion(k) => {
            &&& promotable(k)
            &&& ahead
            &&& tr == last_rank(side)
            &&& (straight || taking)
        },
        MoveKind::Castle(_) => false,
    }
}

/// Whether a move is the castling of the king of `side` towards a wing,
/// and that side may castle there now.
pub open spec fn castle_rule(p: PositionModel, m: Move) -> bool {
    match m.kind {
        MoveKind::Castle(s) => {
            &&& m.from.file == 4
            &&& m.from.rank == home_rank(p.side)
            &&& m.to.file == king_target_file(s)
            &&& m.to.rank == m.from.rank
            &&& can_castle(p.grid, p.side, p.rights, s)
        },
        _ => false,
    }
}

/// Whether a move is pseudo-legal in a position: both squares lie on the
/// board, a piece of the side to move stands on the origin, and the move
/// is one that this piece may make on this board.
pub open spec fn pseudo_legal(p: PositionModel, m: Move) -> bool {
    let f = m.from.file as int;
    let r = m.from.rank as int;
    let tf = m.to.file as int;
    let tr = m.to.rank as int;
    let x = at(p.grid, f, r);
    &&& m.valid()
    &&& x.spec_color() == Some(p.side)
    &&& match x.spec_kind() {
        Some(PieceKind::Pawn) => pawn_rule(p.grid, p.side, p.en_passant, m),
        Some(PieceKind::King) => (lands(p.grid, p.side, m) && reaches(
            p.grid,
            PieceKind::King,
            p.side,
            f,
            r,
            tf,
            tr,
        )) || castle_rule(p, m),
        Some(k) => lands(p.grid, p.side, m) && reaches(p.grid, k, p.side, f, r, tf, tr),
        None => false,
    }
}

} // verus!
