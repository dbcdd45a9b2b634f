//! What every pseudo-legal move has in common with the board it is made
//! on: the facts that applying and taking back a move rely on.

use crate::attack::along;
use crate::attack::forward;
use crate::attack::magnitude;
use crate::board::at;
use crate::listing::every;
use crate::listing::leaves_from;
use crate::listing::lemma_listed_moves_follow_the_rules;
use crate::listing::lemma_piece_moves_rule;
use crate::movegen::piece_moves;
use crate::movegen::pseudo_moves;
use crate::moves::Move;
use crate::moves::MoveKind;
use crate::piece::ChessColor;
use crate::piece::Piece;
use crate::position::PositionModel;
use crate::position::crossing_file;
use crate::position::home_rank;
use crate::position::king_target_file;
use crate::position::last_rank;
use crate::position::pawn_rank;
use crate::position::rook_file;
use crate::rules::promotable;
use crate::rules::pseudo_legal;
use crate::square::on_board;
use crate::types::PieceKind;
use vstd::prelude::*;

verus! {

/// Whether a move fits the grid as a move of `side`: its squares are two
/// different squares of the board, a piece of `side` stands on the origin,
/// and the squares that the move's kind speaks of hold what that kind
/// says they hold.
pub open spec fn sound(g: Seq<Piece>, side: ChessColor, m: Move) -> bool {
    let f = m.from.file as int;
    let r = m.from.rank as int;
    let tf = m.to.file as int;
    let tr = m.to.rank as int;
    &&& m.valid()
    &&& m.from != m.to
    &&& at(g, f, r).spec_color() == Some(side)
    &&& match m.kind {
        MoveKind::Normal => at(g, tf, tr) == Piece::Empty,
        MoveKind::Capture => at(g, tf, tr).spec_color() == Some(side.spec_opposite()),
        MoveKind::DoublePawnPush => {
            &&& at(g, f, r) == Piece::spec_of(side, PieceKind::Pawn)
            &&& at(g, tf, tr) == Piece::Empty
            &&& tf == f
            &&& r == pawn_rank(side)
            &&& tr == r + 2 * forward(side)
        },
        MoveKind::EnPassantCapture => {
            &&& at(g, f, r) == Piece::spec_of(side, PieceKind::Pawn)
            &&& at(g, tf, tr) == Piece::Empty
            &&& at(g, tf, r) == Piece::spec_of(side.spec_opposite(), PieceKind::Pawn)
            &&& magnitude(tf - f) == 1
            &&& tr == r + forward(side)
        },
        MoveKind::Castle(s) => {
            &&& f == 4
            &&& r == home_rank(side)
            &&& tf == king_target_file(s)
            &&& tr == r
            &&& at(g, f, r) == Piece::spec_of(side, PieceKind::King)
            &&& at(g, rook_file(s), r) == Piece::spec_of(side, PieceKind::Rook)
            &&& at(g, crossing_file(s), r) == Piece::Empty
            &&& at(g, tf, tr) == Piece::Empty
        },
        MoveKind::Promotion(k) => {
            &&& at(g, f, r) == Piece::spec_of(side, PieceKind::Pawn)
            &&& at(g, tf, tr).spec_color() != Some(side)
            &&& tr == last_rank(side)
            &&& promotable(k)
        },
    }
}

/// Whether every move of a list fits the grid as a move of `side`.
pub open spec fn all_sound(g: Seq<Piece>, side: ChessColor, s: Seq<Move>) -> bool {
    forall|i: int| 0 <= i < s.len() ==> sound(g, side, #[trigger] s[i])
}

/// A pseudo-legal move fits the position that it is pseudo-legal in.
pub proof fn lemma_rule_sound(p: PositionModel, m: Move)
    requires
        pseudo_legal(p, m),
    ensures
        sound(p.grid, p.side, m),
{
    let g = p.grid;
    let x = at(g, m.from.file as int, m.from.rank as int);
    match m.kind {
        MoveKind::Castle(s) => {
            let h = home_rank(p.side);
            assert(x.spec_kind() == Some(PieceKind::King));
            assert(along(g, 4, h, rook_file(s), h, 1) == Piece::Empty);
            assert(along(g, 4, h, rook_file(s), h, 2) == Piece::Empty);
        },
        _ => {},
    }
}

/// Every pseudo-legal move of one piece fits the position.
pub proof fn lemma_piece_moves_sound(p: PositionModel, f: int, r: int)
    requires
        on_board(f, r),
    ensures
        all_sound(p.grid, p.side, piece_moves(p, f, r)),
{
    lemma_piece_moves_rule(p, f, r);
    let s = piece_moves(p, f, r);
    assert forall|i: int| 0 <= i < s.len() implies sound(p.grid, p.side, #[trigger] s[i]) by {
        assert((|m: Move| leaves_from(f, r, m) && pseudo_legal(p, m))(s[i]));
        lemma_rule_sound(p, s[i]);
    }
}

/// Every pseudo-legal move in the list fits the position it was listed for.
pub proof fn lemma_pseudo_moves_sound(p: PositionModel)
    ensures
        all_sound(p.grid, p.side, pseudo_moves(p)),
{
    let s = pseudo_moves(p);
    assert forall|i: int| 0 <= i < s.len() implies sound(p.grid, p.side, #[trigger] s[i]) by {
        assert(s.contains(s[i]));
        lemma_listed_moves_follow_the_rules(p, s[i]);
        lemma_rule_sound(p, s[i]);
    }
}

} // verus!
