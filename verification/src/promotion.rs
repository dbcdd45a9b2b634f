//! Promotion: a pawn that may promote may promote to each of the four kinds.

use crate::attack::along;
use crate::attack::attacked;
use crate::attack::attacks_from;
use crate::attack::clear_between;
use crate::attack::distance;
use crate::attack::in_check;
use crate::attack::king_attacked_on;
use crate::attack::on_bishop_line;
use crate::attack::on_rook_line;
use crate::attack::reaches;
use crate::attack::shift;
use crate::board::at;
use crate::board::lemma_at_put;
use crate::legal::is_legal;
use crate::legal::is_safe;
use crate::legal::legal_moves;
use crate::legal::lemma_legal_is_exact;
use crate::moves::Move;
use crate::piece::ChessColor;
use crate::piece::Piece;
use crate::position::PositionModel;
use crate::position::grid_after;
use crate::rules::promotable;
use crate::rules::pseudo_legal;
use crate::sound::lemma_rule_sound;
use crate::square::Square;
use crate::square::on_board;
use crate::state::GameModel;
use crate::state::MoveError;
use crate::state::asks_for;
use crate::state::first_asked;
use crate::state::promotes;
use crate::state::promotion_move;
use crate::types::PieceKind;
use vstd::prelude::*;

verus! {

/// Whether two grids look the same to the attacks of one side: they agree
/// on which squares are empty and on every square that holds a piece of
/// that side.
pub open spec fn alike_for(g1: Seq<Piece>, g2: Seq<Piece>, by: ChessColor) -> bool {
    forall|f: int, r: int|
        on_board(f, r) ==> {
            &&& (#[trigger] at(g1, f, r) == Piece::Empty) == (at(g2, f, r) == Piece::Empty)
            &&& at(g1, f, r).spec_color() == Some(by) ==> at(g2, f, r) == at(g1, f, r)
        }
}

proof fn lemma_clear_alike(
    g1: Seq<Piece>,
    g2: Seq<Piece>,
    by: ChessColor,
    f: int,
    r: int,
    tf: int,
    tr: int,
)
    requires
        alike_for(g1, g2, by),
        on_board(f, r),
        on_board(tf, tr),
        on_rook_line(f, r, tf, tr) || on_bishop_line(f, r, tf, tr),
        clear_between(g1, f, r, tf, tr),
    ensures
        clear_between(g2, f, r, tf, tr),
{
    assert forall|j: int| 1 <= j < distance(f, r, tf, tr) implies #[trigger] along(
        g2,
        f,
        r,
        tf,
        tr,
        j,
    ) == Piece::Empty by {
        let jf = shift(f, tf - f, j);
        let jr = shift(r, tr - r, j);
        assert(on_board(jf, jr));
        assert(along(g1, f, r, tf, tr, j) == Piece::Empty);
        assert(at(g1, jf, jr) == Piece::Empty);
    }
}

proof fn lemma_attack_alike(g1: Seq<Piece>, g2: Seq<Piece>, by: ChessColor, tf: int, tr: int)
    requires
        alike_for(g1, g2, by),
        on_board(tf, tr),
        attacked(g1, by, tf, tr),
    ensures
        attacked(g2, by, tf, tr),
{
    let (f, r) = choose|f: int, r: int| on_board(f, r) && #[trigger] attacks_from(g1, by, f, r, tf, tr);
    let x = at(g1, f, r);
    assert(x.spec_color() == Some(by));
    assert(at(g2, f, r) == x);
    let k = x.spec_kind().unwrap();
    if k == PieceKind::Rook || k == PieceKind::Bishop || k == PieceKind::Queen {
        lemma_clear_alike(g1, g2, by, f, r, tf, tr);
    }
    assert(reaches(g2, k, by, f, r, tf, tr));
    assert(attacks_from(g2, by, f, r, tf, tr));
}

/// Promotion completeness: where a pawn may legally promote to one kind
/// between two squares, it may legally promote to each of queen, rook,
/// bishop and knight between them.
pub proof fn lemma_promotion_to_each_kind(
    p: PositionModel,
    from: Square,
    to: Square,
    k1: PieceKind,
    k2: PieceKind,
)
    requires
        p.grid.len() == 64,
        is_legal(p, promotion_move(from, to, k1)),
        promotable(k2),
    ensures
        is_legal(p, promotion_move(from, to, k2)),
{
    broadcast use lemma_at_put;

    let m1 = promotion_move(from, to, k1);
    let m2 = promotion_move(from, to, k2);
    let g1 = grid_after(p.grid, p.side, m1);
    let g2 = grid_after(p.grid, p.side, m2);
    let enemy = p.side.spec_opposite();
    lemma_legal_is_exact(p, m1);
    lemma_legal_is_exact(p, m2);
    lemma_rule_sound(p, m1);
    assert(pseudo_legal(p, m2));
    assert(alike_for(g2, g1, enemy)) by {
        assert forall|f: int, r: int| on_board(f, r) implies (#[trigger] at(g2, f, r)
            == Piece::Empty) == (at(g1, f, r) == Piece::Empty) && (at(g2, f, r).spec_color()
            == Some(enemy) ==> at(g1, f, r) == at(g2, f, r)) by {}
    }
    if in_check(g2, p.side) {
        let (f, r) = choose|f: int, r: int| on_board(f, r) && #[trigger] king_attacked_on(g2, p.side, f, r);
        assert(at(g1, f, r) == at(g2, f, r));
        lemma_attack_alike(g2, g1, enemy, f, r);
        assert(king_attacked_on(g1, p.side, f, r));
        assert(in_check(g1, p.side));
    }
    assert(is_safe(p, m2));
}

/// A request for a promotion: where some promotion between two squares is
/// legal in a game that is not over, the request that names no kind is
/// ambiguous, and the request that names one of queen, rook, bishop and
/// knight stands for the promotion to that kind.
pub proof fn lemma_promotion_request(s: GameModel, from: Square, to: Square, k: PieceKind)
    requires
        s.position.grid.len() == 64,
        !s.status().spec_is_over(),
        promotes(s.position, from, to),
        promotable(k),
    ensures
        s.requested(from, to, None) == Err::<Move, MoveError>(MoveError::AmbiguousPromotion),
        s.requested(from, to, Some(k)) == Ok::<Move, MoveError>(promotion_move(from, to, k)),
{
    let p = s.position;
    let k1 = choose|k1: PieceKind| is_legal(p, #[trigger] promotion_move(from, to, k1));
    let m1 = promotion_move(from, to, k1);
    let m = promotion_move(from, to, k);
    lemma_legal_is_exact(p, m1);
    lemma_rule_sound(p, m1);
    lemma_promotion_to_each_kind(p, from, to, k1, k);
    let legal = legal_moves(p);
    let at_m = choose|i: int| 0 <= i < legal.len() && legal[i] == m;
    assert(asks_for(legal[at_m], from, to, Some(k)));
    lemma_first_exists(legal, from, to, Some(k), at_m);
    let first = choose|i: int| first_asked(legal, from, to, Some(k), i);
    assert(legal[first] == m);
}

proof fn lemma_first_exists(
    s: Seq<Move>,
    from: Square,
    to: Square,
    promotion: Option<PieceKind>,
    n: int,
)
    requires
        0 <= n < s.len(),
        asks_for(s[n], from, to, promotion),
    ensures
        exists|i: int| first_asked(s, from, to, promotion, i),
    decreases n,
{
    if forall|j: int| 0 <= j < n ==> !asks_for(#[trigger] s[j], from, to, promotion) {
        assert(first_asked(s, from, to, promotion, n));
    } else {
        let j = choose|j: int| 0 <= j < n && asks_for(#[trigger] s[j], from, to, promotion);
        lemma_first_exists(s, from, to, promotion, j);
    }
}

} // verus!
