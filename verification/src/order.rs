//! The order of the list of pseudo-legal moves: origins come in scan
//! order, and no move is listed twice.

use crate::attack::distance;
use crate::attack::shift;
use crate::board::at;
use crate::legal::is_safe;
use crate::legal::legal_moves;
use crate::listing::dir_index;
use crate::listing::every;
use crate::listing::hop_ok;
use crate::listing::jump_index;
use crate::listing::leaves_from;
use crate::listing::lemma_every_add;
use crate::listing::lemma_every_weaken;
use crate::listing::lemma_hop_rule;
use crate::listing::lemma_piece_moves_rule;
use crate::listing::lemma_slide_rule;
use crate::listing::slide_ok;
use crate::movegen::castle_move;
use crate::movegen::dir_file;
use crate::movegen::dir_rank;
use crate::movegen::hop_moves;
use crate::movegen::jump_file;
use crate::movegen::jump_rank;
use crate::movegen::moves_before;
use crate::movegen::mv;
use crate::movegen::pawn_advances;
use crate::movegen::pawn_capture;
use crate::movegen::pawn_moves;
use crate::movegen::piece_moves;
use crate::movegen::pseudo_moves;
use crate::movegen::ray_moves;
use crate::movegen::slide_moves;
use crate::movegen::step_to;
use crate::moves::CastleSide;
use crate::moves::Move;
use crate::moves::MoveKind;
use crate::piece::ChessColor;
use crate::piece::Piece;
use crate::position::PositionModel;
use crate::rules::pseudo_legal;
use crate::square::Square;
use crate::square::on_board;
use crate::types::PieceKind;
use vstd::prelude::*;

verus! {

/// Two lists without repeats, whose items are told apart by two
/// properties that exclude each other, concatenate to a list without
/// repeats.
pub proof fn lemma_no_repeats_add(
    a: Seq<Move>,
    b: Seq<Move>,
    p: spec_fn(Move) -> bool,
    q: spec_fn(Move) -> bool,
)
    requires
        a.no_duplicates(),
        b.no_duplicates(),
        every(a, p),
        every(b, q),
        forall|m: Move| !(#[trigger] p(m) && q(m)),
    ensures
        (a + b).no_duplicates(),
{
    let s = a + b;
    assert forall|i: int, j: int| 0 <= i < s.len() && 0 <= j < s.len() && i != j implies s[i]
        != s[j] by {
        if i < a.len() && j >= a.len() {
            assert(p(a[i]));
            assert(q(b[j - a.len()]));
        } else if j < a.len() && i >= a.len() {
            assert(p(a[j]));
            assert(q(b[i - a.len()]));
        }
    }
}

/// Whether a move leaves from `(f, r)` for a square at least `k` king
/// steps away.
pub open spec fn far_ok(f: int, r: int, k: int, m: Move) -> bool {
    leaves_from(f, r, m) && distance(f, r, m.to.file as int, m.to.rank as int) >= k
}

proof fn lemma_ray_far(g: Seq<Piece>, side: ChessColor, f: int, r: int, i: int, k: int)
    requires
        on_board(f, r),
        0 <= i < 8,
        1 <= k,
    ensures
        every(
            ray_moves(g, side, f, r, dir_file(i), dir_rank(i), k),
            |m: Move| far_ok(f, r, k, m),
        ),
        ray_moves(g, side, f, r, dir_file(i), dir_rank(i), k).no_duplicates(),
    decreases 8 - k,
{
    let df = dir_file(i);
    let dr = dir_rank(i);
    let tf = shift(f, df, k);
    let tr = shift(r, dr, k);
    let pred = |m: Move| far_ok(f, r, k, m);
    if k < 8 && on_board(tf, tr) && at(g, tf, tr) == Piece::Empty {
        let head = seq![mv(f, r, tf, tr, MoveKind::Normal)];
        let rest = ray_moves(g, side, f, r, df, dr, k + 1);
        let near = |m: Move| far_ok(f, r, k, m) && !far_ok(f, r, k + 1, m);
        let far = |m: Move| far_ok(f, r, k + 1, m);
        lemma_ray_far(g, side, f, r, i, k + 1);
        assert(distance(f, r, tf, tr) == k);
        assert(near(head[0]));
        assert(every(head, near));
        lemma_no_repeats_add(head, rest, near, far);
        lemma_every_weaken(head, near, pred);
        lemma_every_weaken(rest, far, pred);
        lemma_every_add(head, rest, pred);
    } else if k < 8 && on_board(tf, tr) && at(g, tf, tr).spec_color() != Some(side) {
        assert(distance(f, r, tf, tr) == k);
    }
}

proof fn lemma_slide_once(g: Seq<Piece>, side: ChessColor, f: int, r: int, lo: int, hi: int)
    requires
        on_board(f, r),
        0 <= lo,
        hi <= 8,
    ensures
        slide_moves(g, side, f, r, lo, hi).no_duplicates(),
    decreases hi - lo,
{
    if hi > lo {
        let a = slide_moves(g, side, f, r, lo, hi - 1);
        let b = ray_moves(g, side, f, r, dir_file(hi - 1), dir_rank(hi - 1), 1);
        lemma_slide_once(g, side, f, r, lo, hi - 1);
        lemma_ray_far(g, side, f, r, hi - 1, 1);
        lemma_slide_rule(g, side, f, r, lo, hi - 1);
        lemma_slide_rule(g, side, f, r, hi - 1, hi);
        assert(slide_moves(g, side, f, r, hi - 1, hi - 1) + b =~= b);
        lemma_no_repeats_add(
            a,
            b,
            |m: Move| slide_ok(g, side, f, r, lo, hi - 1, m),
            |m: Move| slide_ok(g, side, f, r, hi - 1, hi, m),
        );
    }
}

proof fn lemma_hop_once(g: Seq<Piece>, side: ChessColor, f: int, r: int, knight: bool, n: int)
    requires
        on_board(f, r),
        n <= 8,
    ensures
        hop_moves(g, side, f, r, knight, n).no_duplicates(),
    decreases n,
{
    if n > 0 {
        let tf = f + (if knight {
            jump_file(n - 1)
        } else {
            dir_file(n - 1)
        });
        let tr = r + (if knight {
            jump_rank(n - 1)
        } else {
            dir_rank(n - 1)
        });
        let a = hop_moves(g, side, f, r, knight, n - 1);
        let b = step_to(g, side, f, r, tf, tr);
        let here = |m: Move|
            leaves_from(f, r, m) && (if knight {
                jump_index(m.to.file - f, m.to.rank - r)
            } else {
                dir_index(m.to.file - f, m.to.rank - r)
            }) == n - 1;
        lemma_hop_once(g, side, f, r, knight, n - 1);
        lemma_hop_rule(g, side, f, r, knight, n - 1);
        assert forall|j: int| 0 <= j < b.len() implies here(#[trigger] b[j]) by {}
        lemma_no_repeats_add(a, b, |m: Move| hop_ok(g, side, f, r, knight, n - 1, m), here);
    }
}

proof fn lemma_pawn_once(
    g: Seq<Piece>,
    side: ChessColor,
    en_passant: Option<Square>,
    f: int,
    r: int,
)
    requires
        on_board(f, r),
    ensures
        pawn_moves(g, side, en_passant, f, r).no_duplicates(),
{
    let adv = pawn_advances(g, side, f, r);
    let west = pawn_capture(g, side, en_passant, f, r, f - 1);
    let east = pawn_capture(g, side, en_passant, f, r, f + 1);
    let straight = |m: Move| m.valid() && m.to.file == f;
    let left = |m: Move| m.valid() && m.to.file == f - 1;
    let right = |m: Move| m.valid() && m.to.file == f + 1;
    let not_right = |m: Move| m.valid() && m.to.file != f + 1;
    assert forall|j: int| 0 <= j < adv.len() implies straight(#[trigger] adv[j]) by {}
    assert forall|j: int| 0 <= j < west.len() implies left(#[trigger] west[j]) by {}
    assert forall|j: int| 0 <= j < east.len() implies right(#[trigger] east[j]) by {}
    assert(adv.no_duplicates());
    assert(west.no_duplicates());
    assert(east.no_duplicates());
    lemma_no_repeats_add(adv, west, straight, left);
    lemma_every_weaken(adv, straight, not_right);
    lemma_every_weaken(west, left, not_right);
    lemma_every_add(adv, west, not_right);
    lemma_no_repeats_add(adv + west, east, not_right, right);
}

/// No move is listed twice among the moves of one piece.
pub proof fn lemma_piece_moves_once(p: PositionModel, f: int, r: int)
    requires
        on_board(f, r),
    ensures
        piece_moves(p, f, r).no_duplicates(),
{
    let g = p.grid;
    let side = p.side;
    let x = at(g, f, r);
    if x.spec_color() == Some(side) {
        match x.spec_kind() {
            Some(PieceKind::King) => {
                let hops = hop_moves(g, side, f, r, false, 8);
                let ks = castle_move(g, side, p.rights, f, r, CastleSide::KingSide);
                let qs = castle_move(g, side, p.rights, f, r, CastleSide::QueenSide);
                let steps = |m: Move| hop_ok(g, side, f, r, false, 8, m);
                let short = |m: Move| m.kind == MoveKind::Castle(CastleSide::KingSide);
                let long = |m: Move| m.kind == MoveKind::Castle(CastleSide::QueenSide);
                let not_long = |m: Move| m.kind != MoveKind::Castle(CastleSide::QueenSide);
                lemma_hop_once(g, side, f, r, false, 8);
                lemma_hop_rule(g, side, f, r, false, 8);
                assert forall|j: int| 0 <= j < ks.len() implies short(#[trigger] ks[j]) by {}
                assert forall|j: int| 0 <= j < qs.len() implies long(#[trigger] qs[j]) by {}
                lemma_no_repeats_add(hops, ks, steps, short);
                lemma_every_weaken(hops, steps, not_long);
                lemma_every_weaken(ks, short, not_long);
                lemma_every_add(hops, ks, not_long);
                lemma_no_repeats_add(hops + ks, qs, not_long, long);
            },
            Some(PieceKind::Queen) => {
                lemma_slide_once(g, side, f, r, 0, 8);
            },
            Some(PieceKind::Rook) => {
                lemma_slide_once(g, side, f, r, 0, 4);
            },
            Some(PieceKind::Bishop) => {
                lemma_slide_once(g, side, f, r, 4, 8);
            },
            Some(PieceKind::Knight) => {
                lemma_hop_once(g, side, f, r, true, 8);
            },
            Some(PieceKind::Pawn) => {
                lemma_pawn_once(g, side, p.en_passant, f, r);
            },
            None => {},
        }
    }
}

/// Whether a move's origin is a square of the board that comes before the
/// `n`-th in scan order.
pub open spec fn starts_before(n: int, m: Move) -> bool {
    m.valid() && m.from.spec_index() < n
}

/// Whether the origins of a list of moves come in scan order.
pub open spec fn in_scan_order(s: Seq<Move>) -> bool {
    forall|i: int, j: int|
        0 <= i <= j < s.len() ==> (#[trigger] s[i]).from.spec_index() <= (
        #[trigger] s[j]).from.spec_index()
}

proof fn lemma_moves_before_order(p: PositionModel, n: int)
    requires
        n <= 64,
    ensures
        every(moves_before(p, n), |m: Move| starts_before(n, m)),
        moves_before(p, n).no_duplicates(),
        in_scan_order(moves_before(p, n)),
    decreases n,
{
    if n > 0 {
        let f = (n - 1) % 8;
        let r = (n - 1) / 8;
        let a = moves_before(p, n - 1);
        let b = piece_moves(p, f, r);
        let s = a + b;
        let earlier = |m: Move| starts_before(n - 1, m);
        let here = |m: Move| leaves_from(f, r, m);
        let now = |m: Move| starts_before(n, m);
        lemma_moves_before_order(p, n - 1);
        lemma_piece_moves_rule(p, f, r);
        lemma_piece_moves_once(p, f, r);
        lemma_every_weaken(b, |m: Move| leaves_from(f, r, m) && pseudo_legal(p, m), here);
        lemma_no_repeats_add(a, b, earlier, here);
        lemma_every_weaken(a, earlier, now);
        lemma_every_weaken(b, here, now);
        lemma_every_add(a, b, now);
        assert forall|i: int, j: int| 0 <= i <= j < s.len() implies (#[trigger] s[i]).from.spec_index()
            <= (#[trigger] s[j]).from.spec_index() by {
            if j < a.len() {
                assert(s[i] == a[i] && s[j] == a[j]);
            } else if i < a.len() {
                assert(earlier(a[i]));
                assert(here(b[j - a.len()]));
            } else {
                assert(here(b[i - a.len()]));
                assert(here(b[j - a.len()]));
            }
        }
    }
}

/// The list of pseudo-legal moves holds no move twice, and the origins of
/// its moves come in scan order: rank by rank from White's home rank, each
/// rank from the a-file.
pub proof fn lemma_listing_is_ordered(p: PositionModel)
    ensures
        pseudo_moves(p).no_duplicates(),
        in_scan_order(pseudo_moves(p)),
{
    lemma_moves_before_order(p, 64);
}

/// Filtering a list keeps it free of repeats and keeps its origins in
/// scan order.
pub proof fn lemma_filter_keeps_order(s: Seq<Move>, pred: spec_fn(Move) -> bool)
    requires
        s.no_duplicates(),
        in_scan_order(s),
    ensures
        s.filter(pred).no_duplicates(),
        in_scan_order(s.filter(pred)),
    decreases s.len(),
{
    reveal(Seq::filter);
    if s.len() > 0 {
        let front = s.drop_last();
        let kept = front.filter(pred);
        let out = s.filter(pred);
        assert(front.no_duplicates());
        assert forall|i: int, j: int| 0 <= i <= j < front.len() implies (
        #[trigger] front[i]).from.spec_index() <= (#[trigger] front[j]).from.spec_index() by {
            assert(front[i] == s[i] && front[j] == s[j]);
        }
        lemma_filter_keeps_order(front, pred);
        if pred(s.last()) {
            assert forall|i: int| 0 <= i < kept.len() implies #[trigger] kept[i] != s.last()
                && kept[i].from.spec_index() <= s.last().from.spec_index() by {
                assert(kept.contains(kept[i]));
                front.lemma_filter_contains_rev(pred, kept[i]);
                let k = choose|k: int| 0 <= k < front.len() && front[k] == kept[i];
                assert(s[k] == kept[i]);
            }
            assert forall|i: int, j: int| 0 <= i < out.len() && 0 <= j < out.len() && i
                != j implies out[i] != out[j] by {
                if i < kept.len() && j < kept.len() {
                    assert(out[i] == kept[i] && out[j] == kept[j]);
                } else if i < kept.len() {
                    assert(out[i] == kept[i]);
                } else {
                    assert(out[j] == kept[j]);
                }
            }
            assert forall|i: int, j: int| 0 <= i <= j < out.len() implies (
            #[trigger] out[i]).from.spec_index() <= (#[trigger] out[j]).from.spec_index() by {
                if j < kept.len() {
                    assert(out[i] == kept[i] && out[j] == kept[j]);
                } else if i < kept.len() {
                    assert(out[i] == kept[i]);
                }
            }
        }
    }
}

/// The list of legal moves holds no move twice, and the origins of its
/// moves come in scan order.
pub proof fn lemma_legal_listing_is_ordered(p: PositionModel)
    ensures
        legal_moves(p).no_duplicates(),
        in_scan_order(legal_moves(p)),
{
    lemma_listing_is_ordered(p);
    lemma_filter_keeps_order(pseudo_moves(p), |m: Move| is_safe(p, m));
}

} // verus!
