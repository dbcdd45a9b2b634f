//! The list and the rules agree: the list of pseudo-legal moves
//! holds every move that the rules of movement allow, and no other.

use crate::attack::along;
use crate::attack::clear_between;
use crate::attack::distance;
use crate::attack::knight_jump;
use crate::attack::on_bishop_line;
use crate::attack::on_rook_line;
use crate::attack::shift;
use crate::board::at;
use crate::movegen::castle_move;
use crate::movegen::dir_file;
use crate::movegen::dir_rank;
use crate::movegen::hop_moves;
use crate::movegen::jump_file;
use crate::movegen::jump_rank;
use crate::movegen::moves_before;
use crate::movegen::mv;
use crate::movegen::pawn_advances;
use crate::movegen::pawn_capture;
use crate::movegen::pawn_moves;
use crate::movegen::piece_moves;
use crate::movegen::pseudo_moves;
use crate::movegen::ray_moves;
use crate::movegen::slide_moves;
use crate::movegen::step_to;
use crate::moves::CastleSide;
use crate::moves::Move;
use crate::moves::MoveKind;
use crate::piece::ChessColor;
use crate::piece::Piece;
use crate::position::PositionModel;
use crate::rules::castle_rule;
use crate::rules::lands;
use crate::rules::pawn_rule;
use crate::rules::pseudo_legal;
use crate::square::Square;
use crate::square::on_board;
use crate::square::square_at;
use crate::types::PieceKind;
use vstd::prelude::*;

verus! {

/// Whether every item of a list has a property.
pub open spec fn every(s: Seq<Move>, pred: spec_fn(Move) -> bool) -> bool {
    forall|i: int| 0 <= i < s.len() ==> pred(#[trigger] s[i])
}

/// A property of every item of two lists is one of every item of their
/// concatenation.
pub proof fn lemma_every_add(a: Seq<Move>, b: Seq<Move>, pred: spec_fn(Move) -> bool)
    requires
        every(a, pred),
        every(b, pred),
    ensures
        every(a + b, pred),
{
    assert forall|i: int| 0 <= i < (a + b).len() implies pred(#[trigger] (a + b)[i]) by {
        if i < a.len() {
            assert((a + b)[i] == a[i]);
        } else {
            assert((a + b)[i] == b[i - a.len()]);
        }
    }
}

/// A property that follows from one that every item of a list has is
/// one of every item too.
pub proof fn lemma_every_weaken(s: Seq<Move>, p: spec_fn(Move) -> bool, q: spec_fn(Move) -> bool)
    requires
        every(s, p),
        forall|m: Move| #[trigger] p(m) ==> q(m),
    ensures
        every(s, q),
{
    assert forall|i: int| 0 <= i < s.len() implies q(#[trigger] s[i]) by {
        assert(p(s[i]));
    }
}

/// The number of the direction in which a step of `dx` files and `dy`
/// ranks leads; 8 for no step at all.
pub open spec fn dir_index(dx: int, dy: int) -> int {
    if dx == 0 && dy > 0 {
        0
    } else if dx > 0 && dy == 0 {
        1
    } else if dx == 0 && dy < 0 {
        2
    } else if dx < 0 && dy == 0 {
        3
    } else if dx > 0 && dy > 0 {
        4
    } else if dx > 0 && dy < 0 {
        5
    } else if dx < 0 && dy < 0 {
        6
    } else if dx < 0 && dy > 0 {
        7
    } else {
        8
    }
}

/// The number of the knight's jump of `dx` files and `dy` ranks; 8 for
/// any other step.
pub open spec fn jump_index(dx: int, dy: int) -> int {
    if dx == 1 && dy == 2 {
        0
    } else if dx == 2 && dy == 1 {
        1
    } else if dx == 2 && dy == -1 {
        2
    } else if dx == 1 && dy == -2 {
        3
    } else if dx == -1 && dy == -2 {
        4
    } else if dx == -2 && dy == -1 {
        5
    } else if dx == -2 && dy == 1 {
        6
    } else if dx == -1 && dy == 2 {
        7
    } else {
        8
    }
}

/// Whether a move leaves from `(f, r)` for a square of the board.
pub open spec fn leaves_from(f: int, r: int, m: Move) -> bool {
    m.from == square_at(f, r) && m.valid()
}

/// Whether a move from `(f, r)` runs along a ray with a number from `lo`
/// up to, not including, `hi`, over empty squares, and lands as its kind says.
pub open spec fn slide_ok(
    g: Seq<Piece>,
    side: ChessColor,
    f: int,
    r: int,
    lo: int,
    hi: int,
    m: Move,
) -> bool {
    let tf = m.to.file as int;
    let tr = m.to.rank as int;
    &&& leaves_from(f, r, m)
    &&& lands(g, side, m)
    &&& lo <= dir_index(tf - f, tr - r) < hi
    &&& on_rook_line(f, r, tf, tr) || on_bishop_line(f, r, tf, tr)
    &&& clear_between(g, f, r, tf, tr)
}

/// Whether a move from `(f, r)` is one of the first `n` single steps, or
/// of the first `n` knight's jumps, and lands as its kind says.
pub open spec fn hop_ok(
    g: Seq<Piece>,
    side: ChessColor,
    f: int,
    r: int,
    knight: bool,
    n: int,
    m: Move,
) -> bool {
    let tf = m.to.file as int;
    let tr = m.to.rank as int;
    &&& leaves_from(f, r, m)
    &&& lands(g, side, m)
    &&& if knight {
        knight_jump(f, r, tf, tr) && jump_index(tf - f, tr - r) < n
    } else {
        distance(f, r, tf, tr) == 1 && dir_index(tf - f, tr - r) < n
    }
}

/// What stands `j` steps from a square in a direction.
pub open spec fn ahead(g: Seq<Piece>, f: int, r: int, df: int, dr: int, j: int) -> Piece {
    at(g, shift(f, df, j), shift(r, dr, j))
}

/// Whether the first `k - 1` squares from a square in a direction lie on
/// the board and are empty.
pub open spec fn open_run(g: Seq<Piece>, f: int, r: int, df: int, dr: int, k: int) -> bool {
    forall|j: int|
        1 <= j < k ==> on_board(shift(f, df, j), shift(r, dr, j)) && #[trigger] ahead(
            g,
            f,
            r,
            df,
            dr,
            j,
        ) == Piece::Empty
}

proof fn lemma_ray_target(
    g: Seq<Piece>,
    side: ChessColor,
    f: int,
    r: int,
    i: int,
    k: int,
    kind: MoveKind,
)
    requires
        on_board(f, r),
        0 <= i < 8,
        1 <= k < 8,
        open_run(g, f, r, dir_file(i), dir_rank(i), k),
        on_board(shift(f, dir_file(i), k), shift(r, dir_rank(i), k)),
        lands(g, side, mv(f, r, shift(f, dir_file(i), k), shift(r, dir_rank(i), k), kind)),
    ensures
        slide_ok(
            g,
            side,
            f,
            r,
            i,
            i + 1,
            mv(f, r, shift(f, dir_file(i), k), shift(r, dir_rank(i), k), kind),
        ),
{
    let df = dir_file(i);
    let dr = dir_rank(i);
    let tf = shift(f, df, k);
    let tr = shift(r, dr, k);
    assert(distance(f, r, tf, tr) == k);
    assert forall|j: int| 1 <= j < k implies #[trigger] along(g, f, r, tf, tr, j)
        == Piece::Empty by {
        assert(ahead(g, f, r, df, dr, j) == Piece::Empty);
        assert(shift(f, tf - f, j) == shift(f, df, j));
        assert(shift(r, tr - r, j) == shift(r, dr, j));
    }
}

/// Every move listed along a ray from its `k`-th square onwards runs
/// along that ray over empty squares, where the squares before are empty.
pub proof fn lemma_ray_rule(g: Seq<Piece>, side: ChessColor, f: int, r: int, i: int, k: int)
    requires
        on_board(f, r),
        0 <= i < 8,
        1 <= k,
        open_run(g, f, r, dir_file(i), dir_rank(i), k),
    ensures
        every(
            ray_moves(g, side, f, r, dir_file(i), dir_rank(i), k),
            |m: Move| slide_ok(g, side, f, r, i, i + 1, m),
        ),
    decreases 8 - k,
{
    let df = dir_file(i);
    let dr = dir_rank(i);
    let tf = shift(f, df, k);
    let tr = shift(r, dr, k);
    let pred = |m: Move| slide_ok(g, side, f, r, i, i + 1, m);
    let s = ray_moves(g, side, f, r, df, dr, k);
    if k >= 8 || !on_board(tf, tr) {
    } else if at(g, tf, tr) == Piece::Empty {
        let head = seq![mv(f, r, tf, tr, MoveKind::Normal)];
        lemma_ray_target(g, side, f, r, i, k, MoveKind::Normal);
        assert(pred(head[0]));
        assert(every(head, pred));
        assert forall|j: int| 1 <= j < k + 1 implies on_board(shift(f, df, j), shift(r, dr, j))
            && #[trigger] ahead(g, f, r, df, dr, j) == Piece::Empty by {
            if j < k {
                assert(ahead(g, f, r, df, dr, j) == Piece::Empty);
            }
        }
        lemma_ray_rule(g, side, f, r, i, k + 1);
        lemma_every_add(head, ray_moves(g, side, f, r, df, dr, k + 1), pred);
    } else if at(g, tf, tr).spec_color() != Some(side) {
        assert(at(g, tf, tr).spec_color() is Some);
        lemma_ray_target(g, side, f, r, i, k, MoveKind::Capture);
        assert(pred(s[0]));
    } else {
    }
}

/// Every move listed along the rays from `lo` up to `hi` runs along one
/// of them over empty squares.
pub proof fn lemma_slide_rule(g: Seq<Piece>, side: ChessColor, f: int, r: int, lo: int, hi: int)
    requires
        on_board(f, r),
        0 <= lo,
        hi <= 8,
    ensures
        every(slide_moves(g, side, f, r, lo, hi), |m: Move| slide_ok(g, side, f, r, lo, hi, m)),
    decreases hi - lo,
{
    if hi > lo {
        let pred = |m: Move| slide_ok(g, side, f, r, lo, hi, m);
        lemma_slide_rule(g, side, f, r, lo, hi - 1);
        lemma_ray_rule(g, side, f, r, hi - 1, 1);
        let a = slide_moves(g, side, f, r, lo, hi - 1);
        let b = ray_moves(g, side, f, r, dir_file(hi - 1), dir_rank(hi - 1), 1);
        lemma_every_weaken(a, |m: Move| slide_ok(g, side, f, r, lo, hi - 1, m), pred);
        lemma_every_weaken(b, |m: Move| slide_ok(g, side, f, r, hi - 1, hi, m), pred);
        lemma_every_add(a, b, pred);
    }
}

/// Every move listed among the first `n` steps or jumps is one of them.
pub proof fn lemma_hop_rule(g: Seq<Piece>, side: ChessColor, f: int, r: int, knight: bool, n: int)
    requires
        on_board(f, r),
        n <= 8,
    ensures
        every(hop_moves(g, side, f, r, knight, n), |m: Move| hop_ok(g, side, f, r, knight, n, m)),
    decreases n,
{
    if n > 0 {
        let pred = |m: Move| hop_ok(g, side, f, r, knight, n, m);
        lemma_hop_rule(g, side, f, r, knight, n - 1);
        let tf = f + (if knight {
            jump_file(n - 1)
        } else {
            dir_file(n - 1)
        });
        let tr = r + (if knight {
            jump_rank(n - 1)
        } else {
            dir_rank(n - 1)
        });
        let a = hop_moves(g, side, f, r, knight, n - 1);
        let b = step_to(g, side, f, r, tf, tr);
        lemma_every_weaken(a, |m: Move| hop_ok(g, side, f, r, knight, n - 1, m), pred);
        assert forall|j: int| 0 <= j < b.len() implies pred(#[trigger] b[j]) by {
            let t = at(g, tf, tr);
            if t != Piece::Empty {
                assert(t.spec_color() is Some);
            }
        }
        lemma_every_add(a, b, pred);
    }
}

/// Every move listed for a pawn is one that a pawn may make.
pub proof fn lemma_pawn_rule(
    g: Seq<Piece>,
    side: ChessColor,
    en_passant: Option<Square>,
    f: int,
    r: int,
)
    requires
        on_board(f, r),
    ensures
        every(
            pawn_moves(g, side, en_passant, f, r),
            |m: Move| leaves_from(f, r, m) && pawn_rule(g, side, en_passant, m),
        ),
{
    let pred = |m: Move| leaves_from(f, r, m) && pawn_rule(g, side, en_passant, m);
    let adv = pawn_advances(g, side, f, r);
    let west = pawn_capture(g, side, en_passant, f, r, f - 1);
    let east = pawn_capture(g, side, en_passant, f, r, f + 1);
    assert forall|j: int| 0 <= j < adv.len() implies pred(#[trigger] adv[j]) by {}
    assert forall|j: int| 0 <= j < west.len() implies pred(#[trigger] west[j]) by {}
    assert forall|j: int| 0 <= j < east.len() implies pred(#[trigger] east[j]) by {}
    lemma_every_add(adv, west, pred);
    lemma_every_add(adv + west, east, pred);
}

/// Every move in the list of one piece's moves leaves from that piece's
/// square and is pseudo-legal.
pub proof fn lemma_piece_moves_rule(p: PositionModel, f: int, r: int)
    requires
        on_board(f, r),
    ensures
        every(piece_moves(p, f, r), |m: Move| leaves_from(f, r, m) && pseudo_legal(p, m)),
{
    let g = p.grid;
    let side = p.side;
    let x = at(g, f, r);
    let pred = |m: Move| leaves_from(f, r, m) && pseudo_legal(p, m);
    if x.spec_color() == Some(side) {
        match x.spec_kind() {
            Some(PieceKind::King) => {
                lemma_hop_rule(g, side, f, r, false, 8);
                let hops = hop_moves(g, side, f, r, false, 8);
                let ks = castle_move(g, side, p.rights, f, r, CastleSide::KingSide);
                let qs = castle_move(g, side, p.rights, f, r, CastleSide::QueenSide);
                lemma_every_weaken(hops, |m: Move| hop_ok(g, side, f, r, false, 8, m), pred);
                assert forall|j: int| 0 <= j < ks.len() implies pred(#[trigger] ks[j]) by {
                    assert(castle_rule(p, ks[j]));
                }
                assert forall|j: int| 0 <= j < qs.len() implies pred(#[trigger] qs[j]) by {
                    assert(castle_rule(p, qs[j]));
                }
                lemma_every_add(hops, ks, pred);
                lemma_every_add(hops + ks, qs, pred);
            },
            Some(PieceKind::Queen) => {
                lemma_slide_rule(g, side, f, r, 0, 8);
                lemma_every_weaken(
                    slide_moves(g, side, f, r, 0, 8),
                    |m: Move| slide_ok(g, side, f, r, 0, 8, m),
                    pred,
                );
            },
            Some(PieceKind::Rook) => {
                lemma_slide_rule(g, side, f, r, 0, 4);
                lemma_every_weaken(
                    slide_moves(g, side, f, r, 0, 4),
                    |m: Move| slide_ok(g, side, f, r, 0, 4, m),
                    pred,
                );
            },
            Some(PieceKind::Bishop) => {
                lemma_slide_rule(g, side, f, r, 4, 8);
                lemma_every_weaken(
                    slide_moves(g, side, f, r, 4, 8),
                    |m: Move| slide_ok(g, side, f, r, 4, 8, m),
                    pred,
                );
            },
            Some(PieceKind::Knight) => {
                lemma_hop_rule(g, side, f, r, true, 8);
                lemma_every_weaken(
                    hop_moves(g, side, f, r, true, 8),
                    |m: Move| hop_ok(g, side, f, r, true, 8, m),
                    pred,
                );
            },
            Some(PieceKind::Pawn) => {
                lemma_pawn_rule(g, side, p.en_passant, f, r);
                lemma_every_weaken(
                    pawn_moves(g, side, p.en_passant, f, r),
                    |m: Move| leaves_from(f, r, m) && pawn_rule(g, side, p.en_passant, m),
                    pred,
                );
            },
            None => {},
        }
    }
}

proof fn lemma_moves_before_rule(p: PositionModel, n: int)
    requires
        n <= 64,
    ensures
        every(moves_before(p, n), |m: Move| pseudo_legal(p, m)),
    decreases n,
{
    if n > 0 {
        let pred = |m: Move| pseudo_legal(p, m);
        let f = (n - 1) % 8;
        let r = (n - 1) / 8;
        lemma_moves_before_rule(p, n - 1);
        lemma_piece_moves_rule(p, f, r);
        lemma_every_weaken(
            piece_moves(p, f, r),
            |m: Move| leaves_from(f, r, m) && pseudo_legal(p, m),
            pred,
        );
        lemma_every_add(moves_before(p, n - 1), piece_moves(p, f, r), pred);
    }
}

/// Every move in the list of pseudo-legal moves is one that the rules of
/// movement allow.
pub proof fn lemma_listed_moves_follow_the_rules(p: PositionModel, m: Move)
    requires
        pseudo_moves(p).contains(m),
    ensures
        pseudo_legal(p, m),
{
    lemma_moves_before_rule(p, 64);
    let s = pseudo_moves(p);
    let i = choose|i: int| 0 <= i < s.len() && s[i] == m;
    assert((|x: Move| pseudo_legal(p, x))(s[i]));
}

proof fn lemma_contains_left(a: Seq<Move>, b: Seq<Move>, m: Move)
    requires
        a.contains(m),
    ensures
        (a + b).contains(m),
{
    let i = choose|i: int| 0 <= i < a.len() && a[i] == m;
    assert((a + b)[i] == m);
}

proof fn lemma_contains_right(a: Seq<Move>, b: Seq<Move>, m: Move)
    requires
        b.contains(m),
    ensures
        (a + b).contains(m),
{
    let i = choose|i: int| 0 <= i < b.len() && b[i] == m;
    assert((a + b)[a.len() + i] == m);
}

proof fn lemma_ray_holds(
    g: Seq<Piece>,
    side: ChessColor,
    f: int,
    r: int,
    i: int,
    k: int,
    j: int,
    kind: MoveKind,
)
    requires
        on_board(f, r),
        0 <= i < 8,
        1 <= k <= j < 8,
        open_run(g, f, r, dir_file(i), dir_rank(i), j),
        on_board(shift(f, dir_file(i), j), shift(r, dir_rank(i), j)),
        lands(g, side, mv(f, r, shift(f, dir_file(i), j), shift(r, dir_rank(i), j), kind)),
    ensures
        ray_moves(g, side, f, r, dir_file(i), dir_rank(i), k).contains(
            mv(f, r, shift(f, dir_file(i), j), shift(r, dir_rank(i), j), kind),
        ),
    decreases j - k,
{
    let df = dir_file(i);
    let dr = dir_rank(i);
    let m = mv(f, r, shift(f, df, j), shift(r, dr, j), kind);
    let s = ray_moves(g, side, f, r, df, dr, k);
    let kf = shift(f, df, k);
    let kr = shift(r, dr, k);
    if k == j {
        let t = at(g, kf, kr);
        if t == Piece::Empty {
            assert(s[0] == m);
        } else {
            assert(s[0] == m);
        }
    } else {
        assert(ahead(g, f, r, df, dr, k) == Piece::Empty);
        lemma_ray_holds(g, side, f, r, i, k + 1, j, kind);
        lemma_contains_right(
            seq![mv(f, r, kf, kr, MoveKind::Normal)],
            ray_moves(g, side, f, r, df, dr, k + 1),
            m,
        );
    }
}

proof fn lemma_slide_holds(
    g: Seq<Piece>,
    side: ChessColor,
    f: int,
    r: int,
    lo: int,
    hi: int,
    i: int,
    m: Move,
)
    requires
        lo <= i < hi,
        ray_moves(g, side, f, r, dir_file(i), dir_rank(i), 1).contains(m),
    ensures
        slide_moves(g, side, f, r, lo, hi).contains(m),
    decreases hi - lo,
{
    let a = slide_moves(g, side, f, r, lo, hi - 1);
    let b = ray_moves(g, side, f, r, dir_file(hi - 1), dir_rank(hi - 1), 1);
    if i == hi - 1 {
        lemma_contains_right(a, b, m);
    } else {
        lemma_slide_holds(g, side, f, r, lo, hi - 1, i, m);
        lemma_contains_left(a, b, m);
    }
}

proof fn lemma_hop_holds(
    g: Seq<Piece>,
    side: ChessColor,
    f: int,
    r: int,
    knight: bool,
    n: int,
    i: int,
    m: Move,
)
    requires
        0 <= i < n,
        step_to(
            g,
            side,
            f,
            r,
            f + (if knight {
                jump_file(i)
            } else {
                dir_file(i)
            }),
            r + (if knight {
                jump_rank(i)
            } else {
                dir_rank(i)
            }),
        ).contains(m),
    ensures
        hop_moves(g, side, f, r, knight, n).contains(m),
    decreases n,
{
    let a = hop_moves(g, side, f, r, knight, n - 1);
    let b = step_to(
        g,
        side,
        f,
        r,
        f + (if knight {
            jump_file(n - 1)
        } else {
            dir_file(n - 1)
        }),
        r + (if knight {
            jump_rank(n - 1)
        } else {
            dir_rank(n - 1)
        }),
    );
    if i == n - 1 {
        lemma_contains_right(a, b, m);
    } else {
        lemma_hop_holds(g, side, f, r, knight, n - 1, i, m);
        lemma_contains_left(a, b, m);
    }
}

proof fn lemma_line_holds(g: Seq<Piece>, side: ChessColor, lo: int, hi: int, m: Move)
    requires
        m.valid(),
        lands(g, side, m),
        on_rook_line(m.from.file as int, m.from.rank as int, m.to.file as int, m.to.rank as int)
            || on_bishop_line(
            m.from.file as int,
            m.from.rank as int,
            m.to.file as int,
            m.to.rank as int,
        ),
        clear_between(
            g,
            m.from.file as int,
            m.from.rank as int,
            m.to.file as int,
            m.to.rank as int,
        ),
        lo <= dir_index(m.to.file - m.from.file, m.to.rank - m.from.rank) < hi,
    ensures
        slide_moves(g, side, m.from.file as int, m.from.rank as int, lo, hi).contains(m),
{
    let f = m.from.file as int;
    let r = m.from.rank as int;
    let tf = m.to.file as int;
    let tr = m.to.rank as int;
    let i = dir_index(tf - f, tr - r);
    let df = dir_file(i);
    let dr = dir_rank(i);
    let j = distance(f, r, tf, tr);
    assert(tf == shift(f, df, j));
    assert(tr == shift(r, dr, j));
    assert forall|k: int| 1 <= k < j implies on_board(shift(f, df, k), shift(r, dr, k))
        && #[trigger] ahead(g, f, r, df, dr, k) == Piece::Empty by {
        assert(along(g, f, r, tf, tr, k) == Piece::Empty);
        assert(shift(f, tf - f, k) == shift(f, df, k));
        assert(shift(r, tr - r, k) == shift(r, dr, k));
    }
    assert(m == mv(f, r, tf, tr, m.kind));
    lemma_ray_holds(g, side, f, r, i, 1, j, m.kind);
    lemma_slide_holds(g, side, f, r, lo, hi, i, m);
}

proof fn lemma_step_holds(g: Seq<Piece>, side: ChessColor, knight: bool, m: Move)
    requires
        m.valid(),
        lands(g, side, m),
        if knight {
            knight_jump(m.from.file as int, m.from.rank as int, m.to.file as int, m.to.rank as int)
        } else {
            distance(m.from.file as int, m.from.rank as int, m.to.file as int, m.to.rank as int)
                == 1
        },
    ensures
        hop_moves(g, side, m.from.file as int, m.from.rank as int, knight, 8).contains(m),
{
    let f = m.from.file as int;
    let r = m.from.rank as int;
    let tf = m.to.file as int;
    let tr = m.to.rank as int;
    let i = if knight {
        jump_index(tf - f, tr - r)
    } else {
        dir_index(tf - f, tr - r)
    };
    assert(0 <= i < 8);
    let s = step_to(g, side, f, r, tf, tr);
    assert(m == mv(f, r, tf, tr, m.kind));
    assert(s[0] == m);
    assert(tf == f + (if knight {
        jump_file(i)
    } else {
        dir_file(i)
    }));
    assert(tr == r + (if knight {
        jump_rank(i)
    } else {
        dir_rank(i)
    }));
    lemma_hop_holds(g, side, f, r, knight, 8, i, m);
}

proof fn lemma_pawn_holds(g: Seq<Piece>, side: ChessColor, en_passant: Option<Square>, m: Move)
    requires
        m.valid(),
        pawn_rule(g, side, en_passant, m),
    ensures
        pawn_moves(g, side, en_passant, m.from.file as int, m.from.rank as int).contains(m),
{
    let f = m.from.file as int;
    let r = m.from.rank as int;
    let tf = m.to.file as int;
    let tr = m.to.rank as int;
    let adv = pawn_advances(g, side, f, r);
    let west = pawn_capture(g, side, en_passant, f, r, f - 1);
    let east = pawn_capture(g, side, en_passant, f, r, f + 1);
    assert(m == mv(f, r, tf, tr, m.kind));
    assert(m.to == square_at(tf, tr));
    if tf == f {
        lemma_listed(adv, m);
        lemma_contains_left(adv, west, m);
        lemma_contains_left(adv + west, east, m);
    } else if tf == f - 1 {
        lemma_listed(west, m);
        lemma_contains_right(adv, west, m);
        lemma_contains_left(adv + west, east, m);
    } else {
        lemma_listed(east, m);
        lemma_contains_right(adv + west, east, m);
    }
}

proof fn lemma_listed(s: Seq<Move>, m: Move)
    requires
        (s.len() > 0 && s[0] == m) || (s.len() > 1 && s[1] == m) || (s.len() > 2 && s[2] == m) || (
        s.len() > 3 && s[3] == m),
    ensures
        s.contains(m),
{
}

/// Every pseudo-legal move of a piece is in the list of that piece's moves.
pub proof fn lemma_piece_moves_hold(p: PositionModel, m: Move)
    requires
        pseudo_legal(p, m),
    ensures
        piece_moves(p, m.from.file as int, m.from.rank as int).contains(m),
{
    let g = p.grid;
    let side = p.side;
    let f = m.from.file as int;
    let r = m.from.rank as int;
    let x = at(g, f, r);
    match x.spec_kind() {
        Some(PieceKind::King) => {
            let hops = hop_moves(g, side, f, r, false, 8);
            let ks = castle_move(g, side, p.rights, f, r, CastleSide::KingSide);
            let qs = castle_move(g, side, p.rights, f, r, CastleSide::QueenSide);
            if castle_rule(p, m) {
                assert(m == mv(f, r, m.to.file as int, r, m.kind));
                match m.kind {
                    MoveKind::Castle(CastleSide::KingSide) => {
                        assert(ks[0] == m);
                        lemma_contains_right(hops, ks, m);
                        lemma_contains_left(hops + ks, qs, m);
                    },
                    MoveKind::Castle(CastleSide::QueenSide) => {
                        assert(qs[0] == m);
                        lemma_contains_right(hops + ks, qs, m);
                    },
                    _ => {},
                }
            } else {
                lemma_step_holds(g, side, false, m);
                lemma_contains_left(hops, ks, m);
                lemma_contains_left(hops + ks, qs, m);
            }
        },
        Some(PieceKind::Queen) => {
            lemma_line_holds(g, side, 0, 8, m);
        },
        Some(PieceKind::Rook) => {
            lemma_line_holds(g, side, 0, 4, m);
        },
        Some(PieceKind::Bishop) => {
            lemma_line_holds(g, side, 4, 8, m);
        },
        Some(PieceKind::Knight) => {
            lemma_step_holds(g, side, true, m);
        },
        Some(PieceKind::Pawn) => {
            lemma_pawn_holds(g, side, p.en_passant, m);
        },
        None => {},
    }
}

proof fn lemma_moves_before_hold(p: PositionModel, n: int, i: int, m: Move)
    requires
        0 <= i < n,
        piece_moves(p, i % 8, i / 8).contains(m),
    ensures
        moves_before(p, n).contains(m),
    decreases n,
{
    let a = moves_before(p, n - 1);
    let b = piece_moves(p, (n - 1) % 8, (n - 1) / 8);
    if i == n - 1 {
        lemma_contains_right(a, b, m);
    } else {
        lemma_moves_before_hold(p, n - 1, i, m);
        lemma_contains_left(a, b, m);
    }
}

/// Every move that the rules of movement allow is in the list of
/// pseudo-legal moves.
pub proof fn lemma_moves_by_the_rules_are_listed(p: PositionModel, m: Move)
    requires
        pseudo_legal(p, m),
    ensures
        pseudo_moves(p).contains(m),
{
    let f = m.from.file as int;
    let r = m.from.rank as int;
    let i = r * 8 + f;
    lemma_piece_moves_hold(p, m);
    assert(i % 8 == f && i / 8 == r);
    lemma_moves_before_hold(p, 64, i, m);
}

/// The list of pseudo-legal moves holds exactly the moves that the rules
/// of movement allow.
pub proof fn lemma_listing_is_exact(p: PositionModel, m: Move)
    ensures
        pseudo_moves(p).contains(m) <==> pseudo_legal(p, m),
{
    if pseudo_moves(p).contains(m) {
        lemma_listed_moves_follow_the_rules(p, m);
    }
    if pseudo_legal(p, m) {
        lemma_moves_by_the_rules_are_listed(p, m);
    }
}

} // verus!
