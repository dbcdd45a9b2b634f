//! Legal moves: the pseudo-legal moves that do not leave the mover's own
//! king attacked.

use crate::attack::in_check;
use crate::attack::king_in_check;
use crate::listing::leaves_from;
use crate::listing::lemma_listing_is_exact;
use crate::listing::lemma_piece_moves_hold;
use crate::listing::lemma_piece_moves_rule;
use crate::movegen::piece_moves;
use crate::movegen::pseudo_moves;
use crate::moves::Move;
use crate::order::in_scan_order;
use crate::order::lemma_legal_listing_is_ordered;
use crate::position::Position;
use crate::position::PositionModel;
use crate::position::grid_after;
use crate::position::play_on_board;
use crate::rules::pseudo_legal;
use crate::sound::all_sound;
use crate::sound::lemma_piece_moves_sound;
use crate::sound::lemma_pseudo_moves_sound;
use crate::sound::sound;
use crate::square::Square;
use crate::square::on_board;
use crate::square::square_at;
use vstd::prelude::*;

verus! {

/// Whether the side to move, having made the move, has no king on an
/// attacked square.
pub open spec fn is_safe(p: PositionModel, m: Move) -> bool {
    !in_check(grid_after(p.grid, p.side, m), p.side)
}

/// The moves of a list that leave the mover's king safe, in the list's order.
pub open spec fn safe_moves(p: PositionModel, s: Seq<Move>) -> Seq<Move> {
    s.filter(|m: Move| is_safe(p, m))
}

/// All legal moves of the side to move, in the order in which the
/// pseudo-legal moves are listed.
pub open spec fn legal_moves(p: PositionModel) -> Seq<Move> {
    safe_moves(p, pseudo_moves(p))
}

/// The legal moves of the piece on `(f, r)`.
pub open spec fn legal_moves_from(p: PositionModel, f: int, r: int) -> Seq<Move> {
    safe_moves(p, piece_moves(p, f, r))
}

/// Whether a move is legal in a position.
pub open spec fn is_legal(p: PositionModel, m: Move) -> bool {
    legal_moves(p).contains(m)
}

/// A legal move is a pseudo-legal move that leaves the king safe, and the
/// other way round.
pub proof fn lemma_legal_iff(p: PositionModel, m: Move)
    ensures
        is_legal(p, m) <==> pseudo_moves(p).contains(m) && is_safe(p, m),
{
    let pred = |x: Move| is_safe(p, x);
    let s = pseudo_moves(p);
    if is_legal(p, m) {
        let i = choose|i: int| 0 <= i < s.filter(pred).len() && s.filter(pred)[i] == m;
        s.lemma_filter_pred(pred, i);
        s.lemma_filter_contains_rev(pred, m);
    }
    if s.contains(m) && is_safe(p, m) {
        let i = choose|i: int| 0 <= i < s.len() && s[i] == m;
        assert(pred(s[i]));
        s.lemma_filter_contains(pred, i);
    }
}

/// The legal moves are exactly the moves that the rules of movement allow
/// and that leave the mover's king safe.
pub proof fn lemma_legal_is_exact(p: PositionModel, m: Move)
    ensures
        is_legal(p, m) <==> pseudo_legal(p, m) && is_safe(p, m),
{
    lemma_legal_iff(p, m);
    lemma_listing_is_exact(p, m);
}

/// The legal moves of the piece on a square are exactly the legal moves
/// that leave from that square.
pub proof fn lemma_legal_moves_from_are_exact(p: PositionModel, f: int, r: int, m: Move)
    requires
        on_board(f, r),
    ensures
        legal_moves_from(p, f, r).contains(m) <==> is_legal(p, m) && m.from == square_at(f, r),
{
    let pred = |x: Move| is_safe(p, x);
    let s = piece_moves(p, f, r);
    lemma_legal_is_exact(p, m);
    lemma_piece_moves_rule(p, f, r);
    if s.filter(pred).contains(m) {
        let i = choose|i: int| 0 <= i < s.filter(pred).len() && s.filter(pred)[i] == m;
        s.lemma_filter_pred(pred, i);
        s.lemma_filter_contains_rev(pred, m);
        let j = choose|j: int| 0 <= j < s.len() && s[j] == m;
        assert((|x: Move| leaves_from(f, r, x) && pseudo_legal(p, x))(s[j]));
    }
    if is_legal(p, m) && m.from == square_at(f, r) {
        lemma_piece_moves_hold(p, m);
        let j = choose|j: int| 0 <= j < s.len() && s[j] == m;
        assert(pred(s[j]));
        s.lemma_filter_contains(pred, j);
    }
}

/// Every legal move fits the position: its squares lie on the board, a
/// piece of the side to move stands on its origin, and the squares that
/// its kind speaks of hold what the kind says.
pub proof fn lemma_legal_sound(p: PositionModel, m: Move)
    requires
        is_legal(p, m),
    ensures
        sound(p.grid, p.side, m),
        is_safe(p, m),
{
    lemma_legal_iff(p, m);
    lemma_pseudo_moves_sound(p);
    let s = pseudo_moves(p);
    let i = choose|i: int| 0 <= i < s.len() && s[i] == m;
    assert(sound(p.grid, p.side, s[i]));
}

impl Position {
    /// Whether a move leaves the mover's king safe.
    pub fn leaves_king_safe(&self, m: &Move) -> (safe: bool)
        requires
            m.valid(),
        ensures
            safe == is_safe(self@, *m),
    {
        let mut scratch = self.board;
        let _ = play_on_board(&mut scratch, self.side_to_move, m);
        !king_in_check(&scratch, self.side_to_move)
    }

    /// The moves of a list of moves that fit the position which leave the
    /// mover's king safe.
    fn keep_safe(&self, moves: &Vec<Move>) -> (out: Vec<Move>)
        requires
            all_sound(self@.grid, self@.side, moves@),
        ensures
            out@ == safe_moves(self@, moves@),
            all_sound(self@.grid, self@.side, out@),
    {
        let ghost pred = |m: Move| is_safe(self@, m);
        let mut out: Vec<Move> = Vec::new();
        let mut i: usize = 0;
        proof {
            reveal(Seq::filter);
            assert(moves@.take(0) =~= Seq::<Move>::empty());
        }
        while i < moves.len()
            invariant
                i <= moves@.len(),
                pred == (|m: Move| is_safe(self@, m)),
                all_sound(self@.grid, self@.side, moves@),
                all_sound(self@.grid, self@.side, out@),
                out@ == moves@.take(i as int).filter(pred),
            decreases moves@.len() - i,
        {
            let m = moves[i];
            assert(sound(self@.grid, self@.side, moves@[i as int]));
            let keep = self.leaves_king_safe(&m);
            proof {
                reveal(Seq::filter);
                let next = moves@.take(i + 1);
                assert(next.drop_last() =~= moves@.take(i as int));
                assert(next.last() == m);
            }
            if keep {
                out.push(m);
            }
            i += 1;
        }
        assert(moves@.take(moves@.len() as int) =~= moves@);
        out
    }

    /// All legal moves of the side to move: the moves that the rules of
    /// movement allow and that leave the mover's king safe, in the order
    /// of the list of pseudo-legal moves.
    pub fn legal_moves(&self) -> (out: Vec<Move>)
        ensures
            out@ == legal_moves(self@),
            forall|m: Move| out@.contains(m) <==> pseudo_legal(self@, m) && is_safe(self@, m),
            out@.no_duplicates(),
            in_scan_order(out@),
            all_sound(self@.grid, self@.side, out@),
    {
        let pseudo = self.pseudo_moves();
        proof {
            lemma_pseudo_moves_sound(self@);
            lemma_legal_listing_is_ordered(self@);
            assert forall|m: Move|
                legal_moves(self@).contains(m) <==> pseudo_legal(self@, m) && is_safe(
                    self@,
                    m,
                ) by {
                lemma_legal_is_exact(self@, m);
            }
        }
        self.keep_safe(&pseudo)
    }

    /// The legal moves of the piece on a square.
    pub fn legal_moves_from(&self, from: Square) -> (out: Vec<Move>)
        requires
            from.valid(),
        ensures
            out@ == legal_moves_from(self@, from.file as int, from.rank as int),
            all_sound(self@.grid, self@.side, out@),
    {
        let pseudo = self.piece_moves(from);
        proof {
            lemma_piece_moves_sound(self@, from.file as int, from.rank as int);
        }
        self.keep_safe(&pseudo)
    }

    /// Whether the side to move has a king on an attacked square.
    pub fn in_check(&self) -> (check: bool)
        ensures
            check == in_check(self@.grid, self@.side),
    {
        king_in_check(&self.board, self.side_to_move)
    }
}

} // verus!
