//! One king of each colour: what holds of the board at the start of a game
//! and after every legal move.

use crate::attack::attacked;
use crate::attack::attacks_from;
use crate::attack::in_check;
use crate::attack::king_attacked_on;
use crate::board::at;
use crate::board::is_starting_grid;
use crate::board::lemma_at_put;
use crate::board::starting_piece;
use crate::legal::is_legal;
use crate::legal::lemma_legal_is_exact;
use crate::moves::Move;
use crate::piece::ChessColor;
use crate::piece::Piece;
use crate::position::PositionModel;
use crate::position::grid_after;
use crate::rules::pseudo_legal;
use crate::sound::lemma_rule_sound;
use crate::square::on_board;
use crate::state::GameModel;
use crate::state::lemma_undo_restores;
use crate::types::PieceKind;
use vstd::prelude::*;

verus! {

/// Whether the king of the given colour stands on `(f, r)` and on no
/// other square.
pub open spec fn sole_king_at(g: Seq<Piece>, color: ChessColor, f: int, r: int) -> bool {
    &&& on_board(f, r)
    &&& at(g, f, r) == Piece::spec_of(color, PieceKind::King)
    &&& forall|f2: int, r2: int|
        on_board(f2, r2) && #[trigger] at(g, f2, r2) == Piece::spec_of(color, PieceKind::King)
            ==> f2 == f && r2 == r
}

/// Whether exactly one king of the given colour stands on the board.
pub open spec fn has_one_king(g: Seq<Piece>, color: ChessColor) -> bool {
    exists|f: int, r: int| sole_king_at(g, color, f, r)
}

/// Whether a position is one of normal play: the board holds exactly one
/// king of each colour, and the side that has just moved has not left its
/// king attacked.
pub open spec fn settled(p: PositionModel) -> bool {
    &&& p.grid.len() == 64
    &&& has_one_king(p.grid, ChessColor::White)
    &&& has_one_king(p.grid, ChessColor::Black)
    &&& !in_check(p.grid, p.side.spec_opposite())
}

/// No pseudo-legal move takes a king, where the side that is not to move
/// is not in check.
pub proof fn lemma_no_king_is_taken(p: PositionModel, m: Move)
    requires
        !in_check(p.grid, p.side.spec_opposite()),
        pseudo_legal(p, m),
    ensures
        at(p.grid, m.to.file as int, m.to.rank as int).spec_kind() != Some(PieceKind::King),
{
    let g = p.grid;
    let f = m.from.file as int;
    let r = m.from.rank as int;
    let tf = m.to.file as int;
    let tr = m.to.rank as int;
    let t = at(g, tf, tr);
    let enemy = p.side.spec_opposite();
    lemma_rule_sound(p, m);
    if t.spec_kind() == Some(PieceKind::King) {
        assert(t.spec_color() == Some(enemy));
        assert(t == Piece::spec_of(enemy, PieceKind::King));
        assert(attacks_from(g, p.side, f, r, tf, tr));
        assert(attacked(g, p.side, tf, tr));
        assert(king_attacked_on(g, enemy, tf, tr));
        assert(in_check(g, enemy));
    }
}

proof fn lemma_king_of_other_side_stays(p: PositionModel, m: Move, kf: int, kr: int)
    requires
        p.grid.len() == 64,
        !in_check(p.grid, p.side.spec_opposite()),
        pseudo_legal(p, m),
        sole_king_at(p.grid, p.side.spec_opposite(), kf, kr),
    ensures
        sole_king_at(grid_after(p.grid, p.side, m), p.side.spec_opposite(), kf, kr),
{
    broadcast use lemma_at_put;

    let g = p.grid;
    let enemy = p.side.spec_opposite();
    let king = Piece::spec_of(enemy, PieceKind::King);
    let after = grid_after(g, p.side, m);
    lemma_rule_sound(p, m);
    lemma_no_king_is_taken(p, m);
    assert(at(after, kf, kr) == king);
    assert forall|f2: int, r2: int| on_board(f2, r2) && #[trigger] at(after, f2, r2)
        == king implies f2 == kf && r2 == kr by {
        if at(g, f2, r2) != at(after, f2, r2) {
            assert(at(after, f2, r2).spec_color() != Some(enemy));
        } else {
            assert(at(g, f2, r2) == king);
        }
    }
}

proof fn lemma_king_of_mover_stays(p: PositionModel, m: Move, kf: int, kr: int)
    requires
        p.grid.len() == 64,
        pseudo_legal(p, m),
        sole_king_at(p.grid, p.side, kf, kr),
    ensures
        has_one_king(grid_after(p.grid, p.side, m), p.side),
{
    broadcast use lemma_at_put;

    let g = p.grid;
    let king = Piece::spec_of(p.side, PieceKind::King);
    let after = grid_after(g, p.side, m);
    let f = m.from.file as int;
    let r = m.from.rank as int;
    let tf = m.to.file as int;
    let tr = m.to.rank as int;
    lemma_rule_sound(p, m);
    if at(g, f, r) == king {
        assert(f == kf && r == kr);
        assert(at(after, tf, tr) == king);
        assert forall|f2: int, r2: int| on_board(f2, r2) && #[trigger] at(after, f2, r2)
            == king implies f2 == tf && r2 == tr by {
            if !(f2 == tf && r2 == tr) {
                if at(g, f2, r2) == at(after, f2, r2) {
                    assert(at(g, f2, r2) == king);
                }
            }
        }
        assert(sole_king_at(after, p.side, tf, tr));
    } else {
        assert(!(f == kf && r == kr));
        assert(at(after, kf, kr) == king);
        assert forall|f2: int, r2: int| on_board(f2, r2) && #[trigger] at(after, f2, r2)
            == king implies f2 == kf && r2 == kr by {
            if at(g, f2, r2) == at(after, f2, r2) {
                assert(at(g, f2, r2) == king);
            }
        }
        assert(sole_king_at(after, p.side, kf, kr));
    }
}

/// The position at the start of a game is one of normal play.
pub proof fn lemma_start_is_settled(p: PositionModel)
    requires
        is_starting_grid(p.grid),
        p.side == ChessColor::White,
    ensures
        settled(p),
{
    let g = p.grid;
    assert(at(g, 4, 0) == Piece::WhiteKing);
    assert(at(g, 4, 7) == Piece::BlackKing);
    assert(sole_king_at(g, ChessColor::White, 4, 0));
    assert(sole_king_at(g, ChessColor::Black, 4, 7));
    assert forall|f: int, r: int| on_board(f, r) implies !#[trigger] king_attacked_on(
        g,
        ChessColor::Black,
        f,
        r,
    ) by {
        if at(g, f, r) == Piece::BlackKing {
            assert(f == 4 && r == 7);
            assert forall|a: int, b: int| on_board(a, b) implies !#[trigger] attacks_from(
                g,
                ChessColor::White,
                a,
                b,
                4,
                7,
            ) by {
                assert(at(g, a, b) == starting_piece(a, b));
            }
        }
    }
}

/// A legal move leads from a position of normal play to a position of
/// normal play: the board keeps exactly one king of each colour, and the
/// mover's king is not attacked.
pub proof fn lemma_legal_move_keeps_settled(p: PositionModel, m: Move)
    requires
        settled(p),
        is_legal(p, m),
    ensures
        settled(p.after(m)),
{
    broadcast use lemma_at_put;

    lemma_legal_is_exact(p, m);
    let enemy = p.side.spec_opposite();
    let (kf, kr) = choose|kf: int, kr: int| sole_king_at(p.grid, p.side, kf, kr);
    let (of, or) = choose|of: int, or: int| sole_king_at(p.grid, enemy, of, or);
    lemma_king_of_mover_stays(p, m, kf, kr);
    lemma_king_of_other_side_stays(p, m, of, or);
    assert(p.after(m).side.spec_opposite() == p.side);
}

/// Whether a game has come about by play: its history, taken back move by
/// move, leads to a position of normal play, and each move of it was
/// applied, not refused, to the game before it.
pub open spec fn traced(s: GameModel) -> bool
    decreases s.history.len(),
{
    if s.history.len() == 0 {
        settled(s.position)
    } else {
        let before = s.undone();
        &&& traced(before)
        &&& before.wf()
        &&& before.refusal(s.history.last().mv) is None
        &&& before.applied(s.history.last().mv) == s
    }
}

/// A game that has come about by play is in a position of normal play:
/// its board holds exactly one king of each colour, and the side that has
/// just moved has not left its king attacked.
pub proof fn lemma_traced_is_settled(s: GameModel)
    requires
        traced(s),
    ensures
        settled(s.position),
    decreases s.history.len(),
{
    if s.history.len() > 0 {
        let before = s.undone();
        lemma_traced_is_settled(before);
        lemma_legal_move_keeps_settled(before.position, s.history.last().mv);
    }
}

/// Applying a move to a game that has come about by play gives a game that
/// has come about by play.
pub proof fn lemma_applied_is_traced(s: GameModel, m: Move)
    requires
        s.wf(),
        traced(s),
        s.refusal(m) is None,
    ensures
        traced(s.applied(m)),
{
    lemma_undo_restores(s, m);
    let t = s.applied(m);
    assert(t.history.last().mv == m);
}

/// Whether each move of a list, made in turn from a game, is applied and
/// not refused.
pub open spec fn playable(s: GameModel, ms: Seq<Move>) -> bool
    decreases ms.len(),
{
    ms.len() == 0 || (playable(s, ms.drop_last()) && s.played(ms.drop_last()).refusal(ms.last())
        is None)
}

/// Normal play stays normal play: after any list of moves that are
/// applied in turn to a game that starts from a position of normal play,
/// the board holds exactly one king of each colour.
pub proof fn lemma_play_keeps_settled(s: GameModel, ms: Seq<Move>)
    requires
        settled(s.position),
        playable(s, ms),
    ensures
        settled(s.played(ms).position),
    decreases ms.len(),
{
    if ms.len() > 0 {
        lemma_play_keeps_settled(s, ms.drop_last());
        lemma_legal_move_keeps_settled(s.played(ms.drop_last()).position, ms.last());
    }
}

} // verus!
