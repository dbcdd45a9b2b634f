//! The mathematical model of a game and of its transitions, and the laws
//! that hold of them.

use crate::attack::forward;
use crate::board::at;
use crate::board::is_starting_grid;
use crate::board::lemma_at_put;
use crate::legal::is_legal;
use crate::legal::legal_moves;
use crate::legal::lemma_legal_sound;
use crate::moves::CastlingRights;
use crate::moves::Move;
use crate::moves::MoveKind;
use crate::piece::ChessColor;
use crate::piece::Piece;
use crate::position::PositionModel;
use crate::position::captured_by;
use crate::position::grid_after;
use crate::position::grid_before;
use crate::sound::sound;
use crate::square::Square;
use crate::square::on_board;
use crate::status::Status;
use crate::status::status_of;
use crate::types::PieceKind;
use vstd::prelude::*;

verus! {

/// Why a move was not made.
#[derive(Copy, Clone, Debug, PartialEq, Eq, Structural)]
pub enum MoveError {
    /// The move is not among the legal moves.
    IllegalMove,
    /// The text does not name two squares, with or without a promotion letter.
    MalformedNotation,
    /// The origin square is empty.
    NoPieceAtOrigin,
    /// The game is over.
    GameAlreadyOver,
    /// A pawn would reach the farthest rank and no promotion kind was given.
    AmbiguousPromotion,
}

impl MoveError {
    /// The words that say why a move was not made.
    pub open spec fn spec_message(self) -> Seq<char> {
        match self {
            MoveError::IllegalMove => "illegal move"@,
            MoveError::MalformedNotation => "malformed notation"@,
            MoveError::NoPieceAtOrigin => "no piece at origin"@,
            MoveError::GameAlreadyOver => "game already over"@,
            MoveError::AmbiguousPromotion => "ambiguous promotion"@,
        }
    }

    /// The words that say why a move was not made.
    pub fn message(&self) -> (s: &'static str)
        ensures
            s@ == self.spec_message(),
    {
        match *self {
            MoveError::IllegalMove => "illegal move",
            MoveError::MalformedNotation => "malformed notation",
            MoveError::NoPieceAtOrigin => "no piece at origin",
            MoveError::GameAlreadyOver => "game already over",
            MoveError::AmbiguousPromotion => "ambiguous promotion",
        }
    }
}

/// What is kept of an applied move so that it can be taken back.
#[derive(Copy, Clone, Debug)]
pub struct UndoRecord {
    pub mv: Move,
    pub captured: Piece,
    pub prior_rights: CastlingRights,
    pub prior_en_passant: Option<Square>,
    pub prior_halfmove: u32,
}

impl UndoRecord {
    /// Whether the record's move and en passant target lie on the board
    /// and its clock is at most 100.
    pub open spec fn valid(self) -> bool {
        &&& self.mv.valid()
        &&& self.prior_en_passant matches Some(q) ==> q.valid()
        &&& self.prior_halfmove <= 100
    }
}

/// The model of a game.
pub struct GameModel {
    pub position: PositionModel,
    pub halfmove_clock: int,
    pub fullmove_number: int,
    pub history: Seq<UndoRecord>,
}

/// Whether Black made the first of `plies` moves after which `side` is to move.
pub open spec fn black_began(side: ChessColor, plies: int) -> bool {
    (side == ChessColor::Black) == (plies % 2 == 0)
}

/// The number of the current full move after `plies` moves with `side` to
/// move: it starts at 1 and goes up after each move of Black.
pub open spec fn fullmove_at(side: ChessColor, plies: int) -> int {
    1 + (plies + (if black_began(side, plies) {
        1int
    } else {
        0int
    })) / 2
}

/// Whether a request for a move between two squares, with or without a
/// promotion kind, asks for this move: a promotion is asked for by naming
/// its kind, any other move by naming none.
pub open spec fn asks_for(m: Move, from: Square, to: Square, promotion: Option<PieceKind>) -> bool {
    &&& m.from == from
    &&& m.to == to
    &&& match m.kind {
        MoveKind::Promotion(k) => promotion == Some(k),
        _ => promotion is None,
    }
}

/// Whether `i` is the place of the first move of a list that a request asks for.
pub open spec fn first_asked(
    s: Seq<Move>,
    from: Square,
    to: Square,
    promotion: Option<PieceKind>,
    i: int,
) -> bool {
    &&& 0 <= i < s.len()
    &&& asks_for(s[i], from, to, promotion)
    &&& forall|j: int| 0 <= j < i ==> !asks_for(#[trigger] s[j], from, to, promotion)
}

/// The promotion to the given kind between two squares.
pub open spec fn promotion_move(from: Square, to: Square, k: PieceKind) -> Move {
    Move { from, to, kind: MoveKind::Promotion(k) }
}

/// Whether some promotion between the two squares is legal.
pub open spec fn promotes(p: PositionModel, from: Square, to: Square) -> bool {
    exists|k: PieceKind| is_legal(p, #[trigger] promotion_move(from, to, k))
}

impl GameModel {
    /// Whether the model is one of a game: the position is valid, every
    /// move of the history lies on the board, the clock of the fifty-move
    /// rule lies between 0 and 100, and the full-move number fits the
    /// number of moves made.
    pub open spec fn wf(self) -> bool {
        &&& self.position.valid()
        &&& forall|i: int| 0 <= i < self.history.len() ==> (#[trigger] self.history[i]).valid()
        &&& 0 <= self.halfmove_clock <= 100
        &&& self.fullmove_number == fullmove_at(self.position.side, self.history.len() as int)
    }

    /// The state of the game.
    pub open spec fn status(self) -> Status {
        status_of(self.position, self.halfmove_clock)
    }

    /// Whether a move sets the clock of the fifty-move rule back to 0: it
    /// captures, or it is a pawn's move.
    pub open spec fn resets_clock(self, m: Move) -> bool {
        captured_by(self.position.grid, m) != Piece::Empty || at(
            self.position.grid,
            m.from.file as int,
            m.from.rank as int,
        ).spec_kind() == Some(PieceKind::Pawn)
    }

    /// The record that applying a move adds to the history.
    pub open spec fn record_of(self, m: Move) -> UndoRecord {
        UndoRecord {
            mv: m,
            captured: captured_by(self.position.grid, m),
            prior_rights: self.position.rights,
            prior_en_passant: self.position.en_passant,
            prior_halfmove: self.halfmove_clock as u32,
        }
    }

    /// The game after a move was applied.
    pub open spec fn applied(self, m: Move) -> GameModel {
        GameModel {
            position: self.position.after(m),
            halfmove_clock: if self.resets_clock(m) {
                0
            } else {
                self.halfmove_clock + 1
            },
            fullmove_number: self.fullmove_number + (if self.position.side == ChessColor::Black {
                1int
            } else {
                0int
            }),
            history: self.history.push(self.record_of(m)),
            ..self
        }
    }

    /// The game after its last move was taken back.
    pub open spec fn undone(self) -> GameModel
        recommends
            self.history.len() > 0,
    {
        let rec = self.history.last();
        let side = self.position.side.spec_opposite();
        GameModel {
            position: PositionModel {
                grid: grid_before(self.position.grid, side, rec.mv, rec.captured),
                side,
                rights: rec.prior_rights,
                en_passant: rec.prior_en_passant,
            },
            halfmove_clock: rec.prior_halfmove as int,
            fullmove_number: self.fullmove_number - (if side == ChessColor::Black {
                1int
            } else {
                0int
            }),
            history: self.history.drop_last(),
            ..self
        }
    }

    /// Why a move is refused; none where it is applied.
    ///
    /// A game that is over refuses every move. A move with a square off the
    /// board is illegal. An empty origin is reported as such. Any other
    /// move is refused exactly when it is not among the legal moves.
    pub open spec fn refusal(self, m: Move) -> Option<MoveError> {
        if self.status().spec_is_over() {
            Some(MoveError::GameAlreadyOver)
        } else if !m.valid() {
            Some(MoveError::IllegalMove)
        } else if at(self.position.grid, m.from.file as int, m.from.rank as int) == Piece::Empty {
            Some(MoveError::NoPieceAtOrigin)
        } else if !is_legal(self.position, m) {
            Some(MoveError::IllegalMove)
        } else {
            None
        }
    }

    /// The move that a request stands for, or why it stands for none.
    ///
    /// A game that is over answers no request. A square off the board makes
    /// the request illegal. An empty origin is reported as such. Where a
    /// promotion between the two squares is legal and the request names no
    /// kind, it is ambiguous. Otherwise the request stands for the first
    /// legal move that it asks for, and is illegal where there is none.
    pub open spec fn requested(
        self,
        from: Square,
        to: Square,
        promotion: Option<PieceKind>,
    ) -> Result<Move, MoveError> {
        let legal = legal_moves(self.position);
        if self.status().spec_is_over() {
            Err(MoveError::GameAlreadyOver)
        } else if !from.valid() || !to.valid() {
            Err(MoveError::IllegalMove)
        } else if at(self.position.grid, from.file as int, from.rank as int) == Piece::Empty {
            Err(MoveError::NoPieceAtOrigin)
        } else if promotion is None && promotes(self.position, from, to) {
            Err(MoveError::AmbiguousPromotion)
        } else if exists|i: int| first_asked(legal, from, to, promotion, i) {
            Ok(legal[choose|i: int| first_asked(legal, from, to, promotion, i)])
        } else {
            Err(MoveError::IllegalMove)
        }
    }

    /// The game after a list of moves was applied one after the other.
    pub open spec fn played(self, ms: Seq<Move>) -> GameModel
        decreases ms.len(),
    {
        if ms.len() == 0 {
            self
        } else {
            self.played(ms.drop_last()).applied(ms.last())
        }
    }
}

/// Taking back on the grid a move that fits it gives the grid from before
/// the move.
pub proof fn lemma_grid_restored(g: Seq<Piece>, side: ChessColor, m: Move)
    requires
        g.len() == 64,
        sound(g, side, m),
    ensures
        grid_before(grid_after(g, side, m), side, m, captured_by(g, m)) == g,
{
    broadcast use lemma_at_put;

    let after = grid_after(g, side, m);
    let back = grid_before(after, side, m, captured_by(g, m));
    assert(back.len() == 64);
    assert forall|i: int| 0 <= i < 64 implies back[i] == g[i] by {
        let f = i % 8;
        let r = i / 8;
        assert(on_board(f, r));
        assert(i == r * 8 + f);
        assert(back[i] == at(back, f, r));
        assert(g[i] == at(g, f, r));
        lemma_square_restored(g, side, m, f, r);
    }
    assert(back =~= g);
}

proof fn lemma_square_restored(g: Seq<Piece>, side: ChessColor, m: Move, f: int, r: int)
    requires
        g.len() == 64,
        sound(g, side, m),
        on_board(f, r),
    ensures
        at(grid_before(grid_after(g, side, m), side, m, captured_by(g, m)), f, r) == at(g, f, r),
{
    broadcast use lemma_at_put;

}

/// Reversibility: applying a legal move and taking it back restores the
/// game: board, castling rights, en passant target, both clocks, the side
/// to move and the history are what they were before the move.
pub proof fn lemma_undo_restores(s: GameModel, m: Move)
    requires
        s.wf(),
        is_legal(s.position, m),
    ensures
        s.applied(m).undone() == s,
{
    lemma_legal_sound(s.position, m);
    lemma_grid_restored(s.position.grid, s.position.side, m);
    let t = s.applied(m);
    let u = t.undone();
    assert(t.history.last() == s.record_of(m));
    assert(t.history.drop_last() =~= s.history);
    assert(u.position.grid == s.position.grid);
    assert(u.position == s.position);
}

/// Applying a move that is not refused to a well-formed game gives a
/// well-formed game.
pub proof fn lemma_applied_wf(s: GameModel, m: Move)
    requires
        s.wf(),
        s.refusal(m) is None,
    ensures
        s.applied(m).wf(),
{
    broadcast use lemma_at_put;

    let t = s.applied(m);
    assert forall|i: int| 0 <= i < t.history.len() implies (#[trigger] t.history[i]).valid() by {
        if i < s.history.len() {
            assert(t.history[i] == s.history[i]);
        }
    }
}

/// Taking back the last move of a well-formed game gives a well-formed game.
pub proof fn lemma_undone_wf(s: GameModel)
    requires
        s.wf(),
        s.history.len() > 0,
    ensures
        s.undone().wf(),
{
    broadcast use lemma_at_put;

    let t = s.undone();
    assert(s.history.last().valid());
    assert forall|i: int| 0 <= i < t.history.len() implies (#[trigger] t.history[i]).valid() by {
        assert(t.history[i] == s.history[i]);
    }
}

/// Whether a model is that of a game at its start: the starting grid with
/// White to move, every castling right, no en passant target, the clock
/// at 0, the first full move and no history.
pub open spec fn is_start(s: GameModel) -> bool {
    &&& is_starting_grid(s.position.grid)
    &&& s.position.side == ChessColor::White
    &&& s.position.rights == (CastlingRights {
        white_king_side: true,
        white_queen_side: true,
        black_king_side: true,
        black_queen_side: true,
    })
    &&& s.position.en_passant is None
    &&& s.halfmove_clock == 0
    &&& s.fullmove_number == 1
    &&& s.history.len() == 0
}

/// No move gives a castling right back: the rights after a move are among
/// the rights before it.
pub proof fn lemma_rights_shrink(s: GameModel, m: Move)
    ensures
        s.applied(m).position.rights.within(s.position.rights),
{
}

/// Castling rights never come back: after any list of moves, every right
/// that a side still has is one that it had at the start of the list. So
/// a right that was lost before the list stays lost after each of its moves.
pub proof fn lemma_rights_never_return(s: GameModel, ms: Seq<Move>)
    ensures
        s.played(ms).position.rights.within(s.position.rights),
    decreases ms.len(),
{
    if ms.len() > 0 {
        lemma_rights_never_return(s, ms.drop_last());
        lemma_rights_shrink(s.played(ms.drop_last()), ms.last());
    }
}

/// The en passant target lasts one ply: a move leaves a target behind
/// exactly when it is a double pawn push, and the target is then the
/// square that the pawn passed over. Whatever target stood before the move
/// is gone after it.
pub proof fn lemma_en_passant_one_ply(s: GameModel, m: Move)
    requires
        s.wf(),
        is_legal(s.position, m),
    ensures
        s.applied(m).position.en_passant is Some <==> m.kind == MoveKind::DoublePawnPush,
        s.applied(m).position.en_passant matches Some(q) ==> {
            &&& q.valid()
            &&& q.file == m.from.file
            &&& q.rank == m.from.rank + forward(s.position.side)
            &&& m.to.rank == q.rank + forward(s.position.side)
        },
{
    lemma_legal_sound(s.position, m);
}

} // verus!
