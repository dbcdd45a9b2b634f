//! The game: the position, the clocks and the history of moves, with the
//! transitions between states, and beside them what a front end keeps of
//! its own: the screen shown, the input line and the transcript.
//!
//! Rows and columns, where a function takes or gives them, count as a
//! diagram of the board is drawn: row 0 is Black's home rank and column 0
//! is the a-file.

use crate::board::Board;
use crate::board::at;
use crate::board::occupant;
use crate::controls::InputMode;
use crate::kings::lemma_applied_is_traced;
use crate::kings::lemma_legal_move_keeps_settled;
use crate::kings::lemma_start_is_settled;
use crate::kings::settled;
use crate::kings::traced;
use crate::legal::is_legal;
use crate::legal::is_safe;
use crate::legal::legal_moves;
use crate::legal::legal_moves_from;
use crate::moves::CastlingRights;
use crate::moves::Move;
use crate::moves::MoveKind;
use crate::notation::parse_move;
use crate::notation::parsed;
use crate::order::in_scan_order;
pub use crate::piece::ChessColor;
pub use crate::piece::Piece;
use crate::position::Position;
use crate::position::en_passant_left;
use crate::position::play_on_board;
use crate::position::rights_left;
use crate::position::take_back_on_board;
use crate::rules::pseudo_legal;
use crate::sound::all_sound;
use crate::sound::sound;
use crate::square::Square;
use crate::state::GameModel;
use crate::state::MoveError;
use crate::state::UndoRecord;
use crate::state::asks_for;
use crate::state::first_asked;
use crate::state::is_start;
use crate::state::lemma_applied_wf;
use crate::state::lemma_undo_restores;
use crate::state::lemma_undone_wf;
use crate::state::promotes;
use crate::state::promotion_move;
use crate::status::Status;
use crate::types::PieceKind;
use crate::ui::Screen;
use vstd::prelude::*;

verus! {

/// A game of chess and the front end's state beside it.
pub struct GameState {
    pub position: Position,
    pub halfmove_clock: u32,
    pub fullmove_number: u64,
    pub history: Vec<UndoRecord>,
    pub screen: Screen,
    pub input_mode: InputMode,
    pub input: String,
    pub messages: Vec<String>,
}

impl View for GameState {
    type V = GameModel;

    open spec fn view(&self) -> GameModel {
        GameModel {
            position: self.position@,
            halfmove_clock: self.halfmove_clock as int,
            fullmove_number: self.fullmove_number as int,
            history: self.history@,
        }
    }
}

/// The texts of a list of strings.
pub open spec fn texts(v: Seq<String>) -> Seq<Seq<char>> {
    v.map_values(|s: String| s@)
}

/// The cell of a diagram of the board at a row and a column: the label of
/// what stands there.
pub open spec fn cell(g: Seq<Piece>, row: int, col: int) -> Seq<char> {
    at(g, col, 7 - row).label()
}

/// A row of a diagram of the board: the cells of its eight columns.
pub open spec fn diagram_row(g: Seq<Piece>, row: int) -> Seq<Seq<char>> {
    Seq::new(8, |col: int| cell(g, row, col))
}

/// The row and the column of a move's destination.
pub open spec fn destination(m: Move) -> (usize, usize) {
    ((7 - m.to.rank) as usize, m.to.file as usize)
}

fn contains_move(moves: &Vec<Move>, m: &Move) -> (found: bool)
    ensures
        found == moves@.contains(*m),
{
    let mut i: usize = 0;
    while i < moves.len()
        invariant
            i <= moves@.len(),
            forall|j: int| 0 <= j < i ==> moves@[j] != *m,
        decreases moves@.len() - i,
    {
        if moves[i].same_move(m) {
            return true;
        }
        i += 1;
    }
    false
}

/// Whether a move is a promotion between the two squares.
pub open spec fn promotes_between(m: Move, from: Square, to: Square) -> bool {
    m.from == from && m.to == to && m.kind is Promotion
}

fn has_promotion(moves: &Vec<Move>, from: Square, to: Square) -> (found: bool)
    ensures
        found == exists|k: PieceKind| moves@.contains(#[trigger] promotion_move(from, to, k)),
{
    let mut i: usize = 0;
    while i < moves.len()
        invariant
            i <= moves@.len(),
            forall|j: int| 0 <= j < i ==> !promotes_between(#[trigger] moves@[j], from, to),
        decreases moves@.len() - i,
    {
        let m = moves[i];
        match m.kind {
            MoveKind::Promotion(k) => {
                if m.from == from && m.to == to {
                    assert(moves@[i as int] == promotion_move(from, to, k));
                    return true;
                }
            },
            _ => {},
        }
        i += 1;
    }
    proof {
        assert forall|k: PieceKind| !moves@.contains(#[trigger] promotion_move(from, to, k)) by {
            if moves@.contains(promotion_move(from, to, k)) {
                let j = choose|j: int| 0 <= j < moves@.len() && moves@[j] == promotion_move(from, to, k);
                assert(promotes_between(moves@[j], from, to));
            }
        }
    }
    false
}

fn asks(m: &Move, from: Square, to: Square, promotion: Option<PieceKind>) -> (r: bool)
    ensures
        r == asks_for(*m, from, to, promotion),
{
    m.from == from && m.to == to && match (m.kind, promotion) {
        (MoveKind::Promotion(k), Some(want)) => k.same_kind(&want),
        (MoveKind::Promotion(_), None) => false,
        (_, None) => true,
        (_, Some(_)) => false,
    }
}

fn first_asked_in(moves: &Vec<Move>, from: Square, to: Square, promotion: Option<PieceKind>) -> (r:
    Option<Move>)
    ensures
        r == (if exists|i: int| first_asked(moves@, from, to, promotion, i) {
            Some(moves@[choose|i: int| first_asked(moves@, from, to, promotion, i)])
        } else {
            None
        }),
        r matches Some(m) ==> moves@.contains(m),
{
    let mut i: usize = 0;
    while i < moves.len()
        invariant
            i <= moves@.len(),
            forall|j: int| 0 <= j < i ==> !asks_for(#[trigger] moves@[j], from, to, promotion),
        decreases moves@.len() - i,
    {
        if asks(&moves[i], from, to, promotion) {
            assert(first_asked(moves@, from, to, promotion, i as int));
            let ghost c = choose|c: int| first_asked(moves@, from, to, promotion, c);
            assert(c == i);
            return Some(moves[i]);
        }
        i += 1;
    }
    None
}

impl GameState {
    /// Whether the game is well formed: its position is valid, every record
    /// of its history is valid, the clock of the fifty-move rule is at most
    /// 100, and the full-move number fits the number of moves made.
    pub open spec fn wf(self) -> bool {
        self@.wf()
    }

    /// Whether the game has come about by play from a position that holds
    /// exactly one king of each colour: a game at its start has, and so
    /// has every game that applying and taking back moves leads to.
    pub open spec fn in_play(self) -> bool {
        traced(self@)
    }

    /// Whether two games agree in what the front end keeps: screen, input
    /// mode, input line and transcript.
    pub open spec fn same_front(self, other: GameState) -> bool {
        &&& self.screen == other.screen
        &&& self.input_mode == other.input_mode
        &&& self.input@ == other.input@
        &&& texts(self.messages@) == texts(other.messages@)
    }

    /// Whether the game is well formed, for a game whose fields were set
    /// from outside.
    pub fn is_well_formed(&self) -> (ok: bool)
        ensures
            ok == self.wf(),
    {
        let target_ok = match self.position.en_passant_target {
            Some(q) => q.is_valid(),
            None => true,
        };
        if !target_ok || self.halfmove_clock > 100 {
            return false;
        }
        let n = self.history.len();
        let mut i: usize = 0;
        while i < n
            invariant
                n == self.history@.len(),
                i <= n,
                forall|j: int| 0 <= j < i ==> (#[trigger] self.history@[j]).valid(),
            decreases n - i,
        {
            let rec = self.history[i];
            let rec_target_ok = match rec.prior_en_passant {
                Some(q) => q.is_valid(),
                None => true,
            };
            if !(rec.mv.is_valid() && rec_target_ok && rec.prior_halfmove <= 100) {
                assert(!self.history@[i as int].valid());
                return false;
            }
            i += 1;
        }
        let black_to_move = match self.position.side_to_move {
            ChessColor::Black => true,
            ChessColor::White => false,
        };
        let began: u64 = if black_to_move == (n % 2 == 0) {
            1
        } else {
            0
        };
        let half: u64 = (n / 2) as u64;
        let odd: u64 = (n % 2) as u64;
        self.fullmove_number == 1 + half + (odd + began) / 2
    }

    /// A game at its start, showing the board, with an empty input line
    /// and an empty transcript.
    pub fn new() -> (s: GameState)
        ensures
            s.wf(),
            s.in_play(),
            is_start(s@),
            s.screen == Screen::Board,
            s.input_mode == InputMode::Normal,
            s.input@.len() == 0,
            s.messages@.len() == 0,
    {
        let s = GameState {
            position: Position::starting(),
            halfmove_clock: 0,
            fullmove_number: 1,
            history: Vec::new(),
            screen: Screen::Board,
            input_mode: InputMode::Normal,
            input: String::new(),
            messages: Vec::new(),
        };
        proof {
            lemma_start_is_settled(s@.position);
        }
        s
    }

    /// A game that starts from the given position, with the clock at 0, as
    /// the first full move and without history. None where the position's
    /// en passant target lies off the board.
    pub fn with_position(position: Position) -> (s: Option<GameState>)
        ensures
            s is Some <==> position.valid(),
            s matches Some(g) ==> {
                &&& g.wf()
                &&& g@.position == position@
                &&& g@.halfmove_clock == 0
                &&& g@.fullmove_number == 1
                &&& g@.history.len() == 0
                &&& g.in_play() == settled(position@)
                &&& g.screen == Screen::Board
                &&& g.input_mode == InputMode::Normal
                &&& g.input@.len() == 0
                &&& g.messages@.len() == 0
            },
    {
        let ok = match position.en_passant_target {
            Some(q) => q.is_valid(),
            None => true,
        };
        if ok {
            Some(
                GameState {
                    position,
                    halfmove_clock: 0,
                    fullmove_number: 1,
                    history: Vec::new(),
                    screen: Screen::Board,
                    input_mode: InputMode::Normal,
                    input: String::new(),
                    messages: Vec::new(),
                },
            )
        } else {
            None
        }
    }

    /// The position: board, side to move, castling rights and en passant
    /// target.
    pub fn position(&self) -> (p: Position)
        ensures
            p@ == self@.position,
            self.wf() ==> p.valid(),
    {
        self.position
    }

    /// The side to move.
    pub fn side_to_move(&self) -> (c: ChessColor)
        ensures
            c == self@.position.side,
    {
        self.position.side_to_move
    }

    /// The castling rights.
    pub fn castling_rights(&self) -> (r: CastlingRights)
        ensures
            r == self@.position.rights,
    {
        self.position.castling_rights
    }

    /// The en passant target.
    pub fn en_passant_target(&self) -> (t: Option<Square>)
        ensures
            t == self@.position.en_passant,
    {
        self.position.en_passant_target
    }

    /// The number of plies since the last capture or pawn move.
    pub fn halfmove_clock(&self) -> (n: u32)
        ensures
            n == self@.halfmove_clock,
    {
        self.halfmove_clock
    }

    /// The number of the current full move.
    pub fn fullmove_number(&self) -> (n: u64)
        ensures
            n == self@.fullmove_number,
    {
        self.fullmove_number
    }

    /// The number of moves that can be taken back.
    pub fn history_len(&self) -> (n: usize)
        ensures
            n == self@.history.len(),
    {
        self.history.len()
    }

    /// The piece at a row and a column; none where the square is empty or
    /// the row or the column is not below 8.
    pub fn piece(&self, x: usize, y: usize) -> (p: Option<Piece>)
        ensures
            p == (if x < 8 && y < 8 {
                occupant(at(self@.position.grid, y as int, 7 - x))
            } else {
                None
            }),
    {
        if x < 8 && y < 8 {
            self.position.board.get(Square { file: y as u8, rank: (7 - x) as u8 })
        } else {
            None
        }
    }

    /// The destinations, as rows and columns, of the legal moves of the
    /// piece at a row and a column, one for each move and in the moves'
    /// order; none where the row or the column is not below 8.
    pub fn moves(&self, x: usize, y: usize) -> (out: Vec<(usize, usize)>)
        ensures
            out@ == (if x < 8 && y < 8 {
                legal_moves_from(self@.position, y as int, 7 - x).map_values(
                    |m: Move| destination(m),
                )
            } else {
                Seq::empty()
            }),
    {
        let mut out: Vec<(usize, usize)> = Vec::new();
        if x < 8 && y < 8 {
            let from = Square { file: y as u8, rank: (7 - x) as u8 };
            let legal = self.position.legal_moves_from(from);
            let ghost goal = legal@.map_values(|m: Move| destination(m));
            let mut i: usize = 0;
            while i < legal.len()
                invariant
                    i <= legal@.len(),
                    all_sound(self.position@.grid, self.position@.side, legal@),
                    goal == legal@.map_values(|m: Move| destination(m)),
                    out@ == goal.take(i as int),
                decreases legal@.len() - i,
            {
                let m = legal[i];
                assert(sound(self.position@.grid, self.position@.side, legal@[i as int]));
                out.push(((7 - m.to.rank) as usize, m.to.file as usize));
                i += 1;
                assert(out@ =~= goal.take(i as int));
            }
            assert(goal.take(legal@.len() as int) =~= goal);
        }
        out
    }

    /// The diagram of the board: eight rows of eight labels, Black's home
    /// rank first, each row from the a-file.
    pub fn board(&self) -> (rows: Vec<Vec<String>>)
        ensures
            rows@.len() == 8,
            forall|i: int|
                0 <= i < 8 ==> texts((#[trigger] rows@[i])@) == diagram_row(self@.position.grid, i),
    {
        let mut rows: Vec<Vec<String>> = Vec::new();
        let mut i: u8 = 0;
        while i < 8
            invariant
                i <= 8,
                rows@.len() == i,
                forall|a: int|
                    0 <= a < i ==> texts((#[trigger] rows@[a])@) == diagram_row(
                        self@.position.grid,
                        a,
                    ),
            decreases 8 - i,
        {
            let ghost goal = diagram_row(self@.position.grid, i as int);
            let mut row: Vec<String> = Vec::new();
            let mut j: u8 = 0;
            assert(texts(row@) =~= goal.take(0));
            while j < 8
                invariant
                    i < 8,
                    j <= 8,
                    goal == diagram_row(self@.position.grid, i as int),
                    texts(row@) == goal.take(j as int),
                decreases 8 - j,
            {
                let p = self.position.board.piece_at(Square { file: j, rank: 7 - i });
                let ghost before = row@;
                let label = p.display_string();
                assert(label@ == cell(self@.position.grid, i as int, j as int));
                assert(goal[j as int] == label@);
                row.push(label);
                assert(texts(row@) =~= texts(before).push(label@));
                j += 1;
                assert(goal.take(j as int) =~= goal.take(j - 1).push(goal[j - 1]));
            }
            assert(goal.take(8) =~= goal);
            rows.push(row);
            i += 1;
        }
        rows
    }

    /// All legal moves of the side to move: each move that the rules of
    /// movement allow and that leaves the mover's king safe, once, with
    /// the origins in scan order.
    pub fn legal_moves(&self) -> (out: Vec<Move>)
        ensures
            out@ == legal_moves(self@.position),
            forall|m: Move|
                out@.contains(m) <==> pseudo_legal(self@.position, m) && is_safe(
                    self@.position,
                    m,
                ),
            out@.no_duplicates(),
            in_scan_order(out@),
            forall|i: int| 0 <= i < out@.len() ==> (#[trigger] out@[i]).valid(),
    {
        let out = self.position.legal_moves();
        assert forall|i: int| 0 <= i < out@.len() implies (#[trigger] out@[i]).valid() by {
            assert(sound(self.position@.grid, self.position@.side, out@[i]));
        }
        out
    }

    /// The state of the game.
    pub fn status(&self) -> (s: Status)
        ensures
            s == self@.status(),
    {
        self.position.status(self.halfmove_clock)
    }

    /// Applies a move.
    ///
    /// A move that is refused leaves the game as it is and is answered
    /// with the reason. A move that is applied changes the board as its
    /// kind says, takes away the castling rights that it ends, sets the en
    /// passant target after a double pawn push and clears it otherwise,
    /// resets or advances the clock of the fifty-move rule, advances the
    /// full-move number after a move of Black, adds a record to the
    /// history and passes the move to the other side; the answer is the
    /// new state of the game.
    pub fn apply(&mut self, m: Move) -> (res: Result<Status, MoveError>)
        requires
            old(self).wf(),
        ensures
            final(self).wf(),
            final(self).same_front(*old(self)),
            match res {
                Ok(st) => {
                    &&& old(self)@.refusal(m) is None
                    &&& final(self)@ == old(self)@.applied(m)
                    &&& st == final(self)@.status()
                    &&& final(self)@.position.rights.within(old(self)@.position.rights)
                    &&& final(self)@.undone() == old(self)@
                    &&& settled(old(self)@.position) ==> settled(final(self)@.position)
                    &&& old(self).in_play() ==> final(self).in_play()
                },
                Err(e) => old(self)@.refusal(m) == Some(e) && final(self)@ == old(self)@,
            },
    {
        if self.status().is_over() {
            return Err(MoveError::GameAlreadyOver);
        }
        if !m.is_valid() {
            return Err(MoveError::IllegalMove);
        }
        let mover = self.position.board.piece_at(m.from);
        if mover.is_empty() {
            return Err(MoveError::NoPieceAtOrigin);
        }
        let legal = self.position.legal_moves();
        if !contains_move(&legal, &m) {
            return Err(MoveError::IllegalMove);
        }
        proof {
            lemma_applied_wf(self@, m);
            lemma_undo_restores(self@, m);
            if settled(self@.position) {
                lemma_legal_move_keeps_settled(self@.position, m);
            }
            if traced(self@) {
                lemma_applied_is_traced(self@, m);
            }
        }
        let side = self.position.side_to_move;
        let mut board = self.position.board;
        let captured = play_on_board(&mut board, side, &m);
        let pawn_move = match mover.kind() {
            Some(PieceKind::Pawn) => true,
            _ => false,
        };
        let record = UndoRecord {
            mv: m,
            captured,
            prior_rights: self.position.castling_rights,
            prior_en_passant: self.position.en_passant_target,
            prior_halfmove: self.halfmove_clock,
        };
        let clock: u32 = if !captured.is_empty() || pawn_move {
            0
        } else {
            self.halfmove_clock + 1
        };
        let plies = self.history.len();
        assert(self.fullmove_number <= 1 + (plies + 1) / 2);
        let number: u64 = match side {
            ChessColor::Black => self.fullmove_number + 1,
            ChessColor::White => self.fullmove_number,
        };
        self.position =
        Position {
            board,
            side_to_move: side.opposite(),
            castling_rights: rights_left(self.position.castling_rights, &m),
            en_passant_target: en_passant_left(&m),
        };
        self.halfmove_clock = clock;
        self.fullmove_number = number;
        self.history.push(record);
        Ok(self.status())
    }

    /// Takes back the last move, and answers with it; none, and no change,
    /// where no move has been applied. Board, side to move, castling
    /// rights, en passant target and both clocks are again what they were
    /// before the move.
    pub fn undo(&mut self) -> (res: Option<Move>)
        requires
            old(self).wf(),
        ensures
            final(self).wf(),
            final(self).same_front(*old(self)),
            old(self).in_play() ==> final(self).in_play(),
            match res {
                Some(m) => {
                    &&& old(self)@.history.len() > 0
                    &&& m == old(self)@.history.last().mv
                    &&& final(self)@ == old(self)@.undone()
                },
                None => old(self)@.history.len() == 0 && final(self)@ == old(self)@,
            },
    {
        proof {
            if self@.history.len() > 0 {
                lemma_undone_wf(self@);
            }
        }
        match self.history.pop() {
            Some(rec) => {
                assert(old(self)@.history.last() == rec);
                assert(rec.valid());
                let side = self.position.side_to_move.opposite();
                let mut board = self.position.board;
                take_back_on_board(&mut board, side, &rec.mv, rec.captured);
                let number: u64 = match side {
                    ChessColor::Black => self.fullmove_number - 1,
                    ChessColor::White => self.fullmove_number,
                };
                self.position =
                Position {
                    board,
                    side_to_move: side,
                    castling_rights: rec.prior_rights,
                    en_passant_target: rec.prior_en_passant,
                };
                self.halfmove_clock = rec.prior_halfmove;
                self.fullmove_number = number;
                assert(self@.history =~= old(self)@.history.drop_last());
                Some(rec.mv)
            },
            None => None,
        }
    }

    /// Finds the move that a request stands for: the legal move between
    /// the two squares, with the promotion kind where a pawn promotes.
    pub fn find_move(&self, from: Square, to: Square, promotion: Option<PieceKind>) -> (res: Result<
        Move,
        MoveError,
    >)
        requires
            self.wf(),
        ensures
            res == self@.requested(from, to, promotion),
            res matches Ok(m) ==> m.valid() && self@.refusal(m) is None,
    {
        if self.status().is_over() {
            return Err(MoveError::GameAlreadyOver);
        }
        if !from.is_valid() || !to.is_valid() {
            return Err(MoveError::IllegalMove);
        }
        if self.position.board.is_empty(from) {
            return Err(MoveError::NoPieceAtOrigin);
        }
        let legal = self.position.legal_moves();
        if promotion.is_none() && has_promotion(&legal, from, to) {
            return Err(MoveError::AmbiguousPromotion);
        }
        match first_asked_in(&legal, from, to, promotion) {
            Some(m) => {
                assert(is_legal(self@.position, m));
                Ok(m)
            },
            None => Err(MoveError::IllegalMove),
        }
    }

    /// Reads a move in coordinate notation, finds the move that it stands
    /// for and applies it. Answers with the move that was applied, or with
    /// the reason why none was; the game then is as it was.
    pub fn play(&mut self, text: &str) -> (res: Result<Move, MoveError>)
        requires
            old(self).wf(),
        ensures
            final(self).wf(),
            final(self).same_front(*old(self)),
            res == (match parsed(text@) {
                None => Err::<Move, MoveError>(MoveError::MalformedNotation),
                Some(rq) => old(self)@.requested(rq.from, rq.to, rq.promotion),
            }),
            old(self).in_play() ==> final(self).in_play(),
            match res {
                Ok(m) => m.valid() && final(self)@ == old(self)@.applied(m),
                Err(_) => final(self)@ == old(self)@,
            },
    {
        match parse_move(text) {
            Err(e) => Err(e),
            Ok(rq) => match self.find_move(rq.from, rq.to, rq.promotion) {
                Err(e) => Err(e),
                Ok(m) => match self.apply(m) {
                    Ok(_) => Ok(m),
                    Err(e) => Err(e),
                },
            },
        }
    }

    /// Adds a line to the transcript that the screen shows.
    pub fn push_message(&mut self, msg: &str)
        ensures
            final(self)@ == old(self)@,
            final(self).screen == old(self).screen,
            final(self).input_mode == old(self).input_mode,
            final(self).input@ == old(self).input@,
            texts(final(self).messages@) == texts(old(self).messages@).push(msg@),
    {
        self.messages.push(msg.to_owned());
        assert(texts(self.messages@) =~= texts(old(self).messages@).push(msg@));
    }

    /// The lines of the transcript, the newest first.
    pub fn logs(&self) -> (out: Vec<String>)
        ensures
            texts(out@) == texts(self.messages@).reverse(),
    {
        let mut out: Vec<String> = Vec::new();
        let n = self.messages.len();
        let mut i: usize = 0;
        while i < n
            invariant
                n == self.messages@.len(),
                i <= n,
                out@.len() == i,
                forall|j: int| 0 <= j < i ==> (#[trigger] out@[j])@ == self.messages@[n - 1 - j]@,
            decreases n - i,
        {
            out.push(self.messages[n - 1 - i].clone());
            i += 1;
        }
        assert(texts(out@) =~= texts(self.messages@).reverse());
        out
    }
}

} // verus!
