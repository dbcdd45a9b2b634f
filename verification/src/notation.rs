//! Coordinate notation: a move written as its origin and destination, such
//! as `e2e4`, with a letter for the promotion kind where a pawn promotes,
//! such as `e7e8q`.

use crate::moves::Move;
use crate::moves::MoveKind;
use crate::rules::promotable;
use crate::square::Square;
use crate::square::file_letter;
use crate::square::rank_digit;
use crate::square::square_of_chars;
use crate::state::MoveError;
use crate::state::asks_for;
use crate::types::PieceKind;
use vstd::prelude::*;
use vstd::string::StrSliceExecFns;
use vstd::string::StringExecFns;

verus! {

/// A request for a move: two squares and the promotion kind, if one was named.
#[derive(Copy, Clone, Debug)]
pub struct MoveRequest {
    pub from: Square,
    pub to: Square,
    pub promotion: Option<PieceKind>,
}

/// The promotion kind that a letter names: `q`, `r`, `b` or `n`.
pub open spec fn promotion_of_letter(c: char) -> Option<PieceKind> {
    if c == 'q' {
        Some(PieceKind::Queen)
    } else if c == 'r' {
        Some(PieceKind::Rook)
    } else if c == 'b' {
        Some(PieceKind::Bishop)
    } else if c == 'n' {
        Some(PieceKind::Knight)
    } else {
        None
    }
}

/// The letters that are written behind a move of the given kind: the
/// lower-case letter of the promotion kind, and nothing for any other move.
pub open spec fn suffix_of(kind: MoveKind) -> Seq<char> {
    match kind {
        MoveKind::Promotion(PieceKind::Queen) => seq!['q'],
        MoveKind::Promotion(PieceKind::Rook) => seq!['r'],
        MoveKind::Promotion(PieceKind::Bishop) => seq!['b'],
        MoveKind::Promotion(PieceKind::Knight) => seq!['n'],
        MoveKind::Promotion(PieceKind::King) => seq!['k'],
        MoveKind::Promotion(PieceKind::Pawn) => seq!['p'],
        _ => Seq::<char>::empty(),
    }
}

/// The request that a text in coordinate notation stands for, if it stands
/// for one: four characters that name two squares, and as a fifth, if
/// there is one, the letter of a promotion kind.
pub open spec fn parsed(t: Seq<char>) -> Option<MoveRequest> {
    if t.len() != 4 && t.len() != 5 {
        None
    } else {
        match (square_of_chars(t[0], t[1]), square_of_chars(t[2], t[3])) {
            (Some(from), Some(to)) => if t.len() == 4 {
                Some(MoveRequest { from, to, promotion: None })
            } else {
                match promotion_of_letter(t[4]) {
                    Some(k) => Some(MoveRequest { from, to, promotion: Some(k) }),
                    None => None,
                }
            },
            _ => None,
        }
    }
}

impl Move {
    /// The move in coordinate notation.
    pub open spec fn spec_notation(self) -> Seq<char> {
        self.from.spec_name() + self.to.spec_name() + suffix_of(self.kind)
    }

    /// The move in coordinate notation, such as `e2e4` or `e7e8q`: the
    /// line that a transcript of the game holds for it.
    pub fn notation(&self) -> (s: String)
        requires
            self.valid(),
        ensures
            s@ == self.spec_notation(),
    {
        proof {
            reveal_strlit("");
            reveal_strlit("q");
            reveal_strlit("r");
            reveal_strlit("b");
            reveal_strlit("n");
            reveal_strlit("k");
            reveal_strlit("p");
        }
        let suffix = match self.kind {
            MoveKind::Promotion(PieceKind::Queen) => "q",
            MoveKind::Promotion(PieceKind::Rook) => "r",
            MoveKind::Promotion(PieceKind::Bishop) => "b",
            MoveKind::Promotion(PieceKind::Knight) => "n",
            MoveKind::Promotion(PieceKind::King) => "k",
            MoveKind::Promotion(PieceKind::Pawn) => "p",
            _ => "",
        };
        assert(suffix@ =~= suffix_of(self.kind));
        let from = self.from.name();
        let to = self.to.name();
        from.concat(to.as_str()).concat(suffix)
    }
}

fn promotion_from_letter(c: char) -> (k: Option<PieceKind>)
    ensures
        k == promotion_of_letter(c),
{
    match c {
        'q' => Some(PieceKind::Queen),
        'r' => Some(PieceKind::Rook),
        'b' => Some(PieceKind::Bishop),
        'n' => Some(PieceKind::Knight),
        _ => None,
    }
}

/// Reads a move request in coordinate notation. Any text that does not
/// name two squares, with or without a promotion letter, is malformed.
pub fn parse_move(text: &str) -> (res: Result<MoveRequest, MoveError>)
    ensures
        res == (match parsed(text@) {
            Some(rq) => Ok::<MoveRequest, MoveError>(rq),
            None => Err(MoveError::MalformedNotation),
        }),
        res matches Ok(rq) ==> rq.from.valid() && rq.to.valid(),
{
    let n = text.unicode_len();
    if n != 4 && n != 5 {
        return Err(MoveError::MalformedNotation);
    }
    let from = Square::from_chars(text.get_char(0), text.get_char(1));
    let to = Square::from_chars(text.get_char(2), text.get_char(3));
    match (from, to) {
        (Some(from), Some(to)) => {
            if n == 4 {
                Ok(MoveRequest { from, to, promotion: None })
            } else {
                match promotion_from_letter(text.get_char(4)) {
                    Some(k) => Ok(MoveRequest { from, to, promotion: Some(k) }),
                    None => Err(MoveError::MalformedNotation),
                }
            }
        },
        _ => Err(MoveError::MalformedNotation),
    }
}

/// The transcript line for the answer to a line that was sent: the
/// notation of the move that was applied, or the line as it was sent, a
/// colon and the reason why no move was.
pub open spec fn line_for(text: Seq<char>, answer: Result<Move, MoveError>) -> Seq<char> {
    match answer {
        Ok(m) => m.spec_notation(),
        Err(e) => text + ": "@ + e.spec_message(),
    }
}

/// The transcript line for the answer to a line that was sent.
pub fn transcript_line(text: &str, answer: &Result<Move, MoveError>) -> (line: String)
    requires
        answer matches Ok(m) ==> m.valid(),
    ensures
        line@ == line_for(text@, *answer),
{
    match answer {
        Ok(m) => m.notation(),
        Err(e) => String::from_str(text).concat(": ").concat(e.message()),
    }
}

/// Reading back the notation of a move gives the move's squares, and its
/// promotion kind where it promotes to a queen, rook, bishop or knight.
pub proof fn lemma_notation_round_trip(m: Move)
    requires
        m.valid(),
        m.kind matches MoveKind::Promotion(k) ==> promotable(k),
    ensures
        parsed(m.spec_notation()) matches Some(rq) && rq.from == m.from && rq.to == m.to
            && asks_for(m, rq.from, rq.to, rq.promotion),
{
    let t = m.spec_notation();
    let a = m.from.spec_name();
    let b = m.to.spec_name();
    assert(t[0] == a[0] && t[1] == a[1] && t[2] == b[0] && t[3] == b[1]);
    lemma_square_round_trip(m.from);
    lemma_square_round_trip(m.to);
    match m.kind {
        MoveKind::Promotion(k) => {
            assert(t.len() == 5);
            assert(t[4] == suffix_of(m.kind)[0]);
        },
        _ => {
            assert(t.len() == 4);
        },
    }
}

/// The two characters of a square's name name that square.
pub proof fn lemma_square_round_trip(q: Square)
    requires
        q.valid(),
    ensures
        square_of_chars(q.spec_name()[0], q.spec_name()[1]) == Some(q),
{
    let fc = q.spec_name()[0];
    let rc = q.spec_name()[1];
    assert(0 <= q.file < 8 && file_letter(q.file as int) == fc);
    assert(0 <= q.rank < 8 && rank_digit(q.rank as int) == rc);
    let f = choose|f: int| 0 <= f < 8 && file_letter(f) == fc;
    let r = choose|r: int| 0 <= r < 8 && rank_digit(r) == rc;
    assert(f == q.file);
    assert(r == q.rank);
}

} // verus!
