//! The board: sixty-four squares, each empty or holding one piece.
//!
//! The board is a plain container and knows no rule of the game. Its model
//! is the sequence of its squares in scan order: rank by rank from White's
//! home rank, each rank from the a-file upwards.

use crate::piece::ChessColor;
use crate::piece::Piece;
use crate::square::Square;
use crate::square::on_board;
use crate::types::PieceKind;
use vstd::prelude::*;

verus! {

/// What stands on the square with the given coordinates in a grid of squares.
pub open spec fn at(g: Seq<Piece>, f: int, r: int) -> Piece {
    g[r * 8 + f]
}

/// The grid with the given square holding `p`.
pub open spec fn put(g: Seq<Piece>, f: int, r: int, p: Piece) -> Seq<Piece> {
    g.update(r * 8 + f, p)
}

/// The content of a square as an optional piece: none for the empty square.
pub open spec fn occupant(p: Piece) -> Option<Piece> {
    if p == Piece::Empty {
        None
    } else {
        Some(p)
    }
}

/// The square content that an optional piece stands for.
pub open spec fn content(p: Option<Piece>) -> Piece {
    match p {
        Some(x) => x,
        None => Piece::Empty,
    }
}

/// The kind that stands on a file of a home rank at the start of a game.
pub open spec fn home_kind(f: int) -> PieceKind {
    if f == 0 || f == 7 {
        PieceKind::Rook
    } else if f == 1 || f == 6 {
        PieceKind::Knight
    } else if f == 2 || f == 5 {
        PieceKind::Bishop
    } else if f == 3 {
        PieceKind::Queen
    } else {
        PieceKind::King
    }
}

/// What stands on a square at the start of a game.
pub open spec fn starting_piece(f: int, r: int) -> Piece {
    if r == 0 {
        Piece::spec_of(ChessColor::White, home_kind(f))
    } else if r == 1 {
        Piece::WhitePawn
    } else if r == 6 {
        Piece::BlackPawn
    } else if r == 7 {
        Piece::spec_of(ChessColor::Black, home_kind(f))
    } else {
        Piece::Empty
    }
}

/// Whether a grid is the one at the start of a game.
pub open spec fn is_starting_grid(g: Seq<Piece>) -> bool {
    &&& g.len() == 64
    &&& forall|f: int, r: int| on_board(f, r) ==> #[trigger] at(g, f, r) == starting_piece(f, r)
}

/// Reading a square of a grid in which one square was replaced: the new
/// content on that square, the old content on every other.
pub broadcast proof fn lemma_at_put(g: Seq<Piece>, f: int, r: int, p: Piece, f2: int, r2: int)
    requires
        g.len() == 64,
        on_board(f, r),
        on_board(f2, r2),
    ensures
        #[trigger] at(put(g, f, r, p), f2, r2) == (if f2 == f && r2 == r {
            p
        } else {
            at(g, f2, r2)
        }),
{
}

/// The 8 by 8 board.
#[derive(Copy, Clone, Debug)]
pub struct Board {
    pub squares: [Piece; 64],
}

impl View for Board {
    type V = Seq<Piece>;

    open spec fn view(&self) -> Seq<Piece> {
        self.squares@
    }
}

fn home_kind_of(file: u8) -> (k: PieceKind)
    requires
        file < 8,
    ensures
        k == home_kind(file as int),
{
    match file {
        0 | 7 => PieceKind::Rook,
        1 | 6 => PieceKind::Knight,
        2 | 5 => PieceKind::Bishop,
        3 => PieceKind::Queen,
        _ => PieceKind::King,
    }
}

impl Board {
    /// The board with no piece on it.
    pub fn empty() -> (b: Board)
        ensures
            b@.len() == 64,
            forall|f: int, r: int| on_board(f, r) ==> #[trigger] at(b@, f, r) == Piece::Empty,
    {
        Board { squares: [Piece::Empty;64] }
    }

    /// The board at the start of a game.
    pub fn starting() -> (b: Board)
        ensures
            is_starting_grid(b@),
    {
        let mut b = Board::empty();
        let mut file: u8 = 0;
        while file < 8
            invariant
                file <= 8,
                b@.len() == 64,
                forall|f: int, r: int|
                    0 <= f < file && 0 <= r < 8 ==> #[trigger] at(b@, f, r) == starting_piece(f, r),
                forall|f: int, r: int|
                    file <= f < 8 && 0 <= r < 8 ==> #[trigger] at(b@, f, r) == Piece::Empty,
            decreases 8 - file,
        {
            broadcast use lemma_at_put;

            let k = home_kind_of(file);
            b.place(Square { file, rank: 0 }, Piece::of(ChessColor::White, k));
            b.place(Square { file, rank: 1 }, Piece::WhitePawn);
            b.place(Square { file, rank: 6 }, Piece::BlackPawn);
            b.place(Square { file, rank: 7 }, Piece::of(ChessColor::Black, k));
            file += 1;
        }
        b
    }

    /// What stands on a square, the empty square included.
    pub fn piece_at(&self, sq: Square) -> (p: Piece)
        requires
            sq.valid(),
        ensures
            p == at(self@, sq.file as int, sq.rank as int),
    {
        self.squares[sq.index()]
    }

    /// The piece on a square; none where the square is empty.
    pub fn get(&self, sq: Square) -> (p: Option<Piece>)
        requires
            sq.valid(),
        ensures
            p == occupant(at(self@, sq.file as int, sq.rank as int)),
    {
        let p = self.piece_at(sq);
        if p.is_empty() {
            None
        } else {
            Some(p)
        }
    }

    /// Puts a piece on a square, or clears the square. Every other square
    /// stays as it is.
    pub fn set(&mut self, sq: Square, p: Option<Piece>)
        requires
            sq.valid(),
        ensures
            final(self)@ == put(old(self)@, sq.file as int, sq.rank as int, content(p)),
    {
        let x = match p {
            Some(x) => x,
            None => Piece::Empty,
        };
        self.place(sq, x);
    }

    /// Replaces the content of a square. Every other square stays as it is.
    pub fn place(&mut self, sq: Square, p: Piece)
        requires
            sq.valid(),
        ensures
            final(self)@ == put(old(self)@, sq.file as int, sq.rank as int, p),
            final(self)@.len() == 64,
    {
        self.squares[sq.index()] = p;
    }

    /// Whether a square is empty.
    pub fn is_empty(&self, sq: Square) -> (r: bool)
        requires
            sq.valid(),
        ensures
            r == (at(self@, sq.file as int, sq.rank as int) == Piece::Empty),
    {
        self.piece_at(sq).is_empty()
    }

    /// Whether a square holds a piece of the given colour.
    pub fn is_occupied_by(&self, sq: Square, color: ChessColor) -> (r: bool)
        requires
            sq.valid(),
        ensures
            r == (at(self@, sq.file as int, sq.rank as int).spec_color() == Some(color)),
    {
        self.piece_at(sq).is_color(color)
    }

    /// Whether two boards hold the same piece, colour and kind, on every square.
    pub fn same_position(&self, other: &Board) -> (r: bool)
        ensures
            r == (self@ == other@),
    {
        let mut i: usize = 0;
        while i < 64
            invariant
                i <= 64,
                forall|j: int| 0 <= j < i ==> self@[j] == other@[j],
            decreases 64 - i,
        {
            if !self.squares[i].same_piece(&other.squares[i]) {
                return false;
            }
            i += 1;
        }
        assert(self@ =~= other@);
        true
    }
}

} // verus!
