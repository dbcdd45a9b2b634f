//! A position: the board together with what the rules need to know beside
//! it, and the effect of a move on the board.

use crate::board::Board;
use crate::board::at;
use crate::board::is_starting_grid;
use crate::board::put;
use crate::moves::CastleSide;
use crate::moves::CastlingRights;
use crate::moves::Move;
use crate::moves::MoveKind;
use crate::piece::ChessColor;
use crate::piece::Piece;
use crate::square::Square;
use crate::types::PieceKind;
use vstd::prelude::*;

verus! {

/// The mathematical model of a position: the grid of squares in scan order,
/// the side to move, the castling rights and the en passant target.
pub struct PositionModel {
    pub grid: Seq<Piece>,
    pub side: ChessColor,
    pub rights: CastlingRights,
    pub en_passant: Option<Square>,
}

/// A position.
#[derive(Copy, Clone, Debug)]
pub struct Position {
    pub board: Board,
    pub side_to_move: ChessColor,
    pub castling_rights: CastlingRights,
    pub en_passant_target: Option<Square>,
}

impl View for Position {
    type V = PositionModel;

    open spec fn view(&self) -> PositionModel {
        PositionModel {
            grid: self.board@,
            side: self.side_to_move,
            rights: self.castling_rights,
            en_passant: self.en_passant_target,
        }
    }
}

/// The rank on which a side's king and rooks start.
pub open spec fn home_rank(c: ChessColor) -> int {
    match c {
        ChessColor::White => 0,
        ChessColor::Black => 7,
    }
}

/// The rank on which a side's pawns start.
pub open spec fn pawn_rank(c: ChessColor) -> int {
    match c {
        ChessColor::White => 1,
        ChessColor::Black => 6,
    }
}

/// The rank on which a side's pawns promote.
pub open spec fn last_rank(c: ChessColor) -> int {
    match c {
        ChessColor::White => 7,
        ChessColor::Black => 0,
    }
}

/// The file of the rook that takes part in castling towards a wing.
pub open spec fn rook_file(side: CastleSide) -> int {
    match side {
        CastleSide::KingSide => 7,
        CastleSide::QueenSide => 0,
    }
}

/// The file on which the king lands when it castles towards a wing.
pub open spec fn king_target_file(side: CastleSide) -> int {
    match side {
        CastleSide::KingSide => 6,
        CastleSide::QueenSide => 2,
    }
}

/// The file that the king crosses, and on which the rook lands, in castling
/// towards a wing.
pub open spec fn crossing_file(side: CastleSide) -> int {
    match side {
        CastleSide::KingSide => 5,
        CastleSide::QueenSide => 3,
    }
}

/// The piece that arrives on the destination of a move made by `side`.
pub open spec fn arriving(g: Seq<Piece>, side: ChessColor, m: Move) -> Piece {
    match m.kind {
        MoveKind::Promotion(k) => Piece::spec_of(side, k),
        _ => at(g, m.from.file as int, m.from.rank as int),
    }
}

/// The piece that a move takes off the board; the empty square where it
/// takes none.
pub open spec fn captured_by(g: Seq<Piece>, m: Move) -> Piece {
    match m.kind {
        MoveKind::EnPassantCapture => at(g, m.to.file as int, m.from.rank as int),
        _ => at(g, m.to.file as int, m.to.rank as int),
    }
}

/// The grid after `side` has made a move: the origin is emptied and the
/// destination holds the arriving piece; an en passant capture also empties
/// the square beside the origin, and castling also takes the rook from its
/// corner to the square that the king crossed.
pub open spec fn grid_after(g: Seq<Piece>, side: ChessColor, m: Move) -> Seq<Piece> {
    let moved = put(
        put(g, m.from.file as int, m.from.rank as int, Piece::Empty),
        m.to.file as int,
        m.to.rank as int,
        arriving(g, side, m),
    );
    match m.kind {
        MoveKind::EnPassantCapture => put(moved, m.to.file as int, m.from.rank as int, Piece::Empty),
        MoveKind::Castle(s) => put(
            put(moved, rook_file(s), m.from.rank as int, Piece::Empty),
            crossing_file(s),
            m.from.rank as int,
            at(g, rook_file(s), m.from.rank as int),
        ),
        _ => moved,
    }
}

/// The grid before `side` made a move that took `captured`, given the grid
/// after it.
pub open spec fn grid_before(g: Seq<Piece>, side: ChessColor, m: Move, captured: Piece) -> Seq<
    Piece,
> {
    let mover = match m.kind {
        MoveKind::Promotion(_) => Piece::spec_of(side, PieceKind::Pawn),
        _ => at(g, m.to.file as int, m.to.rank as int),
    };
    let left = match m.kind {
        MoveKind::EnPassantCapture => Piece::Empty,
        _ => captured,
    };
    let back = put(
        put(g, m.to.file as int, m.to.rank as int, left),
        m.from.file as int,
        m.from.rank as int,
        mover,
    );
    match m.kind {
        MoveKind::EnPassantCapture => put(back, m.to.file as int, m.from.rank as int, captured),
        MoveKind::Castle(s) => put(
            put(back, crossing_file(s), m.from.rank as int, Piece::Empty),
            rook_file(s),
            m.from.rank as int,
            at(g, crossing_file(s), m.from.rank as int),
        ),
        _ => back,
    }
}

/// The square that a double pawn push leaves behind as the en passant
/// target; none after any other move.
pub open spec fn en_passant_after(m: Move) -> Option<Square> {
    match m.kind {
        MoveKind::DoublePawnPush => Some(
            Square { file: m.from.file, rank: ((m.from.rank + m.to.rank) / 2) as u8 },
        ),
        _ => None,
    }
}

/// Whether a move touches the given square, as origin or as destination.
pub open spec fn touches(m: Move, f: int, r: int) -> bool {
    (m.from.file == f && m.from.rank == r) || (m.to.file == f && m.to.rank == r)
}

/// The castling rights after a move: a right is lost once the move leaves
/// from or arrives on the home square of the king or of the rook that the
/// right belongs to. No move gives a right back.
pub open spec fn rights_after(rights: CastlingRights, m: Move) -> CastlingRights {
    CastlingRights {
        white_king_side: rights.white_king_side && !touches(m, 4, 0) && !touches(m, 7, 0),
        white_queen_side: rights.white_queen_side && !touches(m, 4, 0) && !touches(m, 0, 0),
        black_king_side: rights.black_king_side && !touches(m, 4, 7) && !touches(m, 7, 7),
        black_queen_side: rights.black_queen_side && !touches(m, 4, 7) && !touches(m, 0, 7),
    }
}

impl PositionModel {
    /// Whether the grid has its sixty-four squares and the en passant
    /// target, if there is one, lies on the board.
    pub open spec fn valid(self) -> bool {
        &&& self.grid.len() == 64
        &&& self.en_passant matches Some(q) ==> q.valid()
    }

    /// The position after the side to move has made the given move.
    pub open spec fn after(self, m: Move) -> PositionModel {
        PositionModel {
            grid: grid_after(self.grid, self.side, m),
            side: self.side.spec_opposite(),
            rights: rights_after(self.rights, m),
            en_passant: en_passant_after(m),
        }
    }
}

fn rook_file_of(side: CastleSide) -> (f: u8)
    ensures
        f == rook_file(side),
{
    match side {
        CastleSide::KingSide => 7,
        CastleSide::QueenSide => 0,
    }
}

fn crossing_file_of(side: CastleSide) -> (f: u8)
    ensures
        f == crossing_file(side),
{
    match side {
        CastleSide::KingSide => 5,
        CastleSide::QueenSide => 3,
    }
}

fn touches_square(m: &Move, file: u8, rank: u8) -> (t: bool)
    ensures
        t == touches(*m, file as int, rank as int),
{
    (m.from.file == file && m.from.rank == rank) || (m.to.file == file && m.to.rank == rank)
}

impl Position {
    /// Whether the en passant target, if there is one, lies on the board.
    pub open spec fn valid(self) -> bool {
        self.en_passant_target matches Some(q) ==> q.valid()
    }

    /// The position at the start of a game.
    pub fn starting() -> (p: Position)
        ensures
            p.valid(),
            p@.valid(),
            is_starting_grid(p.board@),
            p.side_to_move == ChessColor::White,
            p.castling_rights == (CastlingRights {
                white_king_side: true,
                white_queen_side: true,
                black_king_side: true,
                black_queen_side: true,
            }),
            p.en_passant_target is None,
    {
        Position {
            board: Board::starting(),
            side_to_move: ChessColor::White,
            castling_rights: CastlingRights::all(),
            en_passant_target: None,
        }
    }
}

/// Makes on the board the changes of a move by `side`, and returns the
/// piece that the move took off the board.
pub fn play_on_board(b: &mut Board, side: ChessColor, m: &Move) -> (captured: Piece)
    requires
        m.valid(),
    ensures
        final(b)@ == grid_after(old(b)@, side, *m),
        captured == captured_by(old(b)@, *m),
{
    let mover = b.piece_at(m.from);
    let beside = Square { file: m.to.file, rank: m.from.rank };
    let captured = match m.kind {
        MoveKind::EnPassantCapture => b.piece_at(beside),
        _ => b.piece_at(m.to),
    };
    let rook = match m.kind {
        MoveKind::Castle(s) => b.piece_at(Square { file: rook_file_of(s), rank: m.from.rank }),
        _ => Piece::Empty,
    };
    let arriving = match m.kind {
        MoveKind::Promotion(k) => Piece::of(side, k),
        _ => mover,
    };
    b.place(m.from, Piece::Empty);
    b.place(m.to, arriving);
    match m.kind {
        MoveKind::EnPassantCapture => {
            b.place(beside, Piece::Empty);
        },
        MoveKind::Castle(s) => {
            let corner = Square { file: rook_file_of(s), rank: m.from.rank };
            let crossing = Square { file: crossing_file_of(s), rank: m.from.rank };
            b.place(corner, Piece::Empty);
            b.place(crossing, rook);
        },
        _ => {},
    }
    captured
}

/// Takes back on the board the changes of a move by `side` that took
/// `captured` off the board.
pub fn take_back_on_board(b: &mut Board, side: ChessColor, m: &Move, captured: Piece)
    requires
        m.valid(),
    ensures
        final(b)@ == grid_before(old(b)@, side, *m, captured),
{
    let arrived = b.piece_at(m.to);
    let rook = match m.kind {
        MoveKind::Castle(s) => b.piece_at(Square { file: crossing_file_of(s), rank: m.from.rank }),
        _ => Piece::Empty,
    };
    let mover = match m.kind {
        MoveKind::Promotion(_) => Piece::of(side, PieceKind::Pawn),
        _ => arrived,
    };
    let left = match m.kind {
        MoveKind::EnPassantCapture => Piece::Empty,
        _ => captured,
    };
    b.place(m.to, left);
    b.place(m.from, mover);
    match m.kind {
        MoveKind::EnPassantCapture => {
            b.place(Square { file: m.to.file, rank: m.from.rank }, captured);
        },
        MoveKind::Castle(s) => {
            let corner = Square { file: rook_file_of(s), rank: m.from.rank };
            let crossing = Square { file: crossing_file_of(s), rank: m.from.rank };
            b.place(crossing, Piece::Empty);
            b.place(corner, rook);
        },
        _ => {},
    }
}

/// The castling rights that are left after a move.
pub fn rights_left(rights: CastlingRights, m: &Move) -> (r: CastlingRights)
    ensures
        r == rights_after(rights, *m),
        r.within(rights),
{
    let wk = touches_square(m, 4, 0);
    let bk = touches_square(m, 4, 7);
    CastlingRights {
        white_king_side: rights.white_king_side && !wk && !touches_square(m, 7, 0),
        white_queen_side: rights.white_queen_side && !wk && !touches_square(m, 0, 0),
        black_king_side: rights.black_king_side && !bk && !touches_square(m, 7, 7),
        black_queen_side: rights.black_queen_side && !bk && !touches_square(m, 0, 7),
    }
}

/// The en passant target that a move leaves behind.
pub fn en_passant_left(m: &Move) -> (t: Option<Square>)
    requires
        m.valid(),
    ensures
        t == en_passant_after(*m),
        t matches Some(q) ==> q.valid(),
{
    match m.kind {
        MoveKind::DoublePawnPush => Some(
            Square { file: m.from.file, rank: (m.from.rank + m.to.rank) / 2 },
        ),
        _ => None,
    }
}

} // verus!
