//! Pseudo-legal moves: every move that fits a piece's way of moving and the
//! pieces on the board, whether or not it leaves the mover's king attacked.
//!
//! Moves are listed origin by origin in scan order. For one origin they
//! follow a fixed order of directions: up, right, down, left, then the
//! diagonals up-right, down-right, down-left, up-left. A knight's jumps go
//! clockwise from the jump one file right and two ranks up. A pawn's
//! advances come before its capture towards the a-file, which comes before
//! its capture towards the h-file, and promotions are listed queen, rook,
//! bishop, knight. Castling closes a king's list, king side first.

use crate::attack::attacked;
use crate::attack::clear_between;
use crate::attack::forward;
use crate::attack::is_attacked;
use crate::attack::is_clear_between;
use crate::attack::shift;
use crate::board::Board;
use crate::board::at;
use crate::listing::lemma_listing_is_exact;
use crate::moves::CastleSide;
use crate::moves::CastlingRights;
use crate::moves::Move;
use crate::moves::MoveKind;
use crate::order::in_scan_order;
use crate::order::lemma_listing_is_ordered;
use crate::piece::ChessColor;
use crate::piece::Piece;
use crate::position::Position;
use crate::position::PositionModel;
use crate::position::crossing_file;
use crate::position::home_rank;
use crate::position::king_target_file;
use crate::position::last_rank;
use crate::position::pawn_rank;
use crate::position::rook_file;
use crate::rules::pseudo_legal;
use crate::square::Square;
use crate::square::on_board;
use crate::square::square_at;
use crate::types::PieceKind;
use vstd::prelude::*;

verus! {

/// The move of the given kind between two squares.
pub open spec fn mv(f: int, r: int, tf: int, tr: int, kind: MoveKind) -> Move {
    Move { from: square_at(f, r), to: square_at(tf, tr), kind }
}

/// The file step of the direction with the given number.
pub open spec fn dir_file(i: int) -> int {
    if i == 1 || i == 4 || i == 5 {
        1
    } else if i == 3 || i == 6 || i == 7 {
        -1
    } else {
        0
    }
}

/// The rank step of the direction with the given number.
pub open spec fn dir_rank(i: int) -> int {
    if i == 0 || i == 4 || i == 7 {
        1
    } else if i == 2 || i == 5 || i == 6 {
        -1
    } else {
        0
    }
}

/// The file step of the knight's jump with the given number.
pub open spec fn jump_file(i: int) -> int {
    if i == 0 || i == 3 {
        1
    } else if i == 1 || i == 2 {
        2
    } else if i == 4 || i == 7 {
        -1
    } else {
        -2
    }
}

/// The rank step of the knight's jump with the given number.
pub open spec fn jump_rank(i: int) -> int {
    if i == 0 || i == 7 {
        2
    } else if i == 1 || i == 6 {
        1
    } else if i == 2 || i == 5 {
        -1
    } else {
        -2
    }
}

/// The move of a piece of the given colour from `(f, r)` to `(tf, tr)`, if
/// the target is on the board and holds no piece of that colour: a capture
/// where it holds a piece, a normal move where it is empty.
pub open spec fn step_to(g: Seq<Piece>, color: ChessColor, f: int, r: int, tf: int, tr: int) -> Seq<
    Move,
> {
    if !on_board(tf, tr) {
        Seq::empty()
    } else if at(g, tf, tr) == Piece::Empty {
        seq![mv(f, r, tf, tr, MoveKind::Normal)]
    } else if at(g, tf, tr).spec_color() != Some(color) {
        seq![mv(f, r, tf, tr, MoveKind::Capture)]
    } else {
        Seq::empty()
    }
}

/// The moves along one ray from its `k`-th square onwards: the ray runs
/// over empty squares and ends before a piece of the mover's colour, on a
/// piece of the other colour, which it captures, or at the edge.
pub open spec fn ray_moves(
    g: Seq<Piece>,
    color: ChessColor,
    f: int,
    r: int,
    df: int,
    dr: int,
    k: int,
) -> Seq<Move>
    decreases 8 - k,
{
    let tf = shift(f, df, k);
    let tr = shift(r, dr, k);
    if k < 1 || k >= 8 || !on_board(tf, tr) {
        Seq::empty()
    } else if at(g, tf, tr) == Piece::Empty {
        seq![mv(f, r, tf, tr, MoveKind::Normal)] + ray_moves(g, color, f, r, df, dr, k + 1)
    } else if at(g, tf, tr).spec_color() != Some(color) {
        seq![mv(f, r, tf, tr, MoveKind::Capture)]
    } else {
        Seq::empty()
    }
}

/// The moves along the rays with numbers from `lo` up to, not including, `hi`.
pub open spec fn slide_moves(
    g: Seq<Piece>,
    color: ChessColor,
    f: int,
    r: int,
    lo: int,
    hi: int,
) -> Seq<Move>
    decreases hi - lo,
{
    if hi <= lo {
        Seq::empty()
    } else {
        slide_moves(g, color, f, r, lo, hi - 1) + ray_moves(
            g,
            color,
            f,
            r,
            dir_file(hi - 1),
            dir_rank(hi - 1),
            1,
        )
    }
}

/// The single steps in the first `n` directions, or the first `n` knight's
/// jumps.
pub open spec fn hop_moves(
    g: Seq<Piece>,
    color: ChessColor,
    f: int,
    r: int,
    knight: bool,
    n: int,
) -> Seq<Move>
    decreases n,
{
    if n <= 0 {
        Seq::empty()
    } else {
        hop_moves(g, color, f, r, knight, n - 1) + step_to(
            g,
            color,
            f,
            r,
            f + (if knight {
                jump_file(n - 1)
            } else {
                dir_file(n - 1)
            }),
            r + (if knight {
                jump_rank(n - 1)
            } else {
                dir_rank(n - 1)
            }),
        )
    }
}

/// The four promotions of a pawn that goes from `(f, r)` to `(tf, tr)`.
pub open spec fn promotions(f: int, r: int, tf: int, tr: int) -> Seq<Move> {
    seq![
        mv(f, r, tf, tr, MoveKind::Promotion(PieceKind::Queen)),
        mv(f, r, tf, tr, MoveKind::Promotion(PieceKind::Rook)),
        mv(f, r, tf, tr, MoveKind::Promotion(PieceKind::Bishop)),
        mv(f, r, tf, tr, MoveKind::Promotion(PieceKind::Knight)),
    ]
}

/// A pawn's moves straight ahead: one square if it is empty, and from the
/// starting rank two squares if both are empty.
pub open spec fn pawn_advances(g: Seq<Piece>, color: ChessColor, f: int, r: int) -> Seq<Move> {
    let r1 = r + forward(color);
    let r2 = r1 + forward(color);
    if !on_board(f, r1) || at(g, f, r1) != Piece::Empty {
        Seq::empty()
    } else if r1 == last_rank(color) {
        promotions(f, r, f, r1)
    } else if r == pawn_rank(color) && at(g, f, r2) == Piece::Empty {
        seq![mv(f, r, f, r1, MoveKind::Normal), mv(f, r, f, r2, MoveKind::DoublePawnPush)]
    } else {
        seq![mv(f, r, f, r1, MoveKind::Normal)]
    }
}

/// A pawn's capture onto the file `tf` beside it: of the piece of the other
/// colour that stands diagonally ahead, or en passant where that square is
/// the empty en passant target and a pawn of the other colour stands beside
/// the capturing pawn.
pub open spec fn pawn_capture(
    g: Seq<Piece>,
    color: ChessColor,
    en_passant: Option<Square>,
    f: int,
    r: int,
    tf: int,
) -> Seq<Move> {
    let tr = r + forward(color);
    if !on_board(tf, tr) {
        Seq::empty()
    } else if at(g, tf, tr).spec_color() == Some(color.spec_opposite()) {
        if tr == last_rank(color) {
            promotions(f, r, tf, tr)
        } else {
            seq![mv(f, r, tf, tr, MoveKind::Capture)]
        }
    } else if at(g, tf, tr) == Piece::Empty && en_passant == Some(square_at(tf, tr)) && at(g, tf, r)
        == Piece::spec_of(color.spec_opposite(), PieceKind::Pawn) {
        seq![mv(f, r, tf, tr, MoveKind::EnPassantCapture)]
    } else {
        Seq::empty()
    }
}

/// All moves of a pawn.
pub open spec fn pawn_moves(
    g: Seq<Piece>,
    color: ChessColor,
    en_passant: Option<Square>,
    f: int,
    r: int,
) -> Seq<Move> {
    pawn_advances(g, color, f, r) + pawn_capture(g, color, en_passant, f, r, f - 1) + pawn_capture(
        g,
        color,
        en_passant,
        f,
        r,
        f + 1,
    )
}

/// Whether a side may castle towards a wing now: it still has the right,
/// king and rook stand on their home squares with only empty squares
/// between them, and the other side attacks neither the king's square nor
/// the square it crosses nor the square it lands on.
pub open spec fn can_castle(
    g: Seq<Piece>,
    color: ChessColor,
    rights: CastlingRights,
    side: CastleSide,
) -> bool {
    let h = home_rank(color);
    &&& rights.spec_allows(color, side)
    &&& at(g, 4, h) == Piece::spec_of(color, PieceKind::King)
    &&& at(g, rook_file(side), h) == Piece::spec_of(color, PieceKind::Rook)
    &&& clear_between(g, 4, h, rook_file(side), h)
    &&& !attacked(g, color.spec_opposite(), 4, h)
    &&& !attacked(g, color.spec_opposite(), crossing_file(side), h)
    &&& !attacked(g, color.spec_opposite(), king_target_file(side), h)
}

/// The castling move of a king on `(f, r)` towards a wing, if there is one.
pub open spec fn castle_move(
    g: Seq<Piece>,
    color: ChessColor,
    rights: CastlingRights,
    f: int,
    r: int,
    side: CastleSide,
) -> Seq<Move> {
    if f == 4 && r == home_rank(color) && can_castle(g, color, rights, side) {
        seq![mv(f, r, king_target_file(side), r, MoveKind::Castle(side))]
    } else {
        Seq::empty()
    }
}

/// All moves of a king.
pub open spec fn king_moves(
    g: Seq<Piece>,
    color: ChessColor,
    rights: CastlingRights,
    f: int,
    r: int,
) -> Seq<Move> {
    hop_moves(g, color, f, r, false, 8) + castle_move(g, color, rights, f, r, CastleSide::KingSide)
        + castle_move(g, color, rights, f, r, CastleSide::QueenSide)
}

/// The moves of whatever stands on `(f, r)`: none unless it is a piece of
/// the side to move.
pub open spec fn piece_moves(p: PositionModel, f: int, r: int) -> Seq<Move> {
    let x = at(p.grid, f, r);
    if x.spec_color() != Some(p.side) {
        Seq::empty()
    } else {
        match x.spec_kind() {
            Some(PieceKind::King) => king_moves(p.grid, p.side, p.rights, f, r),
            Some(PieceKind::Queen) => slide_moves(p.grid, p.side, f, r, 0, 8),
            Some(PieceKind::Rook) => slide_moves(p.grid, p.side, f, r, 0, 4),
            Some(PieceKind::Bishop) => slide_moves(p.grid, p.side, f, r, 4, 8),
            Some(PieceKind::Knight) => hop_moves(p.grid, p.side, f, r, true, 8),
            Some(PieceKind::Pawn) => pawn_moves(p.grid, p.side, p.en_passant, f, r),
            None => Seq::empty(),
        }
    }
}

/// The moves of the pieces on the first `n` squares in scan order.
pub open spec fn moves_before(p: PositionModel, n: int) -> Seq<Move>
    decreases n,
{
    if n <= 0 {
        Seq::empty()
    } else {
        moves_before(p, n - 1) + piece_moves(p, (n - 1) % 8, (n - 1) / 8)
    }
}

/// All pseudo-legal moves of the side to move.
pub open spec fn pseudo_moves(p: PositionModel) -> Seq<Move> {
    moves_before(p, 64)
}

fn dir_of(i: u8) -> (d: (i8, i8))
    requires
        i < 8,
    ensures
        d.0 == dir_file(i as int),
        d.1 == dir_rank(i as int),
{
    match i {
        0 => (0, 1),
        1 => (1, 0),
        2 => (0, -1),
        3 => (-1, 0),
        4 => (1, 1),
        5 => (1, -1),
        6 => (-1, -1),
        _ => (-1, 1),
    }
}

fn jump_of(i: u8) -> (d: (i8, i8))
    requires
        i < 8,
    ensures
        d.0 == jump_file(i as int),
        d.1 == jump_rank(i as int),
{
    match i {
        0 => (1, 2),
        1 => (2, 1),
        2 => (2, -1),
        3 => (1, -2),
        4 => (-1, -2),
        5 => (-2, -1),
        6 => (-2, 1),
        _ => (-1, 2),
    }
}

fn forward_of(c: ChessColor) -> (d: i8)
    ensures
        d == forward(c),
{
    match c {
        ChessColor::White => 1,
        ChessColor::Black => -1,
    }
}

fn push_step(b: &Board, color: ChessColor, from: Square, df: i8, dr: i8, out: &mut Vec<Move>)
    requires
        from.valid(),
        -2 <= df <= 2,
        -2 <= dr <= 2,
    ensures
        final(out)@ == old(out)@ + step_to(
            b@,
            color,
            from.file as int,
            from.rank as int,
            from.file + df,
            from.rank + dr,
        ),
{
    match from.offset(df, dr) {
        Some(to) => {
            let t = b.piece_at(to);
            if t.is_empty() {
                out.push(Move { from, to, kind: MoveKind::Normal });
            } else if !t.is_color(color) {
                out.push(Move { from, to, kind: MoveKind::Capture });
            }
        },
        None => {},
    }
    assert(final(out)@ =~= old(out)@ + step_to(
        b@,
        color,
        from.file as int,
        from.rank as int,
        from.file + df,
        from.rank + dr,
    ));
}

fn push_ray(b: &Board, color: ChessColor, from: Square, df: i8, dr: i8, out: &mut Vec<Move>)
    requires
        from.valid(),
        -1 <= df <= 1,
        -1 <= dr <= 1,
    ensures
        final(out)@ == old(out)@ + ray_moves(
            b@,
            color,
            from.file as int,
            from.rank as int,
            df as int,
            dr as int,
            1,
        ),
{
    let ghost f = from.file as int;
    let ghost r = from.rank as int;
    let ghost goal = old(out)@ + ray_moves(b@, color, f, r, df as int, dr as int, 1);
    let mut cur = from;
    let mut k: u8 = 1;
    let mut open = true;
    while open
        invariant
            from.valid(),
            f == from.file,
            r == from.rank,
            -1 <= df <= 1,
            -1 <= dr <= 1,
            1 <= k <= 8,
            cur.valid(),
            cur.file == shift(f, df as int, k - 1),
            cur.rank == shift(r, dr as int, k - 1),
            open ==> goal == out@ + ray_moves(b@, color, f, r, df as int, dr as int, k as int),
            !open ==> goal == out@,
        decreases (if open { 10 - k } else { 0 }),
    {
        if k >= 8 {
            open = false;
            assert(out@ + Seq::<Move>::empty() =~= out@);
        } else {
            let ghost rest = ray_moves(b@, color, f, r, df as int, dr as int, k as int);
            let ghost before = out@;
            match cur.offset(df, dr) {
                Some(to) => {
                    let t = b.piece_at(to);
                    if t.is_empty() {
                        out.push(Move { from, to, kind: MoveKind::Normal });
                        cur = to;
                        k += 1;
                        assert(out@ + ray_moves(b@, color, f, r, df as int, dr as int, k as int)
                            =~= before + rest);
                    } else {
                        if !t.is_color(color) {
                            out.push(Move { from, to, kind: MoveKind::Capture });
                        }
                        open = false;
                        assert(out@ =~= before + rest);
                    }
                },
                None => {
                    open = false;
                    assert(out@ =~= before + rest);
                },
            }
        }
    }
}

fn push_slides(b: &Board, color: ChessColor, from: Square, lo: u8, hi: u8, out: &mut Vec<Move>)
    requires
        from.valid(),
        lo <= hi <= 8,
    ensures
        final(out)@ == old(out)@ + slide_moves(
            b@,
            color,
            from.file as int,
            from.rank as int,
            lo as int,
            hi as int,
        ),
{
    let ghost f = from.file as int;
    let ghost r = from.rank as int;
    let mut i: u8 = lo;
    assert(out@ + slide_moves(b@, color, f, r, lo as int, lo as int) =~= out@);
    while i < hi
        invariant
            from.valid(),
            f == from.file,
            r == from.rank,
            lo <= i <= hi <= 8,
            out@ == old(out)@ + slide_moves(b@, color, f, r, lo as int, i as int),
        decreases hi - i,
    {
        let d = dir_of(i);
        let ghost before = out@;
        push_ray(b, color, from, d.0, d.1, out);
        i += 1;
        assert(out@ =~= old(out)@ + slide_moves(b@, color, f, r, lo as int, i as int));
    }
}

fn push_hops(b: &Board, color: ChessColor, from: Square, knight: bool, out: &mut Vec<Move>)
    requires
        from.valid(),
    ensures
        final(out)@ == old(out)@ + hop_moves(
            b@,
            color,
            from.file as int,
            from.rank as int,
            knight,
            8,
        ),
{
    let ghost f = from.file as int;
    let ghost r = from.rank as int;
    let mut i: u8 = 0;
    assert(out@ + hop_moves(b@, color, f, r, knight, 0) =~= out@);
    while i < 8
        invariant
            from.valid(),
            f == from.file,
            r == from.rank,
            i <= 8,
            out@ == old(out)@ + hop_moves(b@, color, f, r, knight, i as int),
        decreases 8 - i,
    {
        let d = if knight {
            jump_of(i)
        } else {
            dir_of(i)
        };
        push_step(b, color, from, d.0, d.1, out);
        i += 1;
        assert(out@ =~= old(out)@ + hop_moves(b@, color, f, r, knight, i as int));
    }
}

fn push_promotions(from: Square, to: Square, out: &mut Vec<Move>)
    requires
        from.valid(),
        to.valid(),
    ensures
        final(out)@ == old(out)@ + promotions(
            from.file as int,
            from.rank as int,
            to.file as int,
            to.rank as int,
        ),
{
    out.push(Move { from, to, kind: MoveKind::Promotion(PieceKind::Queen) });
    out.push(Move { from, to, kind: MoveKind::Promotion(PieceKind::Rook) });
    out.push(Move { from, to, kind: MoveKind::Promotion(PieceKind::Bishop) });
    out.push(Move { from, to, kind: MoveKind::Promotion(PieceKind::Knight) });
    assert(final(out)@ =~= old(out)@ + promotions(
        from.file as int,
        from.rank as int,
        to.file as int,
        to.rank as int,
    ));
}

fn last_rank_of(c: ChessColor) -> (r: u8)
    ensures
        r == last_rank(c),
{
    match c {
        ChessColor::White => 7,
        ChessColor::Black => 0,
    }
}

fn pawn_rank_of(c: ChessColor) -> (r: u8)
    ensures
        r == pawn_rank(c),
{
    match c {
        ChessColor::White => 1,
        ChessColor::Black => 6,
    }
}

fn push_pawn_advances(b: &Board, color: ChessColor, from: Square, out: &mut Vec<Move>)
    requires
        from.valid(),
    ensures
        final(out)@ == old(out)@ + pawn_advances(b@, color, from.file as int, from.rank as int),
{
    let fw = forward_of(color);
    match from.offset(0, fw) {
        Some(one) => {
            if b.is_empty(one) {
                if one.rank == last_rank_of(color) {
                    push_promotions(from, one, out);
                } else {
                    out.push(Move { from, to: one, kind: MoveKind::Normal });
                    if from.rank == pawn_rank_of(color) {
                        match one.offset(0, fw) {
                            Some(two) => {
                                if b.is_empty(two) {
                                    out.push(Move { from, to: two, kind: MoveKind::DoublePawnPush });
                                }
                            },
                            None => {},
                        }
                    }
                }
            }
        },
        None => {},
    }
    assert(final(out)@ =~= old(out)@ + pawn_advances(
        b@,
        color,
        from.file as int,
        from.rank as int,
    ));
}

fn push_pawn_capture(
    b: &Board,
    color: ChessColor,
    en_passant: Option<Square>,
    from: Square,
    df: i8,
    out: &mut Vec<Move>,
)
    requires
        from.valid(),
        -1 <= df <= 1,
    ensures
        final(out)@ == old(out)@ + pawn_capture(
            b@,
            color,
            en_passant,
            from.file as int,
            from.rank as int,
            from.file + df,
        ),
{
    let fw = forward_of(color);
    let enemy = color.opposite();
    match from.offset(df, fw) {
        Some(to) => {
            let t = b.piece_at(to);
            if t.is_color(enemy) {
                if to.rank == last_rank_of(color) {
                    push_promotions(from, to, out);
                } else {
                    out.push(Move { from, to, kind: MoveKind::Capture });
                }
            } else if t.is_empty() {
                let is_target = match en_passant {
                    Some(q) => q == to,
                    None => false,
                };
                let beside = Square { file: to.file, rank: from.rank };
                if is_target && b.piece_at(beside).same_piece(&Piece::of(enemy, PieceKind::Pawn)) {
                    out.push(Move { from, to, kind: MoveKind::EnPassantCapture });
                }
            }
        },
        None => {},
    }
    assert(final(out)@ =~= old(out)@ + pawn_capture(
        b@,
        color,
        en_passant,
        from.file as int,
        from.rank as int,
        from.file + df,
    ));
}

/// Whether a side may castle towards a wing now.
pub fn may_castle(b: &Board, color: ChessColor, rights: CastlingRights, side: CastleSide) -> (ok:
    bool)
    ensures
        ok == can_castle(b@, color, rights, side),
{
    let h: u8 = match color {
        ChessColor::White => 0,
        ChessColor::Black => 7,
    };
    let enemy = color.opposite();
    let king = Square { file: 4, rank: h };
    let corner = Square {
        file: match side {
            CastleSide::KingSide => 7,
            CastleSide::QueenSide => 0,
        },
        rank: h,
    };
    let crossing = Square {
        file: match side {
            CastleSide::KingSide => 5,
            CastleSide::QueenSide => 3,
        },
        rank: h,
    };
    let target = Square {
        file: match side {
            CastleSide::KingSide => 6,
            CastleSide::QueenSide => 2,
        },
        rank: h,
    };
    rights.allows(color, side) && b.piece_at(king).same_piece(&Piece::of(color, PieceKind::King))
        && b.piece_at(corner).same_piece(&Piece::of(color, PieceKind::Rook)) && is_clear_between(
        b,
        king,
        corner,
    ) && !is_attacked(b, enemy, king) && !is_attacked(b, enemy, crossing) && !is_attacked(
        b,
        enemy,
        target,
    )
}

fn push_castle(
    b: &Board,
    color: ChessColor,
    rights: CastlingRights,
    from: Square,
    side: CastleSide,
    out: &mut Vec<Move>,
)
    requires
        from.valid(),
    ensures
        final(out)@ == old(out)@ + castle_move(
            b@,
            color,
            rights,
            from.file as int,
            from.rank as int,
            side,
        ),
{
    let h: u8 = match color {
        ChessColor::White => 0,
        ChessColor::Black => 7,
    };
    if from.file == 4 && from.rank == h && may_castle(b, color, rights, side) {
        let to = Square {
            file: match side {
                CastleSide::KingSide => 6,
                CastleSide::QueenSide => 2,
            },
            rank: h,
        };
        out.push(Move { from, to, kind: MoveKind::Castle(side) });
    }
    assert(final(out)@ =~= old(out)@ + castle_move(
        b@,
        color,
        rights,
        from.file as int,
        from.rank as int,
        side,
    ));
}

impl Position {
    /// Appends the moves of whatever stands on a square.
    fn push_piece_moves(&self, from: Square, out: &mut Vec<Move>)
        requires
            from.valid(),
        ensures
            final(out)@ == old(out)@ + piece_moves(self@, from.file as int, from.rank as int),
    {
        let ghost f = from.file as int;
        let ghost r = from.rank as int;
        let x = self.board.piece_at(from);
        let color = self.side_to_move;
        if x.is_color(color) {
            match x.kind() {
                Some(PieceKind::King) => {
                    push_hops(&self.board, color, from, false, out);
                    push_castle(
                        &self.board,
                        color,
                        self.castling_rights,
                        from,
                        CastleSide::KingSide,
                        out,
                    );
                    push_castle(
                        &self.board,
                        color,
                        self.castling_rights,
                        from,
                        CastleSide::QueenSide,
                        out,
                    );
                    assert(final(out)@ =~= old(out)@ + king_moves(
                        self@.grid,
                        color,
                        self@.rights,
                        f,
                        r,
                    ));
                },
                Some(PieceKind::Queen) => {
                    push_slides(&self.board, color, from, 0, 8, out);
                },
                Some(PieceKind::Rook) => {
                    push_slides(&self.board, color, from, 0, 4, out);
                },
                Some(PieceKind::Bishop) => {
                    push_slides(&self.board, color, from, 4, 8, out);
                },
                Some(PieceKind::Knight) => {
                    push_hops(&self.board, color, from, true, out);
                },
                Some(PieceKind::Pawn) => {
                    push_pawn_advances(&self.board, color, from, out);
                    push_pawn_capture(&self.board, color, self.en_passant_target, from, -1, out);
                    push_pawn_capture(&self.board, color, self.en_passant_target, from, 1, out);
                    assert(final(out)@ =~= old(out)@ + pawn_moves(
                        self@.grid,
                        color,
                        self@.en_passant,
                        f,
                        r,
                    ));
                },
                None => {},
            }
        } else {
            assert(final(out)@ =~= old(out)@ + piece_moves(self@, f, r));
        }
    }

    /// The pseudo-legal moves of the piece on a square; none where the
    /// square is empty or holds a piece of the side that is not to move.
    pub fn piece_moves(&self, from: Square) -> (out: Vec<Move>)
        requires
            from.valid(),
        ensures
            out@ == piece_moves(self@, from.file as int, from.rank as int),
    {
        let mut out: Vec<Move> = Vec::new();
        self.push_piece_moves(from, &mut out);
        assert(Seq::<Move>::empty() + piece_moves(self@, from.file as int, from.rank as int)
            =~= piece_moves(self@, from.file as int, from.rank as int));
        out
    }

    /// All pseudo-legal moves of the side to move, origin by origin in scan
    /// order: every move that the rules of movement allow, and no other.
    pub fn pseudo_moves(&self) -> (out: Vec<Move>)
        ensures
            out@ == pseudo_moves(self@),
            forall|m: Move| out@.contains(m) <==> pseudo_legal(self@, m),
            out@.no_duplicates(),
            in_scan_order(out@),
    {
        proof {
            lemma_listing_is_ordered(self@);
            assert forall|m: Move|
                pseudo_moves(self@).contains(m) <==> pseudo_legal(self@, m) by {
                lemma_listing_is_exact(self@, m);
            }
        }
        let mut out: Vec<Move> = Vec::new();
        let mut idx: usize = 0;
        assert(out@ =~= moves_before(self@, 0));
        while idx < 64
            invariant
                idx <= 64,
                out@ == moves_before(self@, idx as int),
            decreases 64 - idx,
        {
            let from = Square { file: (idx % 8) as u8, rank: (idx / 8) as u8 };
            self.push_piece_moves(from, &mut out);
            idx += 1;
        }
        out
    }
}

} // verus!
