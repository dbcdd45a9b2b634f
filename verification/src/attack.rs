//! Attack detection: which squares a side threatens.
//!
//! A piece reaches a square when it could capture there on this move,
//! whatever stands on the square and whether or not the capture would
//! otherwise be allowed. Pawns reach the two squares diagonally ahead of
//! them and nothing else.

use crate::board::Board;
use crate::board::at;
use crate::piece::ChessColor;
use crate::piece::Piece;
use crate::square::Square;
use crate::square::on_board;
use crate::square::square_at;
use crate::types::PieceKind;
use vstd::prelude::*;

verus! {

/// The coordinate `k` steps from `x` in the direction given by the sign of `d`.
pub open spec fn shift(x: int, d: int, k: int) -> int {
    if d > 0 {
        x + k
    } else if d < 0 {
        x - k
    } else {
        x
    }
}

/// The size of a number.
pub open spec fn magnitude(x: int) -> int {
    if x < 0 {
        -x
    } else {
        x
    }
}

/// The number of king steps between two squares.
pub open spec fn distance(f: int, r: int, tf: int, tr: int) -> int {
    if magnitude(tf - f) > magnitude(tr - r) {
        magnitude(tf - f)
    } else {
        magnitude(tr - r)
    }
}

/// The direction in which a side's pawns advance: up the ranks for White,
/// down for Black.
pub open spec fn forward(c: ChessColor) -> int {
    match c {
        ChessColor::White => 1,
        ChessColor::Black => -1,
    }
}

/// What stands `j` steps from a square along the line towards a target.
pub open spec fn along(g: Seq<Piece>, f: int, r: int, tf: int, tr: int, j: int) -> Piece {
    at(g, shift(f, tf - f, j), shift(r, tr - r, j))
}

/// Whether every square strictly between two squares of one line is empty.
pub open spec fn clear_between(g: Seq<Piece>, f: int, r: int, tf: int, tr: int) -> bool {
    forall|j: int| 1 <= j < distance(f, r, tf, tr) ==> #[trigger] along(g, f, r, tf, tr, j) == Piece::Empty
}

/// Whether two different squares share a rank or a file.
pub open spec fn on_rook_line(f: int, r: int, tf: int, tr: int) -> bool {
    (tf == f) != (tr == r)
}

/// Whether two different squares share a diagonal.
pub open spec fn on_bishop_line(f: int, r: int, tf: int, tr: int) -> bool {
    tf != f && magnitude(tf - f) == magnitude(tr - r)
}

/// Whether a knight's jump leads from one square to the other.
pub open spec fn knight_jump(f: int, r: int, tf: int, tr: int) -> bool {
    (magnitude(tf - f) == 1 && magnitude(tr - r) == 2) || (magnitude(tf - f) == 2 && magnitude(
        tr - r,
    ) == 1)
}

/// Whether a piece of the given kind and colour on `(f, r)` reaches `(tf, tr)`.
pub open spec fn reaches(
    g: Seq<Piece>,
    kind: PieceKind,
    color: ChessColor,
    f: int,
    r: int,
    tf: int,
    tr: int,
) -> bool {
    match kind {
        PieceKind::Pawn => tr == r + forward(color) && magnitude(tf - f) == 1,
        PieceKind::Knight => knight_jump(f, r, tf, tr),
        PieceKind::King => distance(f, r, tf, tr) == 1,
        PieceKind::Rook => on_rook_line(f, r, tf, tr) && clear_between(g, f, r, tf, tr),
        PieceKind::Bishop => on_bishop_line(f, r, tf, tr) && clear_between(g, f, r, tf, tr),
        PieceKind::Queen => (on_rook_line(f, r, tf, tr) || on_bishop_line(f, r, tf, tr))
            && clear_between(g, f, r, tf, tr),
    }
}

/// Whether a piece of colour `by` stands on `(f, r)` and reaches `(tf, tr)`.
pub open spec fn attacks_from(g: Seq<Piece>, by: ChessColor, f: int, r: int, tf: int, tr: int) -> bool {
    match (at(g, f, r).spec_color(), at(g, f, r).spec_kind()) {
        (Some(c), Some(k)) => c == by && reaches(g, k, c, f, r, tf, tr),
        _ => false,
    }
}

/// Whether some piece of colour `by` reaches the square `(tf, tr)`.
pub open spec fn attacked(g: Seq<Piece>, by: ChessColor, tf: int, tr: int) -> bool {
    exists|f: int, r: int| on_board(f, r) && #[trigger] attacks_from(g, by, f, r, tf, tr)
}

/// Whether a king of the given colour stands on a square that the other
/// side attacks.
pub open spec fn in_check(g: Seq<Piece>, color: ChessColor) -> bool {
    exists|f: int, r: int| on_board(f, r) && #[trigger] king_attacked_on(g, color, f, r)
}

/// Whether `(f, r)` holds the king of the given colour and the other side
/// attacks it.
pub open spec fn king_attacked_on(g: Seq<Piece>, color: ChessColor, f: int, r: int) -> bool {
    at(g, f, r) == Piece::spec_of(color, PieceKind::King) && attacked(
        g,
        color.spec_opposite(),
        f,
        r,
    )
}

fn step_towards(from: u8, to: u8) -> (d: i8)
    requires
        from < 8,
        to < 8,
    ensures
        -1 <= d <= 1,
        (d > 0) == (to > from),
        (d < 0) == (to < from),
{
    if to > from {
        1
    } else if to < from {
        -1
    } else {
        0
    }
}

fn gap(a: u8, b: u8) -> (d: u8)
    requires
        a < 8,
        b < 8,
    ensures
        d == magnitude(b - a),
        d < 8,
{
    if a < b {
        b - a
    } else {
        a - b
    }
}

/// Whether every square strictly between two squares of one rank, file or
/// diagonal is empty.
pub fn is_clear_between(b: &Board, from: Square, target: Square) -> (clear: bool)
    requires
        from.valid(),
        target.valid(),
        on_rook_line(from.file as int, from.rank as int, target.file as int, target.rank as int)
            || on_bishop_line(
            from.file as int,
            from.rank as int,
            target.file as int,
            target.rank as int,
        ),
    ensures
        clear == clear_between(
            b@,
            from.file as int,
            from.rank as int,
            target.file as int,
            target.rank as int,
        ),
{
    let df: i8 = step_towards(from.file, target.file);
    let dr: i8 = step_towards(from.rank, target.rank);
    let gf: u8 = gap(from.file, target.file);
    let gr: u8 = gap(from.rank, target.rank);
    let n: u8 = if gf > gr {
        gf
    } else {
        gr
    };
    let ghost f = from.file as int;
    let ghost r = from.rank as int;
    let ghost tf = target.file as int;
    let ghost tr = target.rank as int;
    assert(n == distance(f, r, tf, tr));
    let mut cur = from;
    let mut j: u8 = 1;
    while j < n
        invariant
            1 <= j,
            j <= n || n == 0,
            n == distance(f, r, tf, tr),
            n < 8,
            f == from.file,
            r == from.rank,
            tf == target.file,
            tr == target.rank,
            from.valid(),
            target.valid(),
            on_rook_line(f, r, tf, tr) || on_bishop_line(f, r, tf, tr),
            -1 <= df <= 1,
            -1 <= dr <= 1,
            (df > 0) == (tf > f),
            (df < 0) == (tf < f),
            (dr > 0) == (tr > r),
            (dr < 0) == (tr < r),
            cur.valid(),
            cur.file == shift(f, tf - f, j - 1),
            cur.rank == shift(r, tr - r, j - 1),
            forall|i: int| 1 <= i < j ==> #[trigger] along(b@, f, r, tf, tr, i) == Piece::Empty,
        decreases n - j,
    {
        let next = cur.offset(df, dr);
        match next {
            Some(q) => {
                cur = q;
            },
            None => {
                assert(false);
            },
        }
        if !b.is_empty(cur) {
            assert(along(b@, f, r, tf, tr, j as int) != Piece::Empty);
            return false;
        }
        j += 1;
    }
    true
}

/// Whether the piece on `from`, if there is one, reaches `target`.
pub fn piece_reaches(b: &Board, from: Square, target: Square) -> (hit: bool)
    requires
        from.valid(),
        target.valid(),
    ensures
        hit == (match (
            at(b@, from.file as int, from.rank as int).spec_color(),
            at(b@, from.file as int, from.rank as int).spec_kind(),
        ) {
            (Some(c), Some(k)) => reaches(
                b@,
                k,
                c,
                from.file as int,
                from.rank as int,
                target.file as int,
                target.rank as int,
            ),
            _ => false,
        }),
{
    let p = b.piece_at(from);
    let gf: u8 = gap(from.file, target.file);
    let gr: u8 = gap(from.rank, target.rank);
    let rook_line = (gf == 0) != (gr == 0);
    let bishop_line = gf != 0 && gf == gr;
    match (p.color(), p.kind()) {
        (Some(c), Some(k)) => match k {
            PieceKind::Pawn => {
                let ahead = match c {
                    ChessColor::White => from.rank + 1 == target.rank,
                    ChessColor::Black => target.rank + 1 == from.rank,
                };
                ahead && gf == 1
            },
            PieceKind::Knight => (gf == 1 && gr == 2) || (gf == 2 && gr == 1),
            PieceKind::King => gf <= 1 && gr <= 1 && (gf == 1 || gr == 1),
            PieceKind::Rook => rook_line && is_clear_between(b, from, target),
            PieceKind::Bishop => bishop_line && is_clear_between(b, from, target),
            PieceKind::Queen => (rook_line || bishop_line) && is_clear_between(b, from, target),
        },
        _ => false,
    }
}

/// Whether some piece of colour `by` reaches the target square.
pub fn is_attacked(b: &Board, by: ChessColor, target: Square) -> (hit: bool)
    requires
        target.valid(),
    ensures
        hit == attacked(b@, by, target.file as int, target.rank as int),
{
    let ghost tf = target.file as int;
    let ghost tr = target.rank as int;
    let mut rank: u8 = 0;
    while rank < 8
        invariant
            rank <= 8,
            target.valid(),
            tf == target.file,
            tr == target.rank,
            forall|f: int, r: int|
                0 <= f < 8 && 0 <= r < rank ==> !#[trigger] attacks_from(b@, by, f, r, tf, tr),
        decreases 8 - rank,
    {
        let mut file: u8 = 0;
        while file < 8
            invariant
                file <= 8,
                rank < 8,
                target.valid(),
                tf == target.file,
                tr == target.rank,
                forall|f: int, r: int|
                    0 <= f < 8 && 0 <= r < rank ==> !#[trigger] attacks_from(b@, by, f, r, tf, tr),
                forall|f: int| 0 <= f < file ==> !#[trigger] attacks_from(b@, by, f, rank as int, tf, tr),
            decreases 8 - file,
        {
            let from = Square { file, rank };
            if b.is_occupied_by(from, by) && piece_reaches(b, from, target) {
                assert(attacks_from(b@, by, file as int, rank as int, tf, tr));
                return true;
            }
            file += 1;
        }
        rank += 1;
    }
    false
}

/// The squares that the given side attacks, in scan order.
pub fn attacks(b: &Board, by: ChessColor) -> (out: Vec<Square>)
    ensures
        forall|i: int|
            0 <= i < out@.len() ==> (#[trigger] out@[i]).valid() && attacked(
                b@,
                by,
                out@[i].file as int,
                out@[i].rank as int,
            ),
        forall|f: int, r: int|
            on_board(f, r) && attacked(b@, by, f, r) ==> out@.contains(#[trigger] square_at(f, r)),
        forall|i: int, j: int|
            0 <= i < j < out@.len() ==> out@[i].spec_index() < out@[j].spec_index(),
{
    let mut out: Vec<Square> = Vec::new();
    let mut idx: usize = 0;
    while idx < 64
        invariant
            idx <= 64,
            forall|i: int|
                0 <= i < out@.len() ==> (#[trigger] out@[i]).valid() && out@[i].spec_index() < idx
                    && attacked(b@, by, out@[i].file as int, out@[i].rank as int),
            forall|f: int, r: int|
                on_board(f, r) && r * 8 + f < idx && attacked(b@, by, f, r) ==> out@.contains(
                    #[trigger] square_at(f, r),
                ),
            forall|i: int, j: int|
                0 <= i < j < out@.len() ==> out@[i].spec_index() < out@[j].spec_index(),
        decreases 64 - idx,
    {
        let target = Square { file: (idx % 8) as u8, rank: (idx / 8) as u8 };
        let ghost before = out@;
        if is_attacked(b, by, target) {
            out.push(target);
            assert(out@[out@.len() - 1] == target);
        }
        proof {
            assert forall|f: int, r: int|
                on_board(f, r) && r * 8 + f < idx + 1 && attacked(b@, by, f, r) implies out@.contains(
                #[trigger] square_at(f, r),
            ) by {
                if r * 8 + f < idx {
                    assert(before.contains(square_at(f, r)));
                    let i = choose|i: int| 0 <= i < before.len() && before[i] == square_at(f, r);
                    assert(out@[i] == square_at(f, r));
                } else {
                    assert(square_at(f, r) == target);
                    assert(out@[out@.len() - 1] == target);
                }
            }
        }
        idx += 1;
    }
    out
}

/// Whether a king of the given colour stands on an attacked square.
pub fn king_in_check(b: &Board, color: ChessColor) -> (check: bool)
    ensures
        check == in_check(b@, color),
{
    let king = Piece::of(color, PieceKind::King);
    let enemy = color.opposite();
    let mut rank: u8 = 0;
    while rank < 8
        invariant
            rank <= 8,
            king == Piece::spec_of(color, PieceKind::King),
            enemy == color.spec_opposite(),
            forall|f: int, r: int|
                0 <= f < 8 && 0 <= r < rank ==> !#[trigger] king_attacked_on(b@, color, f, r),
        decreases 8 - rank,
    {
        let mut file: u8 = 0;
        while file < 8
            invariant
                file <= 8,
                rank < 8,
                king == Piece::spec_of(color, PieceKind::King),
                enemy == color.spec_opposite(),
                forall|f: int, r: int|
                    0 <= f < 8 && 0 <= r < rank ==> !#[trigger] king_attacked_on(b@, color, f, r),
                forall|f: int| 0 <= f < file ==> !#[trigger] king_attacked_on(b@, color, f, rank as int),
            decreases 8 - file,
        {
            let sq = Square { file, rank };
            if b.piece_at(sq).same_piece(&king) && is_attacked(b, enemy, sq) {
                assert(king_attacked_on(b@, color, file as int, rank as int));
                return true;
            }
            file += 1;
        }
        rank += 1;
    }
    false
}

} // verus!
