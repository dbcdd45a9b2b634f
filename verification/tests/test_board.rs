use tui_chess::attack::attacks;
use tui_chess::attack::is_attacked;
use tui_chess::attack::is_clear_between;
use tui_chess::attack::king_in_check;
use tui_chess::attack::piece_reaches;
use tui_chess::board::Board;
use tui_chess::piece::ChessColor;
use tui_chess::piece::Piece;
use tui_chess::square::Square;

fn sq(name: &str) -> Square {
    let mut chars = name.chars();
    let f = chars.next().unwrap();
    let r = chars.next().unwrap();
    Square::from_chars(f, r).unwrap()
}

#[test]
fn squares_have_a_file_a_rank_and_an_index() {
    let e2 = Square::new(4, 1).unwrap();
    assert_eq!(e2.file(), 4);
    assert_eq!(e2.rank(), 1);
    assert_eq!(e2.index(), 12);
    assert_eq!(Square::from_index(12), Some(e2));
    assert_eq!(Square::from_index(0), Some(Square { file: 0, rank: 0 }));
    assert_eq!(Square::from_index(63), Some(Square { file: 7, rank: 7 }));
    assert_eq!(Square::from_index(64), None);
    assert_eq!(Square::new(8, 0), None);
    assert_eq!(Square::new(0, 8), None);
    assert_eq!(Square::new(7, 7), Some(Square { file: 7, rank: 7 }));
}

#[test]
fn sixty_four_squares_are_all_different() {
    let mut seen: Vec<Square> = Vec::new();
    for i in 0..64 {
        let s = Square::from_index(i).unwrap();
        assert_eq!(s.index(), i);
        assert!(!seen.contains(&s));
        seen.push(s);
    }
    assert_eq!(seen.len(), 64);
}

#[test]
fn squares_have_names() {
    assert_eq!(Square { file: 0, rank: 0 }.name(), "a1");
    assert_eq!(Square { file: 4, rank: 1 }.name(), "e2");
    assert_eq!(Square { file: 7, rank: 7 }.name(), "h8");
    assert_eq!(Square::from_chars('e', '2'), Some(Square { file: 4, rank: 1 }));
    assert_eq!(Square::from_chars('h', '8'), Some(Square { file: 7, rank: 7 }));
    assert_eq!(Square::from_chars('i', '1'), None);
    assert_eq!(Square::from_chars('a', '9'), None);
    assert_eq!(Square::from_chars('a', '0'), None);
    assert_eq!(Square::from_chars('E', '2'), None);
    assert_eq!(Square::from_chars('2', 'e'), None);
    for i in 0..64 {
        let s = Square::from_index(i).unwrap();
        let name = s.name();
        let mut chars = name.chars();
        let back = Square::from_chars(chars.next().unwrap(), chars.next().unwrap());
        assert_eq!(back, Some(s));
    }
}

#[test]
fn offsets_stay_on_the_board() {
    let a1 = sq("a1");
    assert_eq!(a1.offset(1, 2), Some(sq("b3")));
    assert_eq!(a1.offset(-1, 0), None);
    assert_eq!(a1.offset(0, -1), None);
    assert_eq!(a1.offset(7, 7), Some(sq("h8")));
    assert_eq!(a1.offset(8, 0), None);
    assert_eq!(sq("h8").offset(1, 0), None);
    assert_eq!(sq("h8").offset(-7, -7), Some(a1));
    assert_eq!(sq("d4").offset(0, 0), Some(sq("d4")));
    assert_eq!(sq("d4").offset(-128, 127), None);
}

#[test]
fn the_starting_board_is_the_standard_one() {
    let b = Board::starting();
    let back = [
        Piece::WhiteRook,
        Piece::WhiteKnight,
        Piece::WhiteBishop,
        Piece::WhiteQueen,
        Piece::WhiteKing,
        Piece::WhiteBishop,
        Piece::WhiteKnight,
        Piece::WhiteRook,
    ];
    let black_back = [
        Piece::BlackRook,
        Piece::BlackKnight,
        Piece::BlackBishop,
        Piece::BlackQueen,
        Piece::BlackKing,
        Piece::BlackBishop,
        Piece::BlackKnight,
        Piece::BlackRook,
    ];
    for f in 0..8u8 {
        assert!(b.piece_at(Square { file: f, rank: 0 }).same_piece(&back[f as usize]));
        assert!(b.piece_at(Square { file: f, rank: 1 }).same_piece(&Piece::WhitePawn));
        for r in 2..6u8 {
            assert!(b.is_empty(Square { file: f, rank: r }));
            assert!(b.get(Square { file: f, rank: r }).is_none());
        }
        assert!(b.piece_at(Square { file: f, rank: 6 }).same_piece(&Piece::BlackPawn));
        assert!(b.piece_at(Square { file: f, rank: 7 }).same_piece(&black_back[f as usize]));
    }
    assert!(b.get(sq("d8")).unwrap().same_piece(&Piece::BlackQueen));
    assert!(b.get(sq("e1")).unwrap().same_piece(&Piece::WhiteKing));
}

#[test]
fn setting_a_square_changes_that_square_only() {
    let mut b = Board::empty();
    for i in 0..64 {
        assert!(b.is_empty(Square::from_index(i).unwrap()));
    }
    b.set(sq("c3"), Some(Piece::BlackKnight));
    for i in 0..64 {
        let s = Square::from_index(i).unwrap();
        if s == sq("c3") {
            assert!(b.get(s).unwrap().same_piece(&Piece::BlackKnight));
            assert!(b.is_occupied_by(s, ChessColor::Black));
            assert!(!b.is_occupied_by(s, ChessColor::White));
            assert!(!b.is_empty(s));
        } else {
            assert!(b.get(s).is_none());
            assert!(!b.is_occupied_by(s, ChessColor::Black));
        }
    }
    let copy = b;
    b.set(sq("c3"), None);
    assert!(b.same_position(&Board::empty()));
    assert!(!b.same_position(&copy));
    b.set(sq("c3"), Some(Piece::WhiteKnight));
    assert!(!b.same_position(&copy));
    b.place(sq("c3"), Piece::BlackKnight);
    assert!(b.same_position(&copy));
    b.set(sq("d4"), Some(Piece::Empty));
    assert!(b.same_position(&copy));
}

#[test]
fn pawns_attack_diagonally_ahead_only() {
    let mut b = Board::empty();
    b.set(sq("d4"), Some(Piece::WhitePawn));
    let white = attacks(&b, ChessColor::White);
    assert_eq!(white, vec![sq("c5"), sq("e5")]);
    assert!(!is_attacked(&b, ChessColor::White, sq("d5")));
    assert!(!is_attacked(&b, ChessColor::White, sq("d6")));
    assert!(attacks(&b, ChessColor::Black).is_empty());
    b.set(sq("d4"), Some(Piece::BlackPawn));
    assert_eq!(attacks(&b, ChessColor::Black), vec![sq("c3"), sq("e3")]);
    let mut edge = Board::empty();
    edge.set(sq("a2"), Some(Piece::WhitePawn));
    assert_eq!(attacks(&edge, ChessColor::White), vec![sq("b3")]);
}

#[test]
fn a_rook_attacks_along_its_lines_up_to_the_first_piece() {
    let mut b = Board::empty();
    b.set(sq("a1"), Some(Piece::WhiteRook));
    b.set(sq("a4"), Some(Piece::WhitePawn));
    b.set(sq("d1"), Some(Piece::BlackKnight));
    let got = attacks(&b, ChessColor::White);
    assert_eq!(
        got,
        vec![sq("b1"), sq("c1"), sq("d1"), sq("a2"), sq("a3"), sq("a4"), sq("b5")]
    );
    assert!(is_clear_between(&b, sq("a1"), sq("a4")));
    assert!(!is_clear_between(&b, sq("a1"), sq("a5")));
    assert!(is_clear_between(&b, sq("a1"), sq("a2")));
    assert!(!is_clear_between(&b, sq("a1"), sq("e1")));
    assert!(piece_reaches(&b, sq("a1"), sq("d1")));
    assert!(!piece_reaches(&b, sq("a1"), sq("e1")));
    assert!(!piece_reaches(&b, sq("a1"), sq("a1")));
    assert!(!piece_reaches(&b, sq("a1"), sq("b2")));
    assert!(!piece_reaches(&b, sq("b2"), sq("b3")));
}

#[test]
fn knight_king_bishop_and_queen_attack_as_they_move() {
    let mut b = Board::empty();
    b.set(sq("b1"), Some(Piece::WhiteKnight));
    assert_eq!(attacks(&b, ChessColor::White), vec![sq("d2"), sq("a3"), sq("c3")]);
    let mut k = Board::empty();
    k.set(sq("a1"), Some(Piece::BlackKing));
    assert_eq!(attacks(&k, ChessColor::Black), vec![sq("b1"), sq("a2"), sq("b2")]);
    let mut bishop = Board::empty();
    bishop.set(sq("c1"), Some(Piece::WhiteBishop));
    bishop.set(sq("e3"), Some(Piece::BlackPawn));
    assert_eq!(
        attacks(&bishop, ChessColor::White),
        vec![sq("b2"), sq("d2"), sq("a3"), sq("e3")]
    );
    let mut q = Board::empty();
    q.set(sq("d4"), Some(Piece::BlackQueen));
    assert_eq!(attacks(&q, ChessColor::Black).len(), 27);
    assert!(is_attacked(&q, ChessColor::Black, sq("h8")));
    assert!(is_attacked(&q, ChessColor::Black, sq("d8")));
    assert!(!is_attacked(&q, ChessColor::Black, sq("e6")));
    assert!(!is_attacked(&q, ChessColor::White, sq("h8")));
}

#[test]
fn check_is_an_attack_on_the_king() {
    let mut b = Board::empty();
    b.set(sq("e1"), Some(Piece::WhiteKing));
    b.set(sq("e8"), Some(Piece::BlackRook));
    assert!(king_in_check(&b, ChessColor::White));
    assert!(!king_in_check(&b, ChessColor::Black));
    b.set(sq("e5"), Some(Piece::BlackPawn));
    assert!(!king_in_check(&b, ChessColor::White));
    assert!(!king_in_check(&Board::starting(), ChessColor::White));
    assert!(!king_in_check(&Board::starting(), ChessColor::Black));
    assert_eq!(attacks(&Board::starting(), ChessColor::White).len(), 22);
}
