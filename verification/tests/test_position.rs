use tui_chess::board::Board;
use tui_chess::game::GameState;
use tui_chess::movegen::may_castle;
use tui_chess::moves::CastleSide;
use tui_chess::moves::CastlingRights;
use tui_chess::moves::Move;
use tui_chess::moves::MoveKind;
use tui_chess::piece::ChessColor;
use tui_chess::piece::Piece;
use tui_chess::position::en_passant_left;
use tui_chess::position::play_on_board;
use tui_chess::position::rights_left;
use tui_chess::position::take_back_on_board;
use tui_chess::position::Position;
use tui_chess::square::Square;
use tui_chess::status::has_insufficient_material;
use tui_chess::status::Status;
use tui_chess::types::PieceKind;

fn sq(name: &str) -> Square {
    let mut chars = name.chars();
    let f = chars.next().unwrap();
    let r = chars.next().unwrap();
    Square::from_chars(f, r).unwrap()
}

fn mv(from: &str, to: &str, kind: MoveKind) -> Move {
    Move { from: sq(from), to: sq(to), kind }
}

fn position_with(pieces: &[(&str, Piece)], side: ChessColor) -> Position {
    let mut board = Board::empty();
    for (name, p) in pieces {
        board.set(sq(name), Some(*p));
    }
    Position {
        board,
        side_to_move: side,
        castling_rights: CastlingRights::none(),
        en_passant_target: None,
    }
}

fn names(moves: &[Move]) -> Vec<String> {
    moves.iter().map(|m| m.notation()).collect()
}

#[test]
fn squares_and_moves_know_whether_they_lie_on_the_board() {
    assert!(Square { file: 7, rank: 7 }.is_valid());
    assert!(!Square { file: 8, rank: 0 }.is_valid());
    assert!(!Square { file: 0, rank: 8 }.is_valid());
    assert!(mv("a1", "h8", MoveKind::Normal).is_valid());
    let off = Move { from: sq("a1"), to: Square { file: 9, rank: 9 }, kind: MoveKind::Normal };
    assert!(!off.is_valid());
    let off = Move { from: Square { file: 9, rank: 9 }, to: sq("a1"), kind: MoveKind::Normal };
    assert!(!off.is_valid());
}

#[test]
fn move_kinds_are_told_apart() {
    let a = MoveKind::Promotion(PieceKind::Bishop);
    let b = MoveKind::Promotion(PieceKind::Knight);
    assert!(!a.same_kind(&b));
    assert!(a != b);
    assert!(a == MoveKind::Promotion(PieceKind::Bishop));
    assert!(MoveKind::Castle(CastleSide::KingSide) != MoveKind::Castle(CastleSide::QueenSide));
    assert!(MoveKind::Normal != MoveKind::Capture);
    assert!(mv("a7", "a8", a) != mv("a7", "a8", b));
    assert!(mv("a7", "a8", a) != mv("b7", "a8", a));
    assert!(mv("a7", "a8", a) != mv("a7", "b8", a));
    assert!(mv("a7", "a8", a) == mv("a7", "a8", a));
}

#[test]
fn castling_rights_by_colour_and_wing() {
    let rights = CastlingRights {
        white_king_side: true,
        white_queen_side: false,
        black_king_side: false,
        black_queen_side: true,
    };
    assert!(rights.allows(ChessColor::White, CastleSide::KingSide));
    assert!(!rights.allows(ChessColor::White, CastleSide::QueenSide));
    assert!(!rights.allows(ChessColor::Black, CastleSide::KingSide));
    assert!(rights.allows(ChessColor::Black, CastleSide::QueenSide));
    assert!(CastlingRights::all().allows(ChessColor::Black, CastleSide::KingSide));
    assert!(!CastlingRights::none().allows(ChessColor::White, CastleSide::KingSide));
}

#[test]
fn a_rook_in_the_middle_moves_along_four_rays_in_order() {
    let p = position_with(
        &[
            ("d4", Piece::WhiteRook),
            ("d6", Piece::BlackPawn),
            ("f4", Piece::WhitePawn),
            ("a1", Piece::WhiteKing),
            ("h8", Piece::BlackKing),
        ],
        ChessColor::White,
    );
    let moves = p.piece_moves(sq("d4"));
    assert_eq!(
        names(&moves),
        vec!["d4d5", "d4d6", "d4e4", "d4d3", "d4d2", "d4d1", "d4c4", "d4b4", "d4a4"]
    );
    assert!(moves[1].kind == MoveKind::Capture);
    assert!(moves[0].kind == MoveKind::Normal);
    assert!(p.piece_moves(sq("d6")).is_empty());
    assert!(p.piece_moves(sq("e5")).is_empty());
}

#[test]
fn a_bishop_a_queen_a_knight_and_a_king_move_in_their_order() {
    let p = position_with(
        &[
            ("c1", Piece::WhiteBishop),
            ("a1", Piece::WhiteQueen),
            ("g1", Piece::WhiteKnight),
            ("e1", Piece::WhiteKing),
            ("e3", Piece::BlackPawn),
            ("h8", Piece::BlackKing),
        ],
        ChessColor::White,
    );
    assert_eq!(names(&p.piece_moves(sq("c1"))), vec!["c1d2", "c1e3", "c1b2", "c1a3"]);
    assert_eq!(
        names(&p.piece_moves(sq("a1"))),
        vec![
            "a1a2", "a1a3", "a1a4", "a1a5", "a1a6", "a1a7", "a1a8", "a1b1", "a1b2", "a1c3",
            "a1d4", "a1e5", "a1f6", "a1g7", "a1h8"
        ]
    );
    assert_eq!(names(&p.piece_moves(sq("g1"))), vec!["g1h3", "g1e2", "g1f3"]);
    assert_eq!(names(&p.piece_moves(sq("e1"))), vec!["e1e2", "e1f1", "e1d1", "e1f2", "e1d2"]);
    assert_eq!(names(&p.legal_moves_from(sq("e1"))), vec!["e1e2", "e1f1", "e1d1"]);
}

#[test]
fn a_pawn_advances_before_it_captures() {
    let p = position_with(
        &[
            ("e2", Piece::WhitePawn),
            ("d3", Piece::BlackKnight),
            ("f3", Piece::BlackKnight),
            ("a1", Piece::WhiteKing),
            ("h8", Piece::BlackKing),
        ],
        ChessColor::White,
    );
    let moves = p.piece_moves(sq("e2"));
    assert_eq!(names(&moves), vec!["e2e3", "e2e4", "e2d3", "e2f3"]);
    assert!(moves[0].kind == MoveKind::Normal);
    assert!(moves[1].kind == MoveKind::DoublePawnPush);
    assert!(moves[2].kind == MoveKind::Capture);
    assert!(moves[3].kind == MoveKind::Capture);
    let blocked = position_with(
        &[("e2", Piece::WhitePawn), ("e3", Piece::BlackKnight), ("a1", Piece::WhiteKing)],
        ChessColor::White,
    );
    assert!(blocked.piece_moves(sq("e2")).is_empty());
    let half = position_with(
        &[("e2", Piece::WhitePawn), ("e4", Piece::BlackKnight), ("a1", Piece::WhiteKing)],
        ChessColor::White,
    );
    assert_eq!(names(&half.piece_moves(sq("e2"))), vec!["e2e3"]);
    let moved = position_with(
        &[("e3", Piece::WhitePawn), ("a1", Piece::WhiteKing)],
        ChessColor::White,
    );
    assert_eq!(names(&moved.piece_moves(sq("e3"))), vec!["e3e4"]);
    let black = position_with(
        &[("e7", Piece::BlackPawn), ("d6", Piece::WhiteRook), ("h8", Piece::BlackKing)],
        ChessColor::Black,
    );
    assert_eq!(names(&black.piece_moves(sq("e7"))), vec!["e7e6", "e7e5", "e7d6"]);
}

#[test]
fn promotions_are_listed_queen_rook_bishop_knight() {
    let p = position_with(
        &[
            ("b7", Piece::WhitePawn),
            ("a8", Piece::BlackRook),
            ("c8", Piece::BlackBishop),
            ("e1", Piece::WhiteKing),
            ("h8", Piece::BlackKing),
        ],
        ChessColor::White,
    );
    assert_eq!(
        names(&p.piece_moves(sq("b7"))),
        vec![
            "b7b8q", "b7b8r", "b7b8b", "b7b8n", "b7a8q", "b7a8r", "b7a8b", "b7a8n", "b7c8q",
            "b7c8r", "b7c8b", "b7c8n"
        ]
    );
}

#[test]
fn no_move_is_listed_twice_and_origins_come_in_scan_order() {
    let mut game = GameState::new();
    for text in ["e2e4", "d7d5", "e4d5", "d8d5", "b1c3", "d5e5", "f1e2", "c8g4"] {
        assert!(game.play(text).is_ok());
        let p = game.position();
        for moves in [p.pseudo_moves(), p.legal_moves()] {
            for i in 0..moves.len() {
                for j in i + 1..moves.len() {
                    assert!(moves[i] != moves[j]);
                    assert!(moves[i].from.index() <= moves[j].from.index());
                }
            }
        }
        for m in p.pseudo_moves() {
            let legal = p.legal_moves().iter().any(|x| *x == m);
            assert_eq!(legal, p.leaves_king_safe(&m));
        }
    }
}

#[test]
fn the_board_changes_as_the_kind_of_the_move_says() {
    let mut b = Board::starting();
    let start = b;
    let push = mv("e2", "e4", MoveKind::DoublePawnPush);
    let captured = play_on_board(&mut b, ChessColor::White, &push);
    assert!(captured.is_empty());
    assert!(b.is_empty(sq("e2")));
    assert!(b.piece_at(sq("e4")).same_piece(&Piece::WhitePawn));
    assert_eq!(en_passant_left(&push), Some(sq("e3")));
    assert_eq!(en_passant_left(&mv("e7", "e5", MoveKind::DoublePawnPush)), Some(sq("e6")));
    assert_eq!(en_passant_left(&mv("e2", "e3", MoveKind::Normal)), None);
    take_back_on_board(&mut b, ChessColor::White, &push, captured);
    assert!(b.same_position(&start));
    let mut c = Board::empty();
    c.set(sq("a1"), Some(Piece::WhiteRook));
    c.set(sq("a8"), Some(Piece::BlackQueen));
    let before = c;
    let take = mv("a1", "a8", MoveKind::Capture);
    let captured = play_on_board(&mut c, ChessColor::White, &take);
    assert!(captured.same_piece(&Piece::BlackQueen));
    assert!(c.piece_at(sq("a8")).same_piece(&Piece::WhiteRook));
    take_back_on_board(&mut c, ChessColor::White, &take, captured);
    assert!(c.same_position(&before));
}

#[test]
fn rights_end_when_a_home_square_is_left_or_reached() {
    let all = CastlingRights::all();
    let r = rights_left(all, &mv("e1", "e2", MoveKind::Normal));
    assert_eq!(
        r,
        CastlingRights {
            white_king_side: false,
            white_queen_side: false,
            black_king_side: true,
            black_queen_side: true,
        }
    );
    let r = rights_left(all, &mv("a8", "a5", MoveKind::Normal));
    assert_eq!(
        r,
        CastlingRights {
            white_king_side: true,
            white_queen_side: true,
            black_king_side: true,
            black_queen_side: false,
        }
    );
    let r = rights_left(all, &mv("b2", "h8", MoveKind::Capture));
    assert!(!r.black_king_side && r.black_queen_side && r.white_king_side && r.white_queen_side);
    assert_eq!(rights_left(all, &mv("e2", "e4", MoveKind::DoublePawnPush)), all);
    let none = CastlingRights::none();
    assert_eq!(rights_left(none, &mv("b1", "c3", MoveKind::Normal)), none);
}

#[test]
fn castling_needs_king_and_rook_at_home() {
    let mut board = Board::empty();
    board.set(sq("e1"), Some(Piece::WhiteKing));
    board.set(sq("h1"), Some(Piece::WhiteRook));
    board.set(sq("e8"), Some(Piece::BlackKing));
    let all = CastlingRights::all();
    assert!(may_castle(&board, ChessColor::White, all, CastleSide::KingSide));
    assert!(!may_castle(&board, ChessColor::White, all, CastleSide::QueenSide));
    assert!(!may_castle(&board, ChessColor::Black, all, CastleSide::KingSide));
    assert!(!may_castle(&board, ChessColor::White, CastlingRights::none(), CastleSide::KingSide));
    board.set(sq("h1"), Some(Piece::BlackRook));
    assert!(!may_castle(&board, ChessColor::White, all, CastleSide::KingSide));
}

#[test]
fn material_for_mate() {
    assert!(!has_insufficient_material(&Board::starting()));
    assert!(has_insufficient_material(&Board::empty()));
    let mut b = Board::empty();
    b.set(sq("e1"), Some(Piece::WhiteKing));
    b.set(sq("e8"), Some(Piece::BlackKing));
    b.set(sq("c1"), Some(Piece::WhiteBishop));
    assert!(has_insufficient_material(&b));
    b.set(sq("c8"), Some(Piece::BlackBishop));
    assert!(!has_insufficient_material(&b));
    b.set(sq("c8"), Some(Piece::BlackRook));
    assert!(!has_insufficient_material(&b));
    b.set(sq("c8"), None);
    b.set(sq("c1"), Some(Piece::WhiteQueen));
    assert!(!has_insufficient_material(&b));
}

#[test]
fn the_state_of_a_position() {
    let start = Position::starting();
    assert_eq!(start.status(0), Status::Ongoing);
    assert_eq!(start.status(99), Status::Ongoing);
    assert_eq!(start.status(100), Status::DrawByFiftyMove);
    assert!(!start.in_check());
    assert!(!Status::Ongoing.is_over());
    assert!(!Status::Check.is_over());
    assert!(Status::Checkmate(ChessColor::White).is_over());
    assert!(Status::Stalemate.is_over());
    assert!(Status::DrawByFiftyMove.is_over());
    assert!(Status::DrawByInsufficientMaterial.is_over());
    let mated = position_with(
        &[("a1", Piece::WhiteKing), ("b2", Piece::BlackQueen), ("c3", Piece::BlackKing)],
        ChessColor::White,
    );
    assert_eq!(mated.status(100), Status::Checkmate(ChessColor::Black));
}

#[test]
fn a_game_knows_whether_it_is_well_formed() {
    let mut game = GameState::new();
    assert!(game.is_well_formed());
    for text in ["e2e4", "e7e5", "g1f3"] {
        assert!(game.play(text).is_ok());
        assert!(game.is_well_formed());
    }
    assert!(game.undo().is_some());
    assert!(game.is_well_formed());
    game.fullmove_number = 7;
    assert!(!game.is_well_formed());
    game.fullmove_number = 2;
    assert!(game.is_well_formed());
    game.halfmove_clock = 101;
    assert!(!game.is_well_formed());
    game.halfmove_clock = 0;
    game.position.en_passant_target = Some(Square { file: 8, rank: 2 });
    assert!(!game.is_well_formed());
    game.position.en_passant_target = None;
    game.history[0].mv.to = Square { file: 0, rank: 8 };
    assert!(!game.is_well_formed());
    let black_first = GameState::with_position(Position {
        board: Board::starting(),
        side_to_move: ChessColor::Black,
        castling_rights: CastlingRights::all(),
        en_passant_target: None,
    });
    let mut game = black_first.unwrap();
    assert!(game.is_well_formed());
    assert!(game.play("e7e5").is_ok());
    assert_eq!(game.fullmove_number(), 2);
    assert!(game.is_well_formed());
    assert!(game.play("e2e4").is_ok());
    assert_eq!(game.fullmove_number(), 2);
    assert!(game.is_well_formed());
    assert!(game.undo().is_some());
    assert!(game.undo().is_some());
    assert_eq!(game.fullmove_number(), 1);
    assert!(game.is_well_formed());
}
