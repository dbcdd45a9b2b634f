use tui_chess::board::Board;
use tui_chess::game::GameState;
use tui_chess::moves::CastleSide;
use tui_chess::moves::CastlingRights;
use tui_chess::moves::Move;
use tui_chess::moves::MoveKind;
use tui_chess::piece::ChessColor;
use tui_chess::piece::Piece;
use tui_chess::position::Position;
use tui_chess::square::Square;
use tui_chess::state::MoveError;
use tui_chess::status::Status;
use tui_chess::types::PieceKind;

fn sq(name: &str) -> Square {
    let mut chars = name.chars();
    let f = chars.next().unwrap();
    let r = chars.next().unwrap();
    Square::from_chars(f, r).unwrap()
}

fn board_with(pieces: &[(&str, Piece)]) -> Board {
    let mut b = Board::empty();
    for (name, p) in pieces {
        b.set(sq(name), Some(*p));
    }
    b
}

fn game_with(pieces: &[(&str, Piece)], side: ChessColor, rights: CastlingRights) -> GameState {
    let position = Position {
        board: board_with(pieces),
        side_to_move: side,
        castling_rights: rights,
        en_passant_target: None,
    };
    GameState::with_position(position).unwrap()
}

fn mv(from: &str, to: &str, kind: MoveKind) -> Move {
    Move { from: sq(from), to: sq(to), kind }
}

fn has(moves: &[Move], m: &Move) -> bool {
    moves.iter().any(|x| x.same_move(m))
}

#[test]
fn twenty_legal_moves_at_the_start() {
    let game = GameState::new();
    assert_eq!(game.legal_moves().len(), 20);
    assert_eq!(game.status(), Status::Ongoing);
}

#[test]
fn four_hundred_positions_after_two_plies() {
    let mut game = GameState::new();
    let first = game.legal_moves();
    assert_eq!(first.len(), 20);
    let mut total = 0;
    for m in first {
        assert!(game.apply(m).is_ok());
        let replies = game.legal_moves().len();
        assert_eq!(replies, 20);
        total += replies;
        assert!(game.undo() == Some(m));
    }
    assert_eq!(total, 400);
}

#[test]
fn eight_thousand_nine_hundred_and_two_positions_after_three_plies() {
    let mut game = GameState::new();
    let mut total = 0;
    for a in game.legal_moves() {
        assert!(game.apply(a).is_ok());
        for b in game.legal_moves() {
            assert!(game.apply(b).is_ok());
            total += game.legal_moves().len();
            assert!(game.undo() == Some(b));
        }
        assert!(game.undo() == Some(a));
    }
    assert_eq!(total, 8902);
}

#[test]
fn moves_at_the_start_come_in_scan_order() {
    let game = GameState::new();
    let moves = game.legal_moves();
    assert!(moves[0] == mv("b1", "c3", MoveKind::Normal));
    assert!(moves[1] == mv("b1", "a3", MoveKind::Normal));
    assert!(moves[2] == mv("g1", "h3", MoveKind::Normal));
    assert!(moves[3] == mv("g1", "f3", MoveKind::Normal));
    assert!(moves[4] == mv("a2", "a3", MoveKind::Normal));
    assert!(moves[5] == mv("a2", "a4", MoveKind::DoublePawnPush));
    assert!(moves[19] == mv("h2", "h4", MoveKind::DoublePawnPush));
}

#[test]
fn rook_on_the_kings_file_gives_check() {
    let game = game_with(
        &[("e1", Piece::WhiteKing), ("e8", Piece::BlackRook), ("a8", Piece::BlackKing)],
        ChessColor::White,
        CastlingRights::none(),
    );
    assert_eq!(game.status(), Status::Check);
    let moves = game.legal_moves();
    assert_eq!(moves.len(), 4);
    assert!(!has(&moves, &mv("e1", "e2", MoveKind::Normal)));
    assert!(has(&moves, &mv("e1", "d1", MoveKind::Normal)));
}

#[test]
fn a_piece_between_rook_and_king_shields_the_king() {
    let game = game_with(
        &[
            ("e1", Piece::WhiteKing),
            ("e4", Piece::WhitePawn),
            ("e8", Piece::BlackRook),
            ("a8", Piece::BlackKing),
        ],
        ChessColor::White,
        CastlingRights::none(),
    );
    assert_eq!(game.status(), Status::Ongoing);
}

#[test]
fn fools_mate_is_checkmate_for_black() {
    let mut game = GameState::new();
    assert!(game.play("f2f3").is_ok());
    assert!(game.play("e7e5").is_ok());
    assert!(game.play("g2g4").is_ok());
    let last = game.play("d8h4");
    assert!(last == Ok(mv("d8", "h4", MoveKind::Normal)));
    assert_eq!(game.status(), Status::Checkmate(ChessColor::Black));
    assert_eq!(game.legal_moves().len(), 0);
    assert_eq!(game.play("a2a3"), Err(MoveError::GameAlreadyOver));
    assert_eq!(game.apply(mv("a2", "a3", MoveKind::Normal)), Err(MoveError::GameAlreadyOver));
}

#[test]
fn the_last_move_of_fools_mate_answers_with_checkmate() {
    let mut game = GameState::new();
    assert_eq!(game.apply(mv("f2", "f3", MoveKind::Normal)), Ok(Status::Ongoing));
    assert_eq!(game.apply(mv("e7", "e5", MoveKind::DoublePawnPush)), Ok(Status::Ongoing));
    assert_eq!(game.apply(mv("g2", "g4", MoveKind::DoublePawnPush)), Ok(Status::Ongoing));
    assert_eq!(
        game.apply(mv("d8", "h4", MoveKind::Normal)),
        Ok(Status::Checkmate(ChessColor::Black))
    );
}

#[test]
fn cornered_king_without_check_is_stalemate() {
    let game = game_with(
        &[("a1", Piece::WhiteKing), ("b3", Piece::BlackQueen), ("h8", Piece::BlackKing)],
        ChessColor::White,
        CastlingRights::none(),
    );
    assert_eq!(game.legal_moves().len(), 0);
    assert_eq!(game.status(), Status::Stalemate);
    assert!(!game.position().in_check());
}

#[test]
fn cornered_king_in_check_is_checkmate() {
    let game = game_with(
        &[("a1", Piece::WhiteKing), ("b2", Piece::BlackQueen), ("c3", Piece::BlackKing)],
        ChessColor::White,
        CastlingRights::none(),
    );
    assert_eq!(game.status(), Status::Checkmate(ChessColor::Black));
}

#[test]
fn double_push_sets_the_en_passant_target_for_one_ply() {
    let mut game = GameState::new();
    assert!(game.play("a2a3").is_ok());
    assert!(game.play("e7e5").is_ok());
    assert_eq!(game.en_passant_target(), Some(sq("e6")));
    assert!(game.play("a3a4").is_ok());
    assert_eq!(game.en_passant_target(), None);
    assert!(game.play("e5e4").is_ok());
    assert!(game.play("d2d4").is_ok());
    assert_eq!(game.en_passant_target(), Some(sq("d3")));
    let capture = mv("e4", "d3", MoveKind::EnPassantCapture);
    assert!(has(&game.legal_moves(), &capture));
    assert!(game.play("h7h6").is_ok());
    assert_eq!(game.en_passant_target(), None);
    assert!(game.play("h2h3").is_ok());
    assert!(!has(&game.legal_moves(), &capture));
    assert_eq!(game.apply(capture), Err(MoveError::IllegalMove));
    assert_eq!(game.play("e4d3"), Err(MoveError::IllegalMove));
}

#[test]
fn en_passant_takes_the_pawn_beside_the_capturing_pawn() {
    let mut game = GameState::new();
    assert!(game.play("a2a3").is_ok());
    assert!(game.play("e7e5").is_ok());
    assert!(game.play("a3a4").is_ok());
    assert!(game.play("e5e4").is_ok());
    assert!(game.play("d2d4").is_ok());
    assert!(game.play("e4d3") == Ok(mv("e4", "d3", MoveKind::EnPassantCapture)));
    let board = game.position().board;
    assert!(board.get(sq("d4")).is_none());
    assert!(board.get(sq("e4")).is_none());
    assert!(board.get(sq("d3")).unwrap().same_piece(&Piece::BlackPawn));
    assert_eq!(game.halfmove_clock(), 0);
    assert!(game.undo() == Some(mv("e4", "d3", MoveKind::EnPassantCapture)));
    let board = game.position().board;
    assert!(board.get(sq("d4")).unwrap().same_piece(&Piece::WhitePawn));
    assert!(board.get(sq("e4")).unwrap().same_piece(&Piece::BlackPawn));
    assert!(board.get(sq("d3")).is_none());
    assert_eq!(game.en_passant_target(), Some(sq("d3")));
}

#[test]
fn only_an_adjacent_pawn_captures_en_passant() {
    let mut game = GameState::new();
    assert!(game.play("h2h3").is_ok());
    assert!(game.play("a7a5").is_ok());
    assert!(game.play("h3h4").is_ok());
    assert!(game.play("a5a4").is_ok());
    assert!(game.play("d2d4").is_ok());
    assert_eq!(game.en_passant_target(), Some(sq("d3")));
    let moves = game.legal_moves();
    assert!(!moves.iter().any(|m| m.kind.same_kind(&MoveKind::EnPassantCapture)));
}

#[test]
fn promotion_without_a_kind_is_ambiguous() {
    let game = game_with(
        &[("a7", Piece::WhitePawn), ("e1", Piece::WhiteKing), ("e8", Piece::BlackKing)],
        ChessColor::White,
        CastlingRights::none(),
    );
    assert_eq!(game.find_move(sq("a7"), sq("a8"), None), Err(MoveError::AmbiguousPromotion));
    let kinds = [PieceKind::Queen, PieceKind::Rook, PieceKind::Bishop, PieceKind::Knight];
    let mut found: Vec<Move> = Vec::new();
    for k in kinds {
        let m = game.find_move(sq("a7"), sq("a8"), Some(k)).unwrap();
        assert!(m == mv("a7", "a8", MoveKind::Promotion(k)));
        assert!(has(&game.legal_moves(), &m));
        assert!(!has(&found, &m));
        found.push(m);
    }
    assert_eq!(found.len(), 4);
    assert_eq!(
        game.find_move(sq("a7"), sq("a8"), Some(PieceKind::King)),
        Err(MoveError::IllegalMove)
    );
    assert_eq!(
        game.find_move(sq("a7"), sq("a8"), Some(PieceKind::Pawn)),
        Err(MoveError::IllegalMove)
    );
}

#[test]
fn promotion_puts_the_chosen_piece_on_the_board() {
    let mut game = game_with(
        &[
            ("a7", Piece::WhitePawn),
            ("b8", Piece::BlackRook),
            ("e1", Piece::WhiteKing),
            ("e8", Piece::BlackKing),
        ],
        ChessColor::White,
        CastlingRights::none(),
    );
    assert_eq!(game.play("a7b8"), Err(MoveError::AmbiguousPromotion));
    assert!(game.play("a7b8n") == Ok(mv("a7", "b8", MoveKind::Promotion(PieceKind::Knight))));
    let board = game.position().board;
    assert!(board.get(sq("b8")).unwrap().same_piece(&Piece::WhiteKnight));
    assert!(board.get(sq("a7")).is_none());
    assert!(game.undo().is_some());
    let board = game.position().board;
    assert!(board.get(sq("b8")).unwrap().same_piece(&Piece::BlackRook));
    assert!(board.get(sq("a7")).unwrap().same_piece(&Piece::WhitePawn));
}

#[test]
fn black_promotes_on_the_first_rank() {
    let mut game = game_with(
        &[("h2", Piece::BlackPawn), ("a1", Piece::WhiteKing), ("a8", Piece::BlackKing)],
        ChessColor::Black,
        CastlingRights::none(),
    );
    assert!(game.play("h2h1q").is_ok());
    assert!(game.position().board.get(sq("h1")).unwrap().same_piece(&Piece::BlackQueen));
    assert_eq!(game.status(), Status::Check);
    assert_eq!(game.fullmove_number(), 2);
}

#[test]
fn castling_moves_king_and_rook_and_ends_the_rights() {
    let pieces = [
        ("e1", Piece::WhiteKing),
        ("a1", Piece::WhiteRook),
        ("h1", Piece::WhiteRook),
        ("e8", Piece::BlackKing),
        ("a8", Piece::BlackRook),
        ("h8", Piece::BlackRook),
    ];
    let mut game = game_with(&pieces, ChessColor::White, CastlingRights::all());
    let king_side = mv("e1", "g1", MoveKind::Castle(CastleSide::KingSide));
    let queen_side = mv("e1", "c1", MoveKind::Castle(CastleSide::QueenSide));
    let moves = game.legal_moves();
    assert!(has(&moves, &king_side));
    assert!(has(&moves, &queen_side));
    assert!(game.play("e1g1") == Ok(king_side));
    let board = game.position().board;
    assert!(board.get(sq("g1")).unwrap().same_piece(&Piece::WhiteKing));
    assert!(board.get(sq("f1")).unwrap().same_piece(&Piece::WhiteRook));
    assert!(board.get(sq("e1")).is_none());
    assert!(board.get(sq("h1")).is_none());
    let rights = game.castling_rights();
    assert!(!rights.white_king_side);
    assert!(!rights.white_queen_side);
    assert!(rights.black_king_side);
    assert!(rights.black_queen_side);
    assert!(game.play("e8c8") == Ok(mv("e8", "c8", MoveKind::Castle(CastleSide::QueenSide))));
    let board = game.position().board;
    assert!(board.get(sq("c8")).unwrap().same_piece(&Piece::BlackKing));
    assert!(board.get(sq("d8")).unwrap().same_piece(&Piece::BlackRook));
    assert!(board.get(sq("a8")).is_none());
    assert_eq!(game.castling_rights(), CastlingRights::none());
    assert!(game.undo().is_some());
    assert!(game.undo().is_some());
    assert!(game.position().board.same_position(&board_with(&pieces)));
    assert_eq!(game.castling_rights(), CastlingRights::all());
}

#[test]
fn no_castling_out_of_through_or_into_check() {
    let through = game_with(
        &[
            ("e1", Piece::WhiteKing),
            ("h1", Piece::WhiteRook),
            ("a1", Piece::WhiteRook),
            ("f8", Piece::BlackRook),
            ("a8", Piece::BlackKing),
        ],
        ChessColor::White,
        CastlingRights::all(),
    );
    let moves = through.legal_moves();
    assert!(!has(&moves, &mv("e1", "g1", MoveKind::Castle(CastleSide::KingSide))));
    assert!(has(&moves, &mv("e1", "c1", MoveKind::Castle(CastleSide::QueenSide))));
    let out_of = game_with(
        &[
            ("e1", Piece::WhiteKing),
            ("h1", Piece::WhiteRook),
            ("a1", Piece::WhiteRook),
            ("e8", Piece::BlackRook),
            ("a8", Piece::BlackKing),
        ],
        ChessColor::White,
        CastlingRights::all(),
    );
    assert!(!out_of.legal_moves().iter().any(|m| matches!(m.kind, MoveKind::Castle(_))));
    let into = game_with(
        &[
            ("e1", Piece::WhiteKing),
            ("h1", Piece::WhiteRook),
            ("g8", Piece::BlackRook),
            ("a8", Piece::BlackKing),
        ],
        ChessColor::White,
        CastlingRights::all(),
    );
    assert!(!into.legal_moves().iter().any(|m| matches!(m.kind, MoveKind::Castle(_))));
}

#[test]
fn no_castling_over_a_piece_or_without_the_right() {
    let blocked = game_with(
        &[
            ("e1", Piece::WhiteKing),
            ("h1", Piece::WhiteRook),
            ("a1", Piece::WhiteRook),
            ("b1", Piece::WhiteKnight),
            ("e8", Piece::BlackKing),
        ],
        ChessColor::White,
        CastlingRights::all(),
    );
    let moves = blocked.legal_moves();
    assert!(has(&moves, &mv("e1", "g1", MoveKind::Castle(CastleSide::KingSide))));
    assert!(!has(&moves, &mv("e1", "c1", MoveKind::Castle(CastleSide::QueenSide))));
    let without = game_with(
        &[("e1", Piece::WhiteKing), ("h1", Piece::WhiteRook), ("e8", Piece::BlackKing)],
        ChessColor::White,
        CastlingRights::none(),
    );
    assert!(!without.legal_moves().iter().any(|m| matches!(m.kind, MoveKind::Castle(_))));
}

#[test]
fn a_lost_castling_right_never_comes_back() {
    let mut game = game_with(
        &[
            ("e1", Piece::WhiteKing),
            ("a1", Piece::WhiteRook),
            ("h1", Piece::WhiteRook),
            ("e8", Piece::BlackKing),
            ("a8", Piece::BlackRook),
            ("h8", Piece::BlackRook),
        ],
        ChessColor::White,
        CastlingRights::all(),
    );
    assert!(game.play("h1h2").is_ok());
    assert!(!game.castling_rights().white_king_side);
    assert!(game.castling_rights().white_queen_side);
    assert!(game.play("a8a7").is_ok());
    assert!(!game.castling_rights().black_queen_side);
    assert!(game.play("h2h1").is_ok());
    assert!(!game.castling_rights().white_king_side);
    assert!(game.play("a7a8").is_ok());
    assert!(!game.castling_rights().black_queen_side);
    assert!(game.castling_rights().black_king_side);
    assert!(!has(
        &game.legal_moves(),
        &mv("e1", "g1", MoveKind::Castle(CastleSide::KingSide))
    ));
    assert!(game.play("e1e2").is_ok());
    assert!(!game.castling_rights().white_queen_side);
    assert!(game.play("h8h7").is_ok());
    assert!(game.play("e2e1").is_ok());
    assert_eq!(
        game.castling_rights(),
        CastlingRights {
            white_king_side: false,
            white_queen_side: false,
            black_king_side: false,
            black_queen_side: false,
        }
    );
}

#[test]
fn capturing_a_rook_on_its_corner_ends_the_right() {
    let mut game = game_with(
        &[
            ("e1", Piece::WhiteKing),
            ("h1", Piece::WhiteRook),
            ("e8", Piece::BlackKing),
            ("h8", Piece::BlackRook),
        ],
        ChessColor::White,
        CastlingRights::all(),
    );
    assert!(game.play("h1h8") == Ok(mv("h1", "h8", MoveKind::Capture)));
    let rights = game.castling_rights();
    assert!(!rights.white_king_side);
    assert!(!rights.black_king_side);
    assert!(rights.white_queen_side);
    assert!(rights.black_queen_side);
}

#[test]
fn apply_then_undo_restores_the_game() {
    let mut game = GameState::new();
    assert!(game.play("e2e4").is_ok());
    assert!(game.play("d7d5").is_ok());
    let before_board = game.position().board;
    let before_rights = game.castling_rights();
    let before_target = game.en_passant_target();
    let before_clock = game.halfmove_clock();
    let before_number = game.fullmove_number();
    let before_side = game.side_to_move();
    let before_len = game.history_len();
    for m in game.legal_moves() {
        assert!(game.apply(m).is_ok());
        assert_eq!(game.history_len(), before_len + 1);
        assert!(game.undo() == Some(m));
        assert!(game.position().board.same_position(&before_board));
        assert_eq!(game.castling_rights(), before_rights);
        assert_eq!(game.en_passant_target(), before_target);
        assert_eq!(game.halfmove_clock(), before_clock);
        assert_eq!(game.fullmove_number(), before_number);
        assert_eq!(game.side_to_move(), before_side);
        assert_eq!(game.history_len(), before_len);
    }
}

#[test]
fn undo_without_history_changes_nothing() {
    let mut game = GameState::new();
    assert!(game.undo().is_none());
    assert_eq!(game.legal_moves().len(), 20);
    assert_eq!(game.history_len(), 0);
}

#[test]
fn clocks_follow_the_moves() {
    let mut game = GameState::new();
    assert_eq!(game.halfmove_clock(), 0);
    assert_eq!(game.fullmove_number(), 1);
    assert!(game.play("g1f3").is_ok());
    assert_eq!(game.halfmove_clock(), 1);
    assert_eq!(game.fullmove_number(), 1);
    assert_eq!(game.side_to_move(), ChessColor::Black);
    assert!(game.play("g8f6").is_ok());
    assert_eq!(game.halfmove_clock(), 2);
    assert_eq!(game.fullmove_number(), 2);
    assert!(game.play("e2e4").is_ok());
    assert_eq!(game.halfmove_clock(), 0);
    assert!(game.play("f6e4").is_ok());
    assert_eq!(game.halfmove_clock(), 0);
    assert_eq!(game.fullmove_number(), 3);
    assert!(game.undo().is_some());
    assert_eq!(game.fullmove_number(), 2);
    assert_eq!(game.halfmove_clock(), 0);
    assert!(game.undo().is_some());
    assert_eq!(game.halfmove_clock(), 2);
}

#[test]
fn a_hundred_quiet_plies_are_a_draw() {
    let mut game = GameState::new();
    for _ in 0..25 {
        assert!(game.play("g1f3").is_ok());
        assert!(game.play("g8f6").is_ok());
        assert!(game.play("f3g1").is_ok());
        assert_eq!(game.status(), Status::Ongoing);
        assert!(game.play("f6g8").is_ok());
    }
    assert_eq!(game.halfmove_clock(), 100);
    assert_eq!(game.status(), Status::DrawByFiftyMove);
    assert_eq!(game.play("g1f3"), Err(MoveError::GameAlreadyOver));
    assert_eq!(game.halfmove_clock(), 100);
    assert!(game.undo().is_some());
    assert_eq!(game.halfmove_clock(), 99);
    assert_eq!(game.status(), Status::Ongoing);
}

#[test]
fn bare_kings_are_a_draw() {
    let game = game_with(
        &[("e1", Piece::WhiteKing), ("e8", Piece::BlackKing)],
        ChessColor::White,
        CastlingRights::none(),
    );
    assert_eq!(game.status(), Status::DrawByInsufficientMaterial);
    let one_minor = game_with(
        &[("e1", Piece::WhiteKing), ("e8", Piece::BlackKing), ("c3", Piece::BlackKnight)],
        ChessColor::White,
        CastlingRights::none(),
    );
    assert_eq!(one_minor.status(), Status::DrawByInsufficientMaterial);
    let two_minors = game_with(
        &[
            ("e1", Piece::WhiteKing),
            ("e8", Piece::BlackKing),
            ("c3", Piece::BlackKnight),
            ("c6", Piece::WhiteBishop),
        ],
        ChessColor::White,
        CastlingRights::none(),
    );
    assert_eq!(two_minors.status(), Status::Ongoing);
    let a_pawn = game_with(
        &[("e1", Piece::WhiteKing), ("e8", Piece::BlackKing), ("a2", Piece::WhitePawn)],
        ChessColor::White,
        CastlingRights::none(),
    );
    assert_eq!(a_pawn.status(), Status::Ongoing);
}

#[test]
fn each_refusal_has_its_reason() {
    let mut game = GameState::new();
    assert_eq!(game.play("e2e5"), Err(MoveError::IllegalMove));
    assert_eq!(game.play("e3e4"), Err(MoveError::NoPieceAtOrigin));
    assert_eq!(game.play("e7e5"), Err(MoveError::IllegalMove));
    assert_eq!(game.play("e2"), Err(MoveError::MalformedNotation));
    assert_eq!(game.play("e2e4q"), Err(MoveError::IllegalMove));
    assert_eq!(game.apply(mv("e2", "e4", MoveKind::Normal)), Err(MoveError::IllegalMove));
    assert_eq!(game.apply(mv("e3", "e4", MoveKind::Normal)), Err(MoveError::NoPieceAtOrigin));
    let off_board = Move {
        from: Square { file: 8, rank: 0 },
        to: Square { file: 0, rank: 0 },
        kind: MoveKind::Normal,
    };
    assert_eq!(game.apply(off_board), Err(MoveError::IllegalMove));
    assert_eq!(
        game.find_move(Square { file: 0, rank: 9 }, sq("a3"), None),
        Err(MoveError::IllegalMove)
    );
    assert_eq!(game.legal_moves().len(), 20);
    assert_eq!(game.history_len(), 0);
    assert_eq!(game.side_to_move(), ChessColor::White);
}

#[test]
fn a_pinned_piece_may_not_leave_the_line() {
    let game = game_with(
        &[
            ("e1", Piece::WhiteKing),
            ("e2", Piece::WhiteBishop),
            ("e8", Piece::BlackRook),
            ("a8", Piece::BlackKing),
        ],
        ChessColor::White,
        CastlingRights::none(),
    );
    let moves = game.legal_moves();
    assert!(!moves.iter().any(|m| m.from == sq("e2")));
    assert_eq!(game.moves(6, 4), Vec::<(usize, usize)>::new());
    assert_eq!(game.find_move(sq("e2"), sq("d3"), None), Err(MoveError::IllegalMove));
}

#[test]
fn with_position_refuses_a_target_off_the_board() {
    let position = Position {
        board: Board::starting(),
        side_to_move: ChessColor::White,
        castling_rights: CastlingRights::all(),
        en_passant_target: Some(Square { file: 3, rank: 8 }),
    };
    assert!(GameState::with_position(position).is_none());
}
