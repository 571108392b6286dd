use kira::fen::{fen_letter, fen_piece, load_fen, setup_board};
use kira::moves::{Move, MoveType};
use kira::piece::{Color, Piece};
use kira::requests::{
    get_en_pass_target_square, has_piece_on_square_moved, move_reply_outcome, move_request,
    parse_response, piece_name_color_to_piece, reply_player_known, server_reply_problem,
    to_ascii_lowercase, try_parse_response, update_board, MoveRequest, ServerBoardError,
    ServerPiece,
};
use kira::translate_move_uci::{
    algebraic_to_square, move_to_uci, piece_to_promo_char, promo_char_to_piece,
    square_to_algebraic, uci_to_move,
};

#[test]
fn fen_of_start_position_is_mirrored() {
    let b = setup_board();
    assert_eq!(b.fen(), "rnbkqbnr/pppppppp/8/8/8/8/PPPPPPPP/RNBKQBNR");
}

#[test]
fn fen_writes_counts_after_pieces() {
    let b = load_fen("4k3/8/8/8/8/8/8/4K3 w - - 0 1").unwrap();
    assert_eq!(b.fen(), "k34/8/8/8/8/8/8/K3");
}

#[test]
fn load_fen_reads_start_position() {
    let b = load_fen("rnbqkbnr/pppppppp/8/8/8/8/PPPPPPPP/RNBQKBNR w KQkq - 0 1").unwrap();
    let s = setup_board();
    assert_eq!(b.pieces, s.pieces);
    assert_eq!(b.side_to_move, Color::White);
    assert_eq!(b.en_passant_target_square, None);
    assert!(b.white_king_castling_possible && b.white_queen_castling_possible);
    assert!(b.black_king_castling_possible && b.black_queen_castling_possible);
    assert!(b.position_history_hashed.is_empty());
}

#[test]
fn load_fen_reads_side_rights_and_en_passant() {
    let b = load_fen("4k3/8/8/8/4P3/8/8/4K3   b  Kq e3 0 1").unwrap();
    assert_eq!(b.side_to_move, Color::Black);
    assert!(b.white_king_castling_possible);
    assert!(!b.white_queen_castling_possible);
    assert!(!b.black_king_castling_possible);
    assert!(b.black_queen_castling_possible);
    assert_eq!(b.en_passant_target_square, Some(20));
    assert_eq!(b.pieces[28], Piece::WPawn);
    assert_eq!(b.pieces[60], Piece::BKing);
}

#[test]
fn load_fen_accepts_fewer_ranks() {
    let b = load_fen("8/8 w - - 0 1").unwrap();
    assert!(b.pieces.iter().all(|p| *p == Piece::Empty));
}

#[test]
fn load_fen_errors() {
    let err = |s: &str| load_fen(s).err().unwrap();
    assert_eq!(err(""), "Invalid FEN: expected 6 fields");
    assert_eq!(err("8/8/8/8/8/8/8/8 w - - 0"), "Invalid FEN: expected 6 fields");
    assert_eq!(err("8/8/8/8/8/8/8/8/ w - - 0 1"), "Invalid FEN: too many ranks");
    assert_eq!(err("8p/8/8/8/8/8/8/8 w - - 0 1"), "Invalid FEN: too many squares in rank");
    assert_eq!(err("x7/8/8/8/8/8/8/8 w - - 0 1"), "Invalid FEN: unknown piece 'x'");
    assert_eq!(err("9/8/8/8/8/8/8/8 w - - 0 1"), "Invalid FEN: rank 8 does not contain 8 squares");
    assert_eq!(err("8/8/7/8/8/8/8/8 w - - 0 1"), "Invalid FEN: rank 6 does not contain 8 squares");
    assert!(load_fen("8/8/8/8/8/8/8/80 w - - 0 1").is_ok());
    assert_eq!(err("8/8/8/8/8/8/8/99 w - - 0 1"), "Invalid FEN: rank 1 does not contain 8 squares");
    assert_eq!(err("8/8/8/8/8/8/8/8 x - - 0 1"), "Invalid FEN: invalid side to move");
    assert_eq!(err("8/8/8/8/8/8/8/8 w - e33 0 1"), "Invalid FEN: invalid en-passant square");
    assert_eq!(err("8/8/8/8/8/8/8/8 w - z3 0 1"), "Invalid FEN: invalid en-passant file");
    assert_eq!(err("8/8/8/8/8/8/8/8 w - \u{e9} 0 1"), "Invalid FEN: invalid en-passant file");
    assert_eq!(err("8/8/8/8/8/8/8/8 w - e9 0 1"), "Invalid FEN: invalid en-passant rank");
}

#[test]
fn display_string_draws_the_board() {
    let text = setup_board().to_display_string();
    let lines: Vec<&str> = text.lines().collect();
    assert_eq!(lines.len(), 9);
    assert_eq!(lines[0], "8\u{2656} \u{2658} \u{2657} \u{2655} \u{2654} \u{2657} \u{2658} \u{2656} ");
    assert_eq!(lines[4], "4. . . . . . . . ");
    assert_eq!(lines[7], "1\u{265C} \u{265E} \u{265D} \u{265B} \u{265A} \u{265D} \u{265E} \u{265C} ");
    assert_eq!(lines[8], " a b c d e f g h");
    assert!(text.ends_with('\n'));
}

#[test]
fn piece_colors_and_scores() {
    assert_eq!(Piece::Empty.color(), None);
    assert_eq!(Piece::WRook.color(), Some(Color::White));
    assert_eq!(Piece::BPawn.color(), Some(Color::Black));
    assert_eq!(Piece::WQueen.score(), 9);
    assert_eq!(Piece::BKnight.score(), -3);
    assert_eq!(Piece::WKing.score(), 0);
    assert_eq!(Color::White.invert(), Color::Black);
    assert_eq!(Color::Black.king(), Piece::BKing);
    assert_eq!(Piece::WPawn.symbol(), '\u{265F}');
}

#[test]
fn pieces_of_a_color_mirror_scores() {
    for c in [Color::White, Color::Black] {
        let kinds = [c.pawn(), c.knight(), c.bishop(), c.rook(), c.queen(), c.king()];
        let other = c.invert();
        let mirrored =
            [other.pawn(), other.knight(), other.bishop(), other.rook(), other.queen(), other.king()];
        for (p, q) in kinds.iter().zip(mirrored.iter()) {
            assert_eq!(p.color(), Some(c));
            assert_eq!(p.score(), -q.score());
        }
    }
    assert_eq!(Color::White.rook().score(), 5);
    assert_eq!(Color::Black.rook().score(), -5);
}

#[test]
fn fen_letters_read_back() {
    let pieces = [
        Piece::WKing, Piece::WQueen, Piece::WRook, Piece::WBishop, Piece::WKnight, Piece::WPawn,
        Piece::BKing, Piece::BQueen, Piece::BRook, Piece::BBishop, Piece::BKnight, Piece::BPawn,
    ];
    for p in pieces {
        assert_eq!(fen_piece(fen_letter(p)), Some(p));
    }
    assert_eq!(fen_letter(Piece::BKnight), 'n');
    assert_eq!(fen_piece('x'), None);
}

#[test]
fn square_names_round_trip() {
    assert_eq!(square_to_algebraic(0), "a1");
    assert_eq!(square_to_algebraic(63), "h8");
    assert_eq!(square_to_algebraic(28), "e4");
    for sq in 0u8..64 {
        assert_eq!(algebraic_to_square(&square_to_algebraic(sq)), Some(sq));
    }
    assert_eq!(algebraic_to_square("i1"), None);
    assert_eq!(algebraic_to_square("a"), None);
    assert_eq!(algebraic_to_square("h8xyz"), Some(63));
}

#[test]
fn promotion_letters() {
    assert_eq!(piece_to_promo_char(Piece::BQueen), 'q');
    assert_eq!(piece_to_promo_char(Piece::WKnight), 'n');
    assert_eq!(promo_char_to_piece('r', Color::Black), Some(Piece::BRook));
    assert_eq!(promo_char_to_piece('k', Color::White), None);
}

#[test]
fn move_to_uci_examples() {
    assert_eq!(move_to_uci(&Move { from: 12, to: 28, move_type: MoveType::PawnDoubleStep }), "e2e4");
    assert_eq!(move_to_uci(&Move { from: 4, to: 6, move_type: MoveType::CastleKingside }), "e1g1");
    assert_eq!(
        move_to_uci(&Move { from: 52, to: 60, move_type: MoveType::Promotion(Piece::WQueen) }),
        "e7e8q"
    );
}

#[test]
fn uci_to_move_reads_move_types() {
    let b = setup_board();
    assert_eq!(
        uci_to_move("e2e4", &b),
        Some(Move { from: 12, to: 28, move_type: MoveType::PawnDoubleStep })
    );
    assert_eq!(uci_to_move("g1f3", &b), Some(Move { from: 6, to: 21, move_type: MoveType::Normal }));
    assert_eq!(
        uci_to_move("e1g1", &b),
        Some(Move { from: 4, to: 6, move_type: MoveType::CastleKingside })
    );
    assert_eq!(
        uci_to_move("e1c1", &b),
        Some(Move { from: 4, to: 2, move_type: MoveType::CastleQueenside })
    );
    assert_eq!(uci_to_move("e3e4", &b), None);
    assert_eq!(uci_to_move("e2e4x", &b), None);
    assert_eq!(uci_to_move("z2e4", &b), None);
    assert_eq!(uci_to_move("", &b), None);
    assert_eq!(uci_to_move("e2e4e", &b), None);
    let p = load_fen("4k3/P7/8/3pP3/8/8/8/4K3 w - d6 0 1").unwrap();
    assert_eq!(
        uci_to_move("a7a8n", &p),
        Some(Move { from: 48, to: 56, move_type: MoveType::Promotion(Piece::WKnight) })
    );
    assert_eq!(
        uci_to_move("e5d6", &p),
        Some(Move { from: 36, to: 43, move_type: MoveType::EnPassant })
    );
}

#[test]
fn uci_round_trip_on_generated_moves() {
    let b = load_fen("r3k2r/p1ppqpb1/bn2pnp1/3PN3/1p2P3/2N2Q1p/PPPBBPPP/R3K2R w KQkq - 0 1").unwrap();
    for m in b.generate_possible_moves() {
        assert_eq!(uci_to_move(&move_to_uci(&m), &b), Some(m));
    }
}

#[test]
fn server_piece_names() {
    assert_eq!(piece_name_color_to_piece("BISHOP", "WHITE"), Some(Piece::WKnight));
    assert_eq!(piece_name_color_to_piece("KNIGHT", "BLACK"), Some(Piece::BBishop));
    assert_eq!(piece_name_color_to_piece("PAWN", "BLACK"), Some(Piece::BPawn));
    assert_eq!(piece_name_color_to_piece("KING", "GREEN"), None);
    assert_eq!(piece_name_color_to_piece("pawn", "WHITE"), None);
    assert_eq!(to_ascii_lowercase("E2x\u{c9}"), "e2x\u{c9}");
}

fn server_piece(coords: &str, kind: &str, player: &str, moved: Option<bool>) -> ServerPiece {
    ServerPiece {
        coordinates: Some(coords.to_string()),
        piece_type: Some(kind.to_string()),
        player: Some(player.to_string()),
        en_passe_possible: Some(false),
        has_moved: moved,
    }
}

#[test]
fn has_piece_on_square_moved_looks_up_first_entry() {
    let pieces = vec![
        server_piece("E1", "KING", "WHITE", Some(false)),
        server_piece("A1", "ROOK", "WHITE", None),
        server_piece("H1", "ROOK", "WHITE", Some(true)),
    ];
    assert!(!has_piece_on_square_moved(&pieces, "e1"));
    assert!(!has_piece_on_square_moved(&pieces, "a1"));
    assert!(has_piece_on_square_moved(&pieces, "h1"));
    assert!(has_piece_on_square_moved(&pieces, "a8"));
}

#[test]
fn en_passant_target_is_behind_the_pawn() {
    assert_eq!(get_en_pass_target_square(27, Color::White), 19);
    assert_eq!(get_en_pass_target_square(35, Color::Black), 43);
}

const SERVER_REPLY: &str = r#"{"response":{"board":{"activePlayer":"BLACK","pieces":[
 {"coordinates":"E1","type":"KING","player":"WHITE","hasMoved":false},
 {"coordinates":"E8","type":"KING","player":"BLACK","hasMoved":false},
 {"coordinates":"H1","type":"ROOK","player":"WHITE","hasMoved":false},
 {"coordinates":"D4","type":"PAWN","player":"WHITE","enPassePossible":true,"hasMoved":true}]}}}"#;

#[test]
fn update_board_reads_server_reply() {
    let mut old = setup_board();
    old.add_current_position_to_history();
    let history = old.position_history_hashed.clone();
    let b = update_board(&mut old, SERVER_REPLY).unwrap();
    assert_eq!(b.side_to_move, Color::Black);
    assert_eq!(b.pieces[4], Piece::WKing);
    assert_eq!(b.pieces[60], Piece::BKing);
    assert_eq!(b.pieces[7], Piece::WRook);
    assert_eq!(b.pieces[27], Piece::WPawn);
    assert_eq!(b.en_passant_target_square, Some(19));
    assert!(b.white_king_castling_possible);
    assert!(!b.white_queen_castling_possible);
    assert!(!b.black_king_castling_possible);
    assert!(!b.black_queen_castling_possible);
    assert_eq!(b.position_history_hashed.len(), 2);
    assert_eq!(b.position_history_hashed[0], history[0]);
    assert_eq!(old.position_history_hashed, history);
}

#[test]
fn update_board_refuses_bad_replies() {
    let mut old = setup_board();
    assert!(update_board(&mut old, "not json").is_none());
    assert!(update_board(&mut old, r#"{"response":{"board":{"activePlayer":"RED","pieces":[]}}}"#).is_none());
    assert!(update_board(&mut old, r#"{"response":{"board":{"activePlayer":"WHITE"}}}"#).is_none());
    let missing_flag = r#"{"response":{"board":{"activePlayer":"WHITE","pieces":[
        {"coordinates":"D4","type":"PAWN","player":"WHITE","hasMoved":true}]}}}"#;
    assert!(update_board(&mut old, missing_flag).is_none());
    let off_board = r#"{"response":{"board":{"activePlayer":"BLACK","pieces":[
        {"coordinates":"D1","type":"PAWN","player":"WHITE","enPassePossible":true}]}}}"#;
    assert!(update_board(&mut old, off_board).is_none());
    let empty = update_board(&mut old, r#"{"response":{"board":{"activePlayer":"WHITE","pieces":[]}}}"#).unwrap();
    assert!(empty.pieces.iter().all(|p| *p == Piece::Empty));
}

#[test]
fn move_requests_name_server_squares() {
    match move_request(&Move { from: 4, to: 6, move_type: MoveType::CastleKingside }) {
        MoveRequest::Castling { king, rook } => {
            assert_eq!(king, "E1");
            assert_eq!(rook, "H1");
        }
        _ => panic!("expected castling"),
    }
    match move_request(&Move { from: 60, to: 58, move_type: MoveType::CastleQueenside }) {
        MoveRequest::Castling { king, rook } => {
            assert_eq!(king, "E8");
            assert_eq!(rook, "A8");
        }
        _ => panic!("expected castling"),
    }
    match move_request(&Move { from: 52, to: 60, move_type: MoveType::Promotion(Piece::WKnight) }) {
        MoveRequest::PawnReachesEnd { from, to, new_piece } => {
            assert_eq!(from, "E7");
            assert_eq!(to, "E8");
            assert_eq!(new_piece, "BISHOP");
        }
        _ => panic!("expected promotion"),
    }
    match move_request(&Move { from: 12, to: 28, move_type: MoveType::PawnDoubleStep }) {
        MoveRequest::Normal { from, to } => {
            assert_eq!(from, "E2");
            assert_eq!(to, "E4");
        }
        _ => panic!("expected a normal move"),
    }
}

#[test]
fn move_reply_outcomes() {
    let ok = r#"{"response":{"ok":true}}"#;
    assert_eq!(move_reply_outcome(ok), Ok(ok.to_string()));
    assert_eq!(
        move_reply_outcome(r#"{"response":{"error":"illegal move"}}"#),
        Err("\"illegal move\"".to_string())
    );
    assert!(move_reply_outcome("nope").is_err());
}

#[test]
fn server_reply_problems_name_the_first_failure() {
    assert!(server_reply_problem(SERVER_REPLY).is_none());
    assert!(matches!(server_reply_problem("not json"), Some(ServerBoardError::NotJson)));
    assert!(matches!(
        server_reply_problem(r#"{"response":{"board":{"pieces":[]}}}"#),
        Some(ServerBoardError::MissingActivePlayer)
    ));
    match server_reply_problem(r#"{"response":{"board":{"activePlayer":"RED"}}}"#) {
        Some(ServerBoardError::InvalidColor(c)) => assert_eq!(c, "RED"),
        _ => panic!("expected an invalid color"),
    }
    assert!(matches!(
        server_reply_problem(r#"{"response":{"board":{"activePlayer":"WHITE"}}}"#),
        Some(ServerBoardError::MissingPieces)
    ));
    let entries = |list: &str| {
        format!(r#"{{"response":{{"board":{{"activePlayer":"WHITE","pieces":[{}]}}}}}}"#, list)
    };
    assert!(matches!(
        server_reply_problem(&entries(r#"{"type":"KING","player":"WHITE"}"#)),
        Some(ServerBoardError::MissingCoordinates)
    ));
    match server_reply_problem(&entries(r#"{"coordinates":"Z9","type":"KING","player":"WHITE"}"#)) {
        Some(ServerBoardError::BadCoordinates(c)) => assert_eq!(c, "z9"),
        _ => panic!("expected bad coordinates"),
    }
    assert!(matches!(
        server_reply_problem(&entries(r#"{"coordinates":"E1","player":"WHITE"}"#)),
        Some(ServerBoardError::MissingPieceType)
    ));
    assert!(matches!(
        server_reply_problem(&entries(r#"{"coordinates":"E1","type":"KING"}"#)),
        Some(ServerBoardError::MissingPlayer)
    ));
    match server_reply_problem(&entries(r#"{"coordinates":"E1","type":"DRAGON","player":"WHITE"}"#)) {
        Some(ServerBoardError::UnknownPiece(player, kind)) => {
            assert_eq!(player, "WHITE");
            assert_eq!(kind, "DRAGON");
        }
        _ => panic!("expected an unknown piece"),
    }
    // the first failing entry decides
    assert!(matches!(
        server_reply_problem(&entries(
            r#"{"coordinates":"D4","type":"PAWN","player":"WHITE"},{"coordinates":"E1","type":"KING"}"#
        )),
        Some(ServerBoardError::MissingEnPassant)
    ));
    let off_board = r#"{"response":{"board":{"activePlayer":"BLACK","pieces":[
        {"coordinates":"D1","type":"PAWN","player":"WHITE","enPassePossible":true}]}}}"#;
    assert!(matches!(server_reply_problem(off_board), Some(ServerBoardError::EnPassantOffBoard)));
    let mut old = setup_board();
    assert!(update_board(&mut old, off_board).is_none());
}

#[test]
fn parse_response_reads_the_side_to_move() {
    let white = r#"{"response":{"board":{"active_player":"WHITE"}}}"#;
    let black = r#"{"response":{"board":{"active_player":"BLACK"}}}"#;
    let red = r#"{"response":{"board":{"active_player":"RED"}}}"#;
    let numeric = r#"{"response":{"board":{"active_player":3}}}"#;
    assert!(reply_player_known(white));
    assert!(reply_player_known("not json"));
    assert!(reply_player_known(numeric));
    assert!(!reply_player_known(red));
    let start = setup_board();
    let b = parse_response(black).unwrap();
    assert_eq!(b.side_to_move, Color::Black);
    assert_eq!(b.pieces, start.pieces);
    assert!(b.white_king_castling_possible && b.black_queen_castling_possible);
    assert_eq!(b.en_passant_target_square, None);
    assert!(b.position_history_hashed.is_empty());
    assert_eq!(parse_response(white).unwrap().side_to_move, Color::White);
    assert_eq!(parse_response(numeric).unwrap().side_to_move, Color::White);
    assert_eq!(parse_response("{}").unwrap().side_to_move, Color::White);
    assert!(parse_response("not json").is_none());
    assert_eq!(try_parse_response(black).unwrap().unwrap().side_to_move, Color::Black);
    assert!(matches!(try_parse_response("not json"), Some(None)));
    assert!(try_parse_response(red).is_none());
}
