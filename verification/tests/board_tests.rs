use kira::board::Board;
use kira::engine::{choose_engine_move, extract_move_token, parse_square_number};
use kira::fen::{load_fen, setup_board};
use kira::moves::{get_file, get_rank, offset_square, Move, MoveType};
use kira::perft::{divided_perft, divided_perft_checked, perft, perft_checked};
use kira::translate_move_uci::{move_to_uci, uci_to_move};
use kira::piece::{Color, Piece};

fn same_position(a: &Board, b: &Board) -> bool {
    a.pieces == b.pieces
        && a.en_passant_target_square == b.en_passant_target_square
        && a.side_to_move == b.side_to_move
        && a.white_king_castling_possible == b.white_king_castling_possible
        && a.white_queen_castling_possible == b.white_queen_castling_possible
        && a.black_king_castling_possible == b.black_king_castling_possible
        && a.black_queen_castling_possible == b.black_queen_castling_possible
}

const KIWIPETE: &str = "r3k2r/p1ppqpb1/bn2pnp1/3PN3/1p2P3/2N2Q1p/PPPBBPPP/R3K2R w KQkq - 0 1";

#[test]
fn start_position_has_twenty_moves() {
    let b = setup_board();
    let moves = b.generate_possible_moves();
    assert_eq!(moves.len(), 20);
    assert!(moves.contains(&Move { from: 12, to: 28, move_type: MoveType::PawnDoubleStep }));
    assert!(moves.contains(&Move { from: 6, to: 21, move_type: MoveType::Normal }));
}

#[test]
fn perft_from_start_position() {
    let mut b = setup_board();
    assert_eq!(perft(&mut b, 0), 1);
    assert_eq!(perft(&mut b, 1), 20);
    assert_eq!(perft(&mut b, 2), 400);
    assert_eq!(perft(&mut b, 3), 8902);
    assert!(same_position(&b, &setup_board()));
}

#[test]
fn perft_keeps_history_prefix() {
    let mut b = setup_board();
    b.add_current_position_to_history();
    let before = b.position_history_hashed.clone();
    perft(&mut b, 2);
    assert_eq!(&b.position_history_hashed[..before.len()], &before[..]);
    // one hash per visited position: 20 after the first move, 400 after the second
    assert_eq!(b.position_history_hashed.len(), before.len() + 420);
    // the first appended hash is that of the first move's placement, with the
    // mover still to move
    let first = b.generate_possible_moves()[0];
    let mut c = setup_board();
    c.make_move(&first);
    assert_eq!(b.position_history_hashed[before.len()], c.position_history_hashed[0]);
}

#[test]
fn perft_kiwipete() {
    let mut b = load_fen(KIWIPETE).unwrap();
    assert_eq!(perft(&mut b, 1), 48);
    assert_eq!(perft(&mut b, 2), 2039);
}

#[test]
fn perft_endgame_with_en_passant() {
    let mut b = load_fen("8/2p5/3p4/KP5r/1R3p1k/8/4P1P1/8 w - - 0 1").unwrap();
    assert_eq!(perft(&mut b, 1), 14);
    assert_eq!(perft(&mut b, 2), 191);
    assert_eq!(perft(&mut b, 3), 2812);
}

#[test]
fn perft_checked_agrees_with_perft() {
    let mut b = setup_board();
    assert_eq!(perft_checked(&mut b, 3), Some(8902));
    let mut k = load_fen(KIWIPETE).unwrap();
    assert_eq!(perft_checked(&mut k, 2), Some(2039));
}

#[test]
fn perft_checked_refuses_unbacked_en_passant_square() {
    // the en-passant square d6 has no black pawn behind it: the capture e5xd6
    // is generated, but unmaking it puts a black pawn on d5
    let mut b = load_fen("4k3/8/8/4P3/8/8/8/4K3 w - d6 0 1").unwrap();
    let before = load_fen("4k3/8/8/4P3/8/8/8/4K3 w - d6 0 1").unwrap();
    assert_eq!(perft_checked(&mut b, 1), None);
    // the board is left as it was
    assert!(same_position(&b, &before));
    assert!(b.position_history_hashed.is_empty());
}

#[test]
fn divided_perft_sums_to_perft() {
    let mut b = setup_board();
    let (counts, total) = divided_perft(&mut b, 2);
    assert_eq!(counts.len(), 20);
    assert_eq!(total, 400);
    assert!(counts.iter().all(|(_, n)| *n == 20));
    let sum: usize = counts.iter().map(|(_, n)| *n).sum();
    assert_eq!(sum, total);
}

#[test]
fn divided_perft_start_depth_three() {
    let mut b = setup_board();
    let (counts, total) = divided_perft(&mut b, 3);
    assert_eq!(total, 8902);
    let count_of = |from: u8, to: u8| {
        counts.iter().find(|(m, _)| m.from == from && m.to == to).map(|(_, n)| *n)
    };
    assert_eq!(count_of(12, 28), Some(600)); // e2e4
    assert_eq!(count_of(11, 27), Some(560)); // d2d4
    assert_eq!(count_of(6, 21), Some(440)); // g1f3
    assert_eq!(count_of(8, 16), Some(380)); // a2a3
}

#[test]
fn counting_never_fails_after_played_moves() {
    let mut b = setup_board();
    for _ in 0..12 {
        match choose_engine_move(&b) {
            Some(m) => {
                b.make_move(&m);
            }
            None => break,
        }
        let mut c = b.clone();
        let counted = perft_checked(&mut c, 2);
        assert!(counted.is_some());
        assert_eq!(counted, Some(perft(&mut c, 2)));
    }
}

#[test]
fn make_and_unmake_restore_every_start_move() {
    let start = setup_board();
    for m in start.generate_possible_moves() {
        let mut b = setup_board();
        let undo = b.make_move(&m);
        assert_eq!(b.side_to_move, Color::Black);
        assert_eq!(b.position_history_hashed.len(), 1);
        b.unmake_move(&m, undo);
        assert!(same_position(&b, &start));
    }
}

#[test]
fn make_move_double_step_sets_en_passant() {
    let mut b = setup_board();
    let undo = b.make_move(&Move { from: 12, to: 28, move_type: MoveType::PawnDoubleStep });
    assert_eq!(b.en_passant_target_square, Some(20));
    assert_eq!(b.pieces[28], Piece::WPawn);
    assert_eq!(b.pieces[12], Piece::Empty);
    assert_eq!(undo.captured_piece, Piece::Empty);
    assert_eq!(undo.old_en_passant_target_square, None);
    b.make_move(&Move { from: 52, to: 36, move_type: MoveType::PawnDoubleStep });
    assert_eq!(b.en_passant_target_square, Some(44));
    b.make_move(&Move { from: 6, to: 21, move_type: MoveType::Normal });
    assert_eq!(b.en_passant_target_square, None);
}

#[test]
fn castling_moves_rook_and_clears_rights() {
    let mut b = load_fen("r3k2r/8/8/8/8/8/8/R3K2R w KQkq - 0 1").unwrap();
    let moves = b.generate_possible_moves();
    let short = Move { from: 4, to: 6, move_type: MoveType::CastleKingside };
    let long = Move { from: 4, to: 2, move_type: MoveType::CastleQueenside };
    assert!(moves.contains(&short));
    assert!(moves.contains(&long));
    let undo = b.make_move(&short);
    assert_eq!(b.pieces[6], Piece::WKing);
    assert_eq!(b.pieces[5], Piece::WRook);
    assert_eq!(b.pieces[7], Piece::Empty);
    assert!(!b.white_king_castling_possible);
    assert!(!b.white_queen_castling_possible);
    assert!(b.black_king_castling_possible);
    b.unmake_move(&short, undo);
    assert_eq!(b.pieces[4], Piece::WKing);
    assert_eq!(b.pieces[7], Piece::WRook);
    assert!(b.white_king_castling_possible);
    let undo = b.make_move(&long);
    assert_eq!(b.pieces[2], Piece::WKing);
    assert_eq!(b.pieces[3], Piece::WRook);
    assert_eq!(b.pieces[0], Piece::Empty);
    b.unmake_move(&long, undo);
    assert_eq!(b.pieces[0], Piece::WRook);
}

#[test]
fn castling_through_attack_is_not_generated() {
    // the black rook on f8 attacks f1
    let b = load_fen("4kr2/8/8/8/8/8/8/4K2R w K - 0 1").unwrap();
    let moves = b.generate_possible_moves();
    assert!(!moves.iter().any(|m| m.move_type == MoveType::CastleKingside));
}

#[test]
fn capturing_a_rook_clears_its_castling_right() {
    let mut b = load_fen("r3k2r/8/8/8/8/8/8/R3K2R w KQkq - 0 1").unwrap();
    b.make_move(&Move { from: 0, to: 56, move_type: MoveType::Normal });
    assert!(!b.white_queen_castling_possible);
    assert!(!b.black_queen_castling_possible);
    assert!(b.black_king_castling_possible);
}

#[test]
fn en_passant_capture_and_undo() {
    let mut b = load_fen("4k3/8/8/3pP3/8/8/8/4K3 w - d6 0 1").unwrap();
    let ep = Move { from: 36, to: 43, move_type: MoveType::EnPassant };
    assert!(b.generate_possible_moves().contains(&ep));
    let before = load_fen("4k3/8/8/3pP3/8/8/8/4K3 w - d6 0 1").unwrap();
    let undo = b.make_move(&ep);
    assert_eq!(undo.captured_piece, Piece::BPawn);
    assert_eq!(b.pieces[35], Piece::Empty);
    assert_eq!(b.pieces[43], Piece::WPawn);
    b.unmake_move(&ep, undo);
    assert!(same_position(&b, &before));
}

#[test]
fn promotions_come_in_four() {
    let b = load_fen("4k3/P7/8/8/8/8/8/4K3 w - - 0 1").unwrap();
    let moves = b.generate_possible_moves();
    let promos: Vec<Piece> = moves
        .iter()
        .filter(|m| m.from == 48)
        .map(|m| match m.move_type {
            MoveType::Promotion(p) => p,
            _ => Piece::Empty,
        })
        .collect();
    assert_eq!(promos, vec![Piece::WBishop, Piece::WKnight, Piece::WRook, Piece::WQueen]);
}

#[test]
fn moves_into_check_are_not_legal() {
    // the white king may not step next to the black king or onto the rook's file
    let b = load_fen("4k3/8/8/8/8/8/r7/4K3 w - - 0 1").unwrap();
    let moves = b.generate_possible_moves();
    assert!(moves.iter().all(|m| m.to < 8));
    assert_eq!(moves.len(), 2);
}

#[test]
fn checkmate_has_no_moves() {
    let b = load_fen("7k/6Q1/6K1/8/8/8/8/8 b - - 0 1").unwrap();
    assert!(b.generate_possible_moves().is_empty());
    assert_eq!(choose_engine_move(&b), None);
}

#[test]
fn engine_picks_a_legal_move() {
    let b = setup_board();
    let legal = b.generate_possible_moves();
    for _ in 0..10 {
        let m = choose_engine_move(&b).unwrap();
        assert!(legal.contains(&m));
    }
}

#[test]
fn try_generate_refuses_board_without_king() {
    let b = load_fen("8/8/8/8/8/8/8/R7 w - - 0 1").unwrap();
    assert!(b.try_generate_possible_moves().is_none());
    assert!(!b.has_king(Color::White));
    let s = setup_board();
    assert_eq!(s.try_generate_possible_moves().unwrap().len(), 20);
}

#[test]
fn offset_square_stays_on_board() {
    assert_eq!(offset_square(0, -1, 0), None);
    assert_eq!(offset_square(0, 1, 1), Some(9));
    assert_eq!(offset_square(63, 1, 0), None);
    assert_eq!(offset_square(63, -7, -7), Some(0));
    assert_eq!(offset_square(28, 2, -1), Some(22));
    assert_eq!(get_rank(28), 3);
    assert_eq!(get_file(28), 4);
}

#[test]
fn extract_move_token_takes_last_token() {
    assert_eq!(extract_move_token("position startpos move e2e4\n"), Some("e2e4"));
    assert_eq!(extract_move_token("  e7e8q  "), Some("e7e8q"));
    assert_eq!(extract_move_token(""), Some(""));
    assert_eq!(extract_move_token(" \t\n"), Some(""));
    assert_eq!(extract_move_token("a b\u{a0}c"), Some("b\u{a0}c"));
}

#[test]
fn zobrist_history_distinguishes_positions() {
    let mut b = setup_board();
    b.add_current_position_to_history();
    let m = Move { from: 6, to: 21, move_type: MoveType::Normal };
    let back = Move { from: 21, to: 6, move_type: MoveType::Normal };
    b.make_move(&m);
    b.make_move(&Move { from: 62, to: 45, move_type: MoveType::Normal });
    b.make_move(&back);
    b.make_move(&Move { from: 45, to: 62, move_type: MoveType::Normal });
    let h = &b.position_history_hashed;
    assert_eq!(h.len(), 5);
    // the position after the knights went back equals the start position, but
    // it was hashed with black still to move, so only the placement matches
    assert_ne!(h[0], h[1]);
    let mut c = setup_board();
    c.add_current_position_to_history();
    c.add_current_position_to_history();
    assert_eq!(c.position_history_hashed[0], c.position_history_hashed[1]);
}

#[test]
fn square_numbers_read_like_u8_parse() {
    let inputs = [
        "12", " 12\n", "+7", "007", "255", "256", "-1", "", "+", "1a", " ", "\t63\r\n", "+-1",
        "99999999999", "\u{a0}5\u{2003}",
    ];
    for s in inputs {
        assert_eq!(parse_square_number(s), s.trim().parse::<u8>().ok(), "input {:?}", s);
    }
    assert_eq!(parse_square_number(" 12\n"), Some(12));
    assert_eq!(parse_square_number("256"), None);
}

#[test]
fn divided_perft_checked_agrees_and_refuses() {
    let mut b = setup_board();
    let (counts, total) = divided_perft_checked(&mut b, 2).unwrap();
    let mut c = setup_board();
    let (expected_counts, expected_total) = divided_perft(&mut c, 2);
    assert_eq!(total, expected_total);
    assert_eq!(counts, expected_counts);
    assert_eq!(b.position_history_hashed, c.position_history_hashed);
    // depth zero with moves left is refused, without moves it counts nothing
    assert_eq!(divided_perft_checked(&mut b, 0), None);
    let mut mate = load_fen("7k/6Q1/6K1/8/8/8/8/8 b - - 0 1").unwrap();
    assert_eq!(divided_perft_checked(&mut mate, 0), Some((Vec::new(), 0)));
    // an unbacked en-passant square is refused and the board left as it was
    let mut u = load_fen("4k3/8/8/4P3/8/8/8/4K3 w - d6 0 1").unwrap();
    let before = load_fen("4k3/8/8/4P3/8/8/8/4K3 w - d6 0 1").unwrap();
    assert_eq!(divided_perft_checked(&mut u, 2), None);
    assert!(same_position(&u, &before));
    assert!(u.position_history_hashed.is_empty());
}

#[test]
fn castling_without_king_on_its_square_does_not_read_back() {
    // the right to castle is held while the king stands on d1: the generator
    // lists e1g1 as a castling, but UCI reading finds no piece on e1
    let b = load_fen("4k3/8/8/8/8/8/8/3K3R w K - 0 1").unwrap();
    let castle = Move { from: 4, to: 6, move_type: MoveType::CastleKingside };
    assert!(b.generate_possible_moves().contains(&castle));
    assert_eq!(uci_to_move(&move_to_uci(&castle), &b), None);
    // every other legal move reads back
    for m in b.generate_possible_moves() {
        if m != castle {
            assert_eq!(uci_to_move(&move_to_uci(&m), &b), Some(m));
        }
    }
}
