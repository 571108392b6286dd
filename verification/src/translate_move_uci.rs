use vstd::prelude::*;

use crate::board::{Board, Position};
use crate::moves::{Move, MoveType};
use crate::piece::{Color, Piece};
use crate::text::push_char;
use vstd::string::{is_ascii_spec_bytes, StringSliceAdditionalSpecFns};
use vstd::utf8::{is_ascii_chars, is_char_boundary};

verus! {

/// The letter of a file, `a` for file 0 (continuing in the character table for larger values).
pub open spec fn file_letter(square: u8) -> char {
    (97 + square % 8) as char
}

/// The digit of a rank, `1` for rank 0 (continuing in the character table for larger values).
pub open spec fn rank_digit(square: u8) -> char {
    (49 + square / 8) as char
}

/// The algebraic name of a square, such as `e4`.
pub fn square_to_algebraic(square: u8) -> (res: String)
    ensures
        res@ == seq![file_letter(square), rank_digit(square)],
{
    let file = (97u8 + (square % 8)) as char;
    let rank = (49u8 + (square / 8)) as char;
    let mut s = String::new();
    push_char(&mut s, file);
    push_char(&mut s, rank);
    s
}

/// The file index of a file letter `a`..`h`.
#[verifier::allow_in_spec]
pub fn file_index(c: char) -> Option<u8>
    returns
        (match c {
            'a' => Some(0u8),
            'b' => Some(1u8),
            'c' => Some(2u8),
            'd' => Some(3u8),
            'e' => Some(4u8),
            'f' => Some(5u8),
            'g' => Some(6u8),
            'h' => Some(7u8),
            _ => None,
        }),
{
    match c {
        'a' => Some(0),
        'b' => Some(1),
        'c' => Some(2),
        'd' => Some(3),
        'e' => Some(4),
        'f' => Some(5),
        'g' => Some(6),
        'h' => Some(7),
        _ => None,
    }
}

/// The rank index of a rank digit `1`..`8`.
#[verifier::allow_in_spec]
pub fn rank_index(c: char) -> Option<u8>
    returns
        (match c {
            '1' => Some(0u8),
            '2' => Some(1u8),
            '3' => Some(2u8),
            '4' => Some(3u8),
            '5' => Some(4u8),
            '6' => Some(5u8),
            '7' => Some(6u8),
            '8' => Some(7u8),
            _ => None,
        }),
{
    match c {
        '1' => Some(0),
        '2' => Some(1),
        '3' => Some(2),
        '4' => Some(3),
        '5' => Some(4),
        '6' => Some(5),
        '7' => Some(6),
        '8' => Some(7),
        _ => None,
    }
}

/// The square named by a file letter and a rank digit.
pub open spec fn square_named(file: char, rank: char) -> Option<u8> {
    match (file_index(file), rank_index(rank)) {
        (Some(f), Some(r)) => Some((r * 8 + f) as u8),
        _ => None,
    }
}

/// The square that a text starting with an algebraic square name (`e4`) names;
/// characters after the first two are ignored.
pub open spec fn spec_algebraic_to_square(s: Seq<char>) -> Option<u8> {
    if s.len() < 2 {
        None
    } else {
        square_named(s[0], s[1])
    }
}

/// Reads a square from its algebraic name (the first two characters of `s`).
pub fn algebraic_to_square(s: &str) -> (res: Option<u8>)
    ensures
        res == spec_algebraic_to_square(s@),
{
    let n = s.unicode_len();
    if n < 2 {
        return None;
    }
    let file = s.get_char(0);
    let rank = s.get_char(1);
    match (file_index(file), rank_index(rank)) {
        (Some(file_idx), Some(rank_idx)) => Some(rank_idx * 8 + file_idx),
        _ => None,
    }
}

/// The pieces a pawn may promote to.
pub open spec fn is_promotion_piece(p: Piece) -> bool {
    matches!(p, Piece::WQueen | Piece::BQueen | Piece::WRook | Piece::BRook | Piece::WBishop | Piece::BBishop | Piece::WKnight | Piece::BKnight)
}

/// The UCI letter of a promotion piece.
#[verifier::allow_in_spec]
pub fn piece_to_promo_char(piece: Piece) -> char
    requires
        is_promotion_piece(piece),
    returns
        (match piece {
            Piece::WQueen | Piece::BQueen => 'q',
            Piece::WRook | Piece::BRook => 'r',
            Piece::WBishop | Piece::BBishop => 'b',
            _ => 'n',
        }),
{
    match piece {
        Piece::WQueen | Piece::BQueen => 'q',
        Piece::WRook | Piece::BRook => 'r',
        Piece::WBishop | Piece::BBishop => 'b',
        _ => 'n',
    }
}

/// The promotion piece of `color` that a UCI letter stands for.
#[verifier::allow_in_spec]
pub fn promo_char_to_piece(c: char, color: Color) -> Option<Piece>
    returns
        (match (c, color) {
            ('q', Color::White) => Some(Piece::WQueen),
            ('q', Color::Black) => Some(Piece::BQueen),
            ('r', Color::White) => Some(Piece::WRook),
            ('r', Color::Black) => Some(Piece::BRook),
            ('b', Color::White) => Some(Piece::WBishop),
            ('b', Color::Black) => Some(Piece::BBishop),
            ('n', Color::White) => Some(Piece::WKnight),
            ('n', Color::Black) => Some(Piece::BKnight),
            _ => None,
        }),
{
    match (c, color) {
        ('q', Color::White) => Some(Piece::WQueen),
        ('q', Color::Black) => Some(Piece::BQueen),
        ('r', Color::White) => Some(Piece::WRook),
        ('r', Color::Black) => Some(Piece::BRook),
        ('b', Color::White) => Some(Piece::WBishop),
        ('b', Color::Black) => Some(Piece::BBishop),
        ('n', Color::White) => Some(Piece::WKnight),
        ('n', Color::Black) => Some(Piece::BKnight),
        _ => None,
    }
}

/// The move can be written in UCI: a promotion names a promotion piece.
pub open spec fn uci_writable(m: Move) -> bool {
    m.move_type matches MoveType::Promotion(p) ==> is_promotion_piece(p)
}

/// The UCI text of a move: the two squares, then the promotion letter.
pub open spec fn uci_text(m: Move) -> Seq<char> {
    let squares = seq![file_letter(m.from), rank_digit(m.from), file_letter(m.to), rank_digit(m.to)];
    match m.move_type {
        MoveType::Promotion(p) => squares.push(piece_to_promo_char(p)),
        _ => squares,
    }
}

/// Move -> UCI string, e.g. "e2e4", "e1g1", "e7e8q".
/// Castling, en passant and double steps are written as a plain from and to;
/// the move type only matters when reading a UCI move back.
pub fn move_to_uci(mv: &Move) -> (res: String)
    requires
        uci_writable(*mv),
    ensures
        res@ == uci_text(*mv),
{
    let from = square_to_algebraic(mv.from);
    let to = square_to_algebraic(mv.to);
    let mut s = String::new();
    push_char(&mut s, from.as_str().get_char(0));
    push_char(&mut s, from.as_str().get_char(1));
    push_char(&mut s, to.as_str().get_char(0));
    push_char(&mut s, to.as_str().get_char(1));
    if let MoveType::Promotion(piece) = mv.move_type {
        push_char(&mut s, piece_to_promo_char(piece));
    }
    assert(s@ =~= uci_text(*mv));
    s
}

/// `uci_to_move` does not cut a character apart: for a text of four or five
/// bytes, byte 2 starts a character, and byte 4 does too when the first two
/// bytes name a square.
pub open spec fn uci_slices_ok(uci: &str) -> bool {
    let b = uci.spec_bytes();
    (b.len() == 4 || b.len() == 5) ==> (is_char_boundary(b, 2) && ((97 <= b[0] <= 104 && 49
        <= b[1] <= 56) ==> is_char_boundary(b, 4)))
}

/// The move that a UCI text stands for on a position: an ASCII text of four
/// or five characters naming two squares, the first holding a piece, and a
/// promotion letter for that piece's color as the fifth; the move type is
/// read from the board.
pub open spec fn spec_uci_to_move(c: Seq<char>, p: Position) -> Option<Move> {
    if !is_ascii_chars(c) || (c.len() != 4 && c.len() != 5) {
        None
    } else {
        match (square_named(c[0], c[1]), square_named(c[2], c[3])) {
            (Some(from), Some(to)) => {
                let piece = p.pieces[from as int];
                if piece == Piece::Empty {
                    None
                } else {
                    let color = piece.color()->0;
                    if c.len() == 5 && promo_char_to_piece(c[4], color) is None {
                        None
                    } else {
                        let from_file = from % 8;
                        let to_file = to % 8;
                        let from_rank = from / 8;
                        let to_rank = to / 8;
                        let is_king = piece == Piece::WKing || piece == Piece::BKing;
                        let is_pawn = piece == Piece::WPawn || piece == Piece::BPawn;
                        let move_type = if c.len() == 5 {
                            MoveType::Promotion(promo_char_to_piece(c[4], color)->0)
                        } else if is_king && (to_file == from_file + 2 || from_file == to_file + 2) {
                            if to_file > from_file {
                                MoveType::CastleKingside
                            } else {
                                MoveType::CastleQueenside
                            }
                        } else if is_pawn && from_file != to_file && p.pieces[to as int] == Piece::Empty {
                            MoveType::EnPassant
                        } else if is_pawn && (to_rank == from_rank + 2 || from_rank == to_rank + 2) {
                            MoveType::PawnDoubleStep
                        } else {
                            MoveType::Normal
                        };
                        Some(Move { from, to, move_type })
                    }
                }
            },
            _ => None,
        }
    }
}

/// UCI string -> Move, using the board (before the move is applied) to
/// figure out which move type this actually is.
pub fn uci_to_move(uci: &str, board: &Board) -> (res: Option<Move>)
    requires
        uci_slices_ok(uci),
    ensures
        res == spec_uci_to_move(uci@, board.pos()),
{
    let byte_len = uci.as_bytes().len();
    if byte_len != 4 && byte_len != 5 {
        proof {
            is_ascii_spec_bytes(uci);
        }
        return None;
    }
    if !uci.is_ascii() {
        return None;
    }
    proof {
        is_ascii_spec_bytes(uci);
    }
    let from = match square_named_exec(uci.get_char(0), uci.get_char(1)) {
        Some(sq) => sq,
        None => return None,
    };
    let to = match square_named_exec(uci.get_char(2), uci.get_char(3)) {
        Some(sq) => sq,
        None => return None,
    };
    let piece = board.pieces[from as usize];
    if piece == Piece::Empty {
        return None;
    }
    let color = match piece.color() {
        Some(c) => c,
        None => return None,
    };
    let promotion = if byte_len == 5 {
        match promo_char_to_piece(uci.get_char(4), color) {
            Some(p) => Some(p),
            None => return None,
        }
    } else {
        None
    };
    let from_file = from % 8;
    let to_file = to % 8;
    let from_rank = from / 8;
    let to_rank = to / 8;
    let is_king = piece == Piece::WKing || piece == Piece::BKing;
    let is_pawn = piece == Piece::WPawn || piece == Piece::BPawn;
    let move_type = if let Some(promo_piece) = promotion {
        MoveType::Promotion(promo_piece)
    } else if is_king && (to_file == from_file + 2 || from_file == to_file + 2) {
        if to_file > from_file {
            MoveType::CastleKingside
        } else {
            MoveType::CastleQueenside
        }
    } else if is_pawn && from_file != to_file && board.pieces[to as usize] == Piece::Empty {
        // a diagonal pawn move onto an empty square is an en-passant capture
        MoveType::EnPassant
    } else if is_pawn && (to_rank == from_rank + 2 || from_rank == to_rank + 2) {
        MoveType::PawnDoubleStep
    } else {
        MoveType::Normal
    };
    Some(Move { from, to, move_type })
}

fn square_named_exec(file: char, rank: char) -> (res: Option<u8>)
    ensures
        res == square_named(file, rank),
{
    match (file_index(file), rank_index(rank)) {
        (Some(f), Some(r)) => Some(r * 8 + f),
        _ => None,
    }
}

} // verus!
