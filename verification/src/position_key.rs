use vstd::prelude::*;

use crate::board::{Board, Position};
use crate::piece::{Color, Piece};

verus! {

/// The part of a position that decides whether two positions repeat:
/// placement, side to move and castling rights.
#[derive(Clone, Copy, PartialEq, Eq, Debug, Hash)]
pub struct PositionKey {
    pub pieces: [Piece; 64],
    pub side_to_move: Color,
    pub white_king_castling: bool,
    pub white_queen_castling: bool,
    pub black_king_castling: bool,
    pub black_queen_castling: bool,
}

/// A xorshift scramble of a 64-bit word.
pub open spec fn scramble(x: u64) -> u64 {
    let a = x ^ (x << 13u64);
    let b = a ^ (a >> 7u64);
    b ^ (b << 17u64)
}

/// The pseudo-random 64-bit key number `n` of the Zobrist table.
pub open spec fn zobrist_key(n: u64) -> u64 {
    scramble(scramble(((n + 1) * 0x2545_F491_4F6Du64) as u64))
}

/// Index of a piece kind among the 13 square contents.
#[verifier::allow_in_spec]
pub fn piece_code(p: Piece) -> u64
    returns
        (match p {
            Piece::Empty => 0u64,
            Piece::WKing => 1u64,
            Piece::WQueen => 2u64,
            Piece::WBishop => 3u64,
            Piece::WKnight => 4u64,
            Piece::WRook => 5u64,
            Piece::WPawn => 6u64,
            Piece::BKing => 7u64,
            Piece::BQueen => 8u64,
            Piece::BBishop => 9u64,
            Piece::BKnight => 10u64,
            Piece::BRook => 11u64,
            Piece::BPawn => 12u64,
        }),
{
    match p {
        Piece::Empty => 0,
        Piece::WKing => 1,
        Piece::WQueen => 2,
        Piece::WBishop => 3,
        Piece::WKnight => 4,
        Piece::WRook => 5,
        Piece::WPawn => 6,
        Piece::BKing => 7,
        Piece::BQueen => 8,
        Piece::BBishop => 9,
        Piece::BKnight => 10,
        Piece::BRook => 11,
        Piece::BPawn => 12,
    }
}

/// The key of a piece standing on a square (0 for an empty square).
pub open spec fn square_key(square: int, p: Piece) -> u64 {
    if p == Piece::Empty {
        0u64
    } else {
        zobrist_key((square * 13 + piece_code(p)) as u64)
    }
}

/// XOR of the keys of the first `n` squares.
pub open spec fn placement_hash(pieces: Seq<Piece>, n: nat) -> u64
    decreases n,
{
    if n == 0 {
        0u64
    } else {
        placement_hash(pieces, (n - 1) as nat) ^ square_key(n - 1, pieces[n - 1])
    }
}

/// The Zobrist hash of a placement, side to move and castling rights.
pub open spec fn key_hash(
    pieces: Seq<Piece>,
    side: Color,
    white_king: bool,
    white_queen: bool,
    black_king: bool,
    black_queen: bool,
) -> u64 {
    placement_hash(pieces, 64) ^ (if side == Color::Black { zobrist_key(832) } else { 0u64 }) ^ (
    if white_king { zobrist_key(833) } else { 0u64 }) ^ (if white_queen { zobrist_key(834) } else {
        0u64
    }) ^ (if black_king { zobrist_key(835) } else { 0u64 }) ^ (if black_queen {
        zobrist_key(836)
    } else {
        0u64
    })
}

/// The hash under which a position enters the position history.
pub open spec fn position_hash(p: Position) -> u64 {
    key_hash(p.pieces, p.side, p.white_king, p.white_queen, p.black_king, p.black_queen)
}

fn scramble_exec(x: u64) -> (r: u64)
    ensures
        r == scramble(x),
{
    let a = x ^ (x << 13u64);
    let b = a ^ (a >> 7u64);
    b ^ (b << 17u64)
}

fn zobrist_key_exec(n: u64) -> (r: u64)
    requires
        n < 1000,
    ensures
        r == zobrist_key(n),
{
    scramble_exec(scramble_exec((n + 1) * 0x2545_F491_4F6Du64))
}

impl PositionKey {
    /// The key of a board's current position.
    pub fn from_board(board: &Board) -> (key: PositionKey)
        ensures
            key.pieces@ == board.pieces@,
            key.side_to_move == board.side_to_move,
            key.white_king_castling == board.white_king_castling_possible,
            key.white_queen_castling == board.white_queen_castling_possible,
            key.black_king_castling == board.black_king_castling_possible,
            key.black_queen_castling == board.black_queen_castling_possible,
    {
        PositionKey {
            pieces: board.pieces,
            side_to_move: board.side_to_move,
            white_king_castling: board.white_king_castling_possible,
            white_queen_castling: board.white_queen_castling_possible,
            black_king_castling: board.black_king_castling_possible,
            black_queen_castling: board.black_queen_castling_possible,
        }
    }
}

/// The Zobrist hash of a position key.
pub fn zobrist_hash(key: &PositionKey) -> (h: u64)
    ensures
        h == key_hash(
            key.pieces@,
            key.side_to_move,
            key.white_king_castling,
            key.white_queen_castling,
            key.black_king_castling,
            key.black_queen_castling,
        ),
{
    let mut h: u64 = 0;
    let mut i: usize = 0;
    while i < 64
        invariant
            0 <= i <= 64,
            h == placement_hash(key.pieces@, i as nat),
        decreases 64 - i,
    {
        let p = key.pieces[i];
        let k: u64 = if p != Piece::Empty {
            zobrist_key_exec(i as u64 * 13 + piece_code(p))
        } else {
            0
        };
        assert(k == square_key(i as int, key.pieces@[i as int]));
        h = h ^ k;
        i = i + 1;
    }
    let side_key: u64 = if key.side_to_move == Color::Black {
        zobrist_key_exec(832)
    } else {
        0
    };
    let wk: u64 = if key.white_king_castling {
        zobrist_key_exec(833)
    } else {
        0
    };
    let wq: u64 = if key.white_queen_castling {
        zobrist_key_exec(834)
    } else {
        0
    };
    let bk: u64 = if key.black_king_castling {
        zobrist_key_exec(835)
    } else {
        0
    };
    let bq: u64 = if key.black_queen_castling {
        zobrist_key_exec(836)
    } else {
        0
    };
    h = h ^ side_key ^ wk ^ wq ^ bk ^ bq;
    h
}

} // verus!
