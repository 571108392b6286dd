use vstd::prelude::*;

use crate::piece::Piece;

verus! {

/// What kind of move a `Move` is; it decides how the board changes.
#[derive(Clone, Copy, PartialEq, Eq, Structural, Debug, Hash)]
pub enum MoveType {
    Normal,
    CastleKingside,
    CastleQueenside,
    EnPassant,
    Promotion(Piece),
    PawnDoubleStep,
}

/// A move from one square to another. Squares are numbered 0 (a1) to 63 (h8),
/// rank by rank.
#[derive(Clone, Copy, PartialEq, Eq, Structural, Debug, Hash)]
pub struct Move {
    pub from: u8,
    pub to: u8,
    pub move_type: MoveType,
}

/// The rank (row, 0 for rank 1) of a square index.
#[verifier::allow_in_spec]
pub fn get_rank(index: u8) -> u8
    returns
        index / 8,
{
    index / 8
}

/// The file (column, 0 for file a) of a square index.
#[verifier::allow_in_spec]
pub fn get_file(index: u8) -> u8
    returns
        index % 8,
{
    index % 8
}

/// The square reached from `square` by moving `file_offset` files and
/// `rank_offset` ranks, when it lies on the board.
pub open spec fn square_offset(square: u8, file_offset: int, rank_offset: int) -> Option<u8> {
    let file = square % 8 + file_offset;
    let rank = square / 8 + rank_offset;
    if 0 <= file < 8 && 0 <= rank < 8 {
        Some((rank * 8 + file) as u8)
    } else {
        None
    }
}

/// Offsets a square by a number of files and ranks; `None` when the result
/// leaves the board.
pub fn offset_square(square: u8, file_offset: i8, rank_offset: i8) -> (res: Option<u8>)
    requires
        -128 <= square % 8 + file_offset <= 127,
        -128 <= square / 8 + rank_offset <= 127,
    ensures
        res == square_offset(square, file_offset as int, rank_offset as int),
{
    let file = get_file(square) as i8 + file_offset;
    let rank = get_rank(square) as i8 + rank_offset;
    if 0 <= file && file < 8 && 0 <= rank && rank < 8 {
        Some((rank * 8 + file) as u8)
    } else {
        None
    }
}

} // verus!
