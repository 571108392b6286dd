use vstd::prelude::*;

use crate::piece::Piece;

verus! {

/// What `Board::make_move` returns so that `Board::unmake_move` can take the
/// move back: the piece that was captured and the state that the move may
/// have changed. The rest is read from the move itself.
#[derive(Clone, Copy, PartialEq, Eq, Structural, Debug)]
pub struct Undo {
    pub captured_piece: Piece,
    pub old_en_passant_target_square: Option<u8>,
    pub old_white_queen_castling_possible: bool,
    pub old_white_king_castling_possible: bool,
    pub old_black_king_castling_possible: bool,
    pub old_black_queen_castling_possible: bool,
}

} // verus!
