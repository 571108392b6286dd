use vstd::prelude::*;

use crate::moves::{Move, MoveType};
use crate::piece::{Color, Piece};
use crate::position_key::{position_hash, zobrist_hash, PositionKey};
use crate::undo::Undo;

verus! {

/// A chess position together with the hashes of the positions that led to it.
/// `pieces[i]` is the content of square `i` (0 = a1, 63 = h8).
#[derive(Clone)]
pub struct Board {
    pub pieces: [Piece; 64],
    pub en_passant_target_square: Option<u8>,
    pub side_to_move: Color,
    pub white_queen_castling_possible: bool,
    pub white_king_castling_possible: bool,
    pub black_queen_castling_possible: bool,
    pub black_king_castling_possible: bool,
    pub position_history_hashed: Vec<u64>,
}

/// The mathematical model of a position: everything of a `Board` but its history.
#[verifier::ext_equal]
pub struct Position {
    pub pieces: Seq<Piece>,
    pub en_passant: Option<u8>,
    pub side: Color,
    pub white_queen: bool,
    pub white_king: bool,
    pub black_queen: bool,
    pub black_king: bool,
}

impl Board {
    /// The position that the board holds.
    pub open spec fn pos(&self) -> Position {
        Position {
            pieces: self.pieces@,
            en_passant: self.en_passant_target_square,
            side: self.side_to_move,
            white_queen: self.white_queen_castling_possible,
            white_king: self.white_king_castling_possible,
            black_queen: self.black_queen_castling_possible,
            black_king: self.black_king_castling_possible,
        }
    }
}

/// The square of the pawn that an en-passant capture onto `to` removes (and,
/// after a double step to `to`, the square that was jumped over).
pub open spec fn behind(side: Color, to: u8) -> int {
    match side {
        Color::White => to - 8,
        Color::Black => to + 8,
    }
}

/// The squares a move reads and writes lie on the board (for `make_move`).
pub open spec fn make_bounds(side: Color, m: Move) -> bool {
    &&& m.from < 64
    &&& m.to < 64
    &&& match m.move_type {
        MoveType::CastleKingside => m.to + 1 < 64 && m.from + 1 < 64,
        MoveType::CastleQueenside => m.from >= 4,
        MoveType::EnPassant => match side {
            Color::White => m.to >= 8,
            Color::Black => m.to + 8 < 64,
        },
        MoveType::PawnDoubleStep => match side {
            Color::White => m.to >= 8,
            Color::Black => true,
        },
        _ => true,
    }
}

/// The squares a move reads and writes lie on the board (for `unmake_move`,
/// `side` being the side that made the move).
pub open spec fn unmake_bounds(side: Color, m: Move) -> bool {
    &&& m.from < 64
    &&& m.to < 64
    &&& match m.move_type {
        MoveType::CastleKingside => m.to + 1 < 64 && m.from + 1 < 64,
        MoveType::CastleQueenside => m.from >= 4,
        MoveType::EnPassant => match side {
            Color::White => m.to >= 8,
            Color::Black => m.to + 8 < 64,
        },
        _ => true,
    }
}

/// The piece that a move takes off the board (`Empty` when it captures nothing).
pub open spec fn captured_piece(p: Position, m: Move) -> Piece {
    match m.move_type {
        MoveType::EnPassant => p.pieces[behind(p.side, m.to)],
        _ => p.pieces[m.to as int],
    }
}

/// The placement after a move.
pub open spec fn relocated_pieces(p: Position, m: Move) -> Seq<Piece> {
    let s = p.pieces;
    let from = m.from as int;
    let to = m.to as int;
    let piece = s[from];
    match m.move_type {
        MoveType::Normal | MoveType::PawnDoubleStep => s.update(to, piece).update(from, Piece::Empty),
        MoveType::CastleKingside => {
            let s1 = s.update(to, piece).update(from, Piece::Empty);
            s1.update(from + 1, s1[to + 1]).update(to + 1, Piece::Empty)
        },
        MoveType::CastleQueenside => {
            let s1 = s.update(to, piece).update(from, Piece::Empty);
            s1.update(from - 1, s1[from - 4]).update(from - 4, Piece::Empty)
        },
        MoveType::Promotion(promoted) => s.update(to, promoted).update(from, Piece::Empty),
        MoveType::EnPassant => s.update(to, piece).update(from, Piece::Empty).update(
            behind(p.side, m.to),
            Piece::Empty,
        ),
    }
}

/// The position after a move, before the turn passes to the other side: the
/// pieces have moved, the en-passant square is set by a double step and cleared
/// otherwise, and castling rights are lost when a corner square is left or
/// entered or a king lands on the target square.
pub open spec fn moved_position(p: Position, m: Move) -> Position {
    let s = relocated_pieces(p, m);
    let landed = s[m.to as int];
    Position {
        pieces: s,
        en_passant: if m.move_type == MoveType::PawnDoubleStep {
            Some(behind(p.side, m.to) as u8)
        } else {
            None
        },
        side: p.side,
        white_queen: p.white_queen && m.from != 0 && m.to != 0 && landed != Piece::WKing,
        white_king: p.white_king && m.from != 7 && m.to != 7 && landed != Piece::WKing,
        black_queen: p.black_queen && m.from != 56 && m.to != 56 && landed != Piece::BKing,
        black_king: p.black_king && m.from != 63 && m.to != 63 && landed != Piece::BKing,
    }
}

/// The position after a move: the moved position with the other side to move.
pub open spec fn apply_move(p: Position, m: Move) -> Position {
    let q = moved_position(p, m);
    Position {
        pieces: q.pieces,
        en_passant: q.en_passant,
        side: p.side.invert(),
        white_queen: q.white_queen,
        white_king: q.white_king,
        black_queen: q.black_queen,
        black_king: q.black_king,
    }
}

/// The record that `make_move` hands back for a move made in `p`.
pub open spec fn undo_for(p: Position, m: Move) -> Undo {
    Undo {
        captured_piece: captured_piece(p, m),
        old_en_passant_target_square: p.en_passant,
        old_white_queen_castling_possible: p.white_queen,
        old_white_king_castling_possible: p.white_king,
        old_black_king_castling_possible: p.black_king,
        old_black_queen_castling_possible: p.black_queen,
    }
}

/// The position that `unmake_move` leaves when it takes back `m` from `q`
/// with the record `u`.
pub open spec fn retracted_position(q: Position, m: Move, u: Undo) -> Position {
    let side = q.side.invert();
    let s = q.pieces;
    let from = m.from as int;
    let to = m.to as int;
    Position {
        pieces: match m.move_type {
            MoveType::Normal => s.update(from, s[to]).update(to, u.captured_piece),
            MoveType::PawnDoubleStep => s.update(from, s[to]).update(to, Piece::Empty),
            MoveType::Promotion(_) => s.update(from, side.pawn()).update(to, u.captured_piece),
            MoveType::EnPassant => s.update(from, s[to]).update(to, Piece::Empty).update(
                behind(side, m.to),
                side.invert().pawn(),
            ),
            MoveType::CastleKingside => {
                let s1 = s.update(from, s[to]).update(to, Piece::Empty);
                s1.update(to + 1, s1[from + 1]).update(from + 1, Piece::Empty)
            },
            MoveType::CastleQueenside => {
                let s1 = s.update(from, s[to]).update(to, Piece::Empty);
                s1.update(from - 4, s1[from - 1]).update(from - 1, Piece::Empty)
            },
        },
        en_passant: u.old_en_passant_target_square,
        side,
        white_queen: u.old_white_queen_castling_possible,
        white_king: u.old_white_king_castling_possible,
        black_queen: u.old_black_queen_castling_possible,
        black_king: u.old_black_king_castling_possible,
    }
}

/// `unmake_move` can take back `m` from `q`: the squares lie on the board, and
/// a double step is taken back only when a pawn of the mover stands on its
/// target square.
pub open spec fn can_unmake(q: Position, m: Move) -> bool {
    &&& unmake_bounds(q.side.invert(), m)
    &&& (m.move_type == MoveType::PawnDoubleStep ==> q.pieces[m.to as int] == q.side.invert().pawn())
}

/// The squares that making `m` with `side` to move reads and writes lie on the board.
pub fn move_in_bounds(side: Color, m: &Move) -> (res: bool)
    ensures
        res == make_bounds(side, *m),
{
    if !(m.from < 64 && m.to < 64) {
        return false;
    }
    match m.move_type {
        MoveType::CastleKingside => m.to < 63 && m.from < 63,
        MoveType::CastleQueenside => m.from >= 4,
        MoveType::EnPassant => match side {
            Color::White => m.to >= 8,
            Color::Black => m.to < 56,
        },
        MoveType::PawnDoubleStep => match side {
            Color::White => m.to >= 8,
            Color::Black => true,
        },
        _ => true,
    }
}

impl Board {
    /// Makes a move: moves the pieces, updates the en-passant square and the
    /// castling rights, records the hash of the new placement (with the mover
    /// still to move) in the history, and passes the turn. Returns what
    /// `unmake_move` needs to take the move back.
    pub fn make_move(&mut self, m: &Move) -> (undo: Undo)
        requires
            make_bounds(old(self).side_to_move, *m),
        ensures
            final(self).pos() == apply_move(old(self).pos(), *m),
            undo == undo_for(old(self).pos(), *m),
            final(self).position_history_hashed@ == old(
                self,
            ).position_history_hashed@.push(position_hash(moved_position(old(self).pos(), *m))),
    {
        let ghost p = self.pos();
        let captured_piece = match m.move_type {
            MoveType::EnPassant => {
                match self.side_to_move {
                    Color::White => self.pieces[(m.to - 8) as usize],
                    Color::Black => self.pieces[(m.to + 8) as usize],
                }
            },
            _ => self.pieces[m.to as usize],
        };
        let undo = Undo {
            captured_piece: captured_piece,
            old_black_king_castling_possible: self.black_king_castling_possible,
            old_black_queen_castling_possible: self.black_queen_castling_possible,
            old_white_king_castling_possible: self.white_king_castling_possible,
            old_white_queen_castling_possible: self.white_queen_castling_possible,
            old_en_passant_target_square: self.en_passant_target_square,
        };

        let piece = self.pieces[m.from as usize];
        let from = m.from as usize;
        let to = m.to as usize;
        match m.move_type {
            MoveType::Normal => {
                self.pieces[to] = piece;
                self.pieces[from] = Piece::Empty;
            },
            MoveType::PawnDoubleStep => {
                self.pieces[to] = piece;
                self.pieces[from] = Piece::Empty;
                match self.side_to_move {
                    Color::White => self.en_passant_target_square = Some((to - 8) as u8),
                    Color::Black => self.en_passant_target_square = Some((to + 8) as u8),
                }
            },
            MoveType::CastleKingside => {
                self.pieces[to] = piece;
                self.pieces[from] = Piece::Empty;
                let rook = self.pieces[to + 1];
                self.pieces[from + 1] = rook;
                self.pieces[to + 1] = Piece::Empty;
            },
            MoveType::CastleQueenside => {
                self.pieces[to] = piece;
                self.pieces[from] = Piece::Empty;
                let rook = self.pieces[from - 4];
                self.pieces[from - 1] = rook;
                self.pieces[from - 4] = Piece::Empty;
            },
            MoveType::Promotion(promotion_piece) => {
                self.pieces[to] = promotion_piece;
                self.pieces[from] = Piece::Empty;
            },
            MoveType::EnPassant => {
                let mover = self.pieces[from];
                self.pieces[to] = mover;
                self.pieces[from] = Piece::Empty;
                match self.side_to_move {
                    Color::White => self.pieces[to - 8] = Piece::Empty,
                    Color::Black => self.pieces[to + 8] = Piece::Empty,
                }
            },
        }
        if m.move_type != MoveType::PawnDoubleStep {
            self.en_passant_target_square = None;
        }
        assert(self.pieces@ =~= relocated_pieces(p, *m));
        self.set_castling_rights(m);
        assert(self.pos() =~= moved_position(p, *m));
        self.add_current_position_to_history();
        self.side_to_move = self.side_to_move.invert();
        assert(self.pos() =~= apply_move(p, *m));
        undo
    }

    /// Takes back a move made with `make_move`, using the record it returned.
    /// The position history is left as it is.
    pub fn unmake_move(&mut self, m: &Move, undo: Undo)
        requires
            can_unmake(old(self).pos(), *m),
        ensures
            final(self).pos() == retracted_position(old(self).pos(), *m, undo),
            final(self).position_history_hashed@ == old(self).position_history_hashed@,
    {
        let ghost q = self.pos();
        self.black_king_castling_possible = undo.old_black_king_castling_possible;
        self.black_queen_castling_possible = undo.old_black_queen_castling_possible;
        self.white_king_castling_possible = undo.old_white_king_castling_possible;
        self.white_queen_castling_possible = undo.old_white_queen_castling_possible;
        self.en_passant_target_square = undo.old_en_passant_target_square;
        self.side_to_move = self.side_to_move.invert();
        let from = m.from as usize;
        let to = m.to as usize;
        match m.move_type {
            MoveType::Normal => {
                let moved = self.pieces[to];
                self.pieces[from] = moved;
                self.pieces[to] = undo.captured_piece;
            },
            MoveType::PawnDoubleStep => {
                let moved = self.pieces[to];
                self.pieces[from] = moved;
                self.pieces[to] = Piece::Empty;
            },
            MoveType::Promotion(_) => {
                self.pieces[from] = self.side_to_move.pawn();
                self.pieces[to] = undo.captured_piece;
            },
            MoveType::EnPassant => {
                let moved = self.pieces[to];
                self.pieces[from] = moved;
                self.pieces[to] = Piece::Empty;
                match self.side_to_move {
                    Color::White => self.pieces[to - 8] = Color::Black.pawn(),
                    Color::Black => self.pieces[to + 8] = Color::White.pawn(),
                }
            },
            MoveType::CastleKingside => {
                let moved = self.pieces[to];
                self.pieces[from] = moved;
                self.pieces[to] = Piece::Empty;
                let rook = self.pieces[from + 1];
                self.pieces[to + 1] = rook;
                self.pieces[from + 1] = Piece::Empty;
            },
            MoveType::CastleQueenside => {
                let moved = self.pieces[to];
                self.pieces[from] = moved;
                self.pieces[to] = Piece::Empty;
                let rook = self.pieces[from - 1];
                self.pieces[from - 4] = rook;
                self.pieces[from - 1] = Piece::Empty;
            },
        }
        assert(self.pos() =~= retracted_position(q, *m, undo));
    }

    /// Clears the castling rights that a move ends: moving from or to a corner
    /// square, or a king arriving on the move's target square.
    fn set_castling_rights(&mut self, m: &Move)
        requires
            m.to < 64,
        ensures
            final(self).pieces == old(self).pieces,
            final(self).en_passant_target_square == old(self).en_passant_target_square,
            final(self).side_to_move == old(self).side_to_move,
            final(self).position_history_hashed == old(self).position_history_hashed,
            final(self).white_queen_castling_possible == (old(self).white_queen_castling_possible
                && m.from != 0 && m.to != 0 && old(self).pieces@[m.to as int] != Piece::WKing),
            final(self).white_king_castling_possible == (old(self).white_king_castling_possible
                && m.from != 7 && m.to != 7 && old(self).pieces@[m.to as int] != Piece::WKing),
            final(self).black_queen_castling_possible == (old(self).black_queen_castling_possible
                && m.from != 56 && m.to != 56 && old(self).pieces@[m.to as int] != Piece::BKing),
            final(self).black_king_castling_possible == (old(self).black_king_castling_possible
                && m.from != 63 && m.to != 63 && old(self).pieces@[m.to as int] != Piece::BKing),
    {
        match m.from {
            0 => self.white_queen_castling_possible = false,
            7 => self.white_king_castling_possible = false,
            56 => self.black_queen_castling_possible = false,
            63 => self.black_king_castling_possible = false,
            _ => {},
        }
        match m.to {
            0 => self.white_queen_castling_possible = false,
            7 => self.white_king_castling_possible = false,
            56 => self.black_queen_castling_possible = false,
            63 => self.black_king_castling_possible = false,
            _ => {},
        }
        match self.pieces[m.to as usize] {
            Piece::WKing => {
                self.white_king_castling_possible = false;
                self.white_queen_castling_possible = false;
            },
            Piece::BKing => {
                self.black_king_castling_possible = false;
                self.black_queen_castling_possible = false;
            },
            _ => {},
        }
    }

    /// Appends the hash of the current position to the position history.
    pub fn add_current_position_to_history(&mut self)
        ensures
            final(self).pos() == old(self).pos(),
            final(self).position_history_hashed@ == old(self).position_history_hashed@.push(
                position_hash(old(self).pos()),
            ),
    {
        let key = PositionKey::from_board(self);
        let h = zobrist_hash(&key);
        self.position_history_hashed.push(h);
    }
}

} // verus!
