use vstd::prelude::*;

use crate::attack_laws::{all_captures_attacked, capture_attacked, lemma_pseudo_captures_attacked};
use crate::board::{apply_move, behind, relocated_pieces, Position};
use crate::generation_laws::{
    en_passant_backed, lemma_backed_moves_undone, lemma_king_survives, lemma_legal_facts,
    lemma_move_keeps_king,
};
use crate::laws::{lemma_legal_moves_are_safe, move_is_undone};
use crate::move_facts::move_facts;
use crate::fen::start_position;
use crate::movegen::{
    attacked, first_piece, has_king, in_check, is_first_index, king_offset, king_square,
    knight_offset, legal_moves, lemma_first_index_unique, piece_at_offset, pseudo_moves,
    slide_direction, slider_hits,
};
use crate::moves::{Move, MoveType};
use crate::perft::perft_safe;
use crate::piece::{Color, Piece};

verus! {

/// A sound position: sixty-four squares, a king of each side, the side that
/// is not to move not in check, and the en-passant square, if any, backed by
/// the pawn that jumped over it. The initial position is sound, and legal
/// moves lead from sound positions to sound positions.
pub open spec fn sound_position(p: Position) -> bool {
    &&& p.pieces.len() == 64
    &&& has_king(p.pieces, p.side)
    &&& has_king(p.pieces, p.side.invert())
    &&& !in_check(p, p.side.invert())
    &&& en_passant_backed(p)
}

proof fn lemma_first_index_exists(pieces: Seq<Piece>, piece: Piece, i: int)
    requires
        0 <= i < pieces.len(),
        pieces[i] == piece,
    ensures
        exists|j: int| is_first_index(pieces, piece, j),
    decreases i,
{
    if exists|j: int| 0 <= j < i && pieces[j] == piece {
        let j = choose|j: int| 0 <= j < i && pieces[j] == piece;
        lemma_first_index_exists(pieces, piece, j);
    } else {
        assert(is_first_index(pieces, piece, i));
    }
}

/// The first king of `color` stands on `king_square`.
proof fn lemma_king_square(pieces: Seq<Piece>, color: Color)
    requires
        has_king(pieces, color),
    ensures
        is_first_index(pieces, color.king(), king_square(pieces, color)),
{
    let i = choose|i: int| 0 <= i < pieces.len() && pieces[i] == color.king();
    lemma_first_index_exists(pieces, color.king(), i);
}

/// A move that captures only on attacked squares keeps a king of the side
/// that is not to move on the board, when that side is not in check.
proof fn lemma_move_keeps_other_king(p: Position, m: Move)
    requires
        sound_position(p),
        move_facts(p, m),
        capture_attacked(p, m),
    ensures
        has_king(apply_move(p, m).pieces, p.side.invert()),
{
    let other = p.side.invert();
    let king = other.king();
    lemma_king_square(p.pieces, other);
    let k = king_square(p.pieces, other);
    assert(other.invert() == p.side);
    let s = relocated_pieces(p, m);
    let from = m.from as int;
    let to = m.to as int;
    assert(s.len() == 64);
    match m.move_type {
        MoveType::CastleKingside => {
            if k == from {
                assert(s[to] == king);
            } else if k == to + 1 {
                assert(s[from + 1] == king);
            } else {
                assert(s[k] == king);
            }
        },
        MoveType::CastleQueenside => {
            if k == from {
                assert(s[to] == king);
            } else if k == from - 4 {
                assert(s[from - 1] == king);
            } else {
                assert(s[k] == king);
            }
        },
        MoveType::EnPassant => {
            assert(s[k] == king);
        },
        _ => {
            if k == to {
                assert(k as u8 == m.to);
                assert(false);
            }
            assert(s[k] == king);
        },
    }
}

/// Every legal move leads from a sound position to a sound position.
pub proof fn lemma_legal_move_keeps_sound(p: Position, i: int)
    requires
        sound_position(p),
        0 <= i < legal_moves(p).len(),
    ensures
        sound_position(apply_move(p, legal_moves(p)[i])),
{
    let m = legal_moves(p)[i];
    let q = apply_move(p, m);
    lemma_legal_facts(p);
    assert(move_facts(p, m));
    lemma_legal_moves_are_safe(p);
    lemma_pseudo_captures_attacked(p, 64);
    assert(all_captures_attacked(p, pseudo_moves(p)));
    let j = choose|j: int| 0 <= j < pseudo_moves(p).len() && pseudo_moves(p)[j] == m;
    assert(capture_attacked(p, pseudo_moves(p)[j]));
    lemma_move_keeps_other_king(p, m);
    let k = choose|k: int| 0 <= k < p.pieces.len() && p.pieces[k] == p.side.king();
    lemma_move_keeps_king(p, m, k);
    assert(q.side.invert() == p.side);
    assert(q.pieces.len() == 64);
    if m.move_type == MoveType::PawnDoubleStep {
        let t = behind(p.side, m.to);
        assert(q.en_passant == Some(t as u8));
        assert(q.pieces[t] == Piece::Empty);
        assert(behind(q.side, t as u8) == m.to as int);
    }
}

/// From a sound position, counting moves to any depth never fails: `perft`
/// can be called on it.
pub proof fn lemma_sound_perft_safe(p: Position, depth: nat)
    requires
        sound_position(p),
    ensures
        perft_safe(p, depth),
    decreases depth,
{
    if depth > 0 {
        lemma_king_survives(p);
        lemma_backed_moves_undone(p);
        assert forall|i: int| 0 <= i < legal_moves(p).len() implies move_is_undone(p, #[trigger] legal_moves(p)[i])
            && perft_safe(apply_move(p, legal_moves(p)[i]), (depth - 1) as nat) by {
            lemma_legal_move_keeps_sound(p, i);
            lemma_sound_perft_safe(apply_move(p, legal_moves(p)[i]), (depth - 1) as nat);
        }
    }
}

/// In the initial position no white piece attacks the black king's square.
proof fn lemma_start_king_safe()
    ensures
        !attacked(start_position(), 60, Color::White),
{
    let p = start_position();
    assert(p.pieces[51] == Piece::BPawn && p.pieces[53] == Piece::BPawn);
    assert(p.pieces[52] == Piece::BPawn && p.pieces[59] == Piece::BQueen);
    assert(p.pieces[61] == Piece::BBishop && p.pieces[54] == Piece::BPawn);
    assert(p.pieces[50] == Piece::BPawn && p.pieces[45] == Piece::Empty);
    assert(p.pieces[43] == Piece::Empty);
    assert forall|k: usize| 0 <= k < 8 implies !piece_at_offset(
        p,
        60,
        knight_offset(k).0 as int,
        knight_offset(k).1 as int,
        Color::White.knight(),
    ) by {}
    assert forall|k: usize| 0 <= k < 8 implies !piece_at_offset(
        p,
        60,
        king_offset(k).0 as int,
        king_offset(k).1 as int,
        Color::White.king(),
    ) by {}
    assert forall|k: usize, rook: bool| 0 <= k < 4 implies !slider_hits(
        p,
        60,
        slide_direction(rook, k).0 as int,
        slide_direction(rook, k).1 as int,
        Color::White,
        rook,
    ) by {
        let d = slide_direction(rook, k);
        assert(first_piece(p, 60, d.0 as int, d.1 as int, 7).color() != Some(Color::White));
    }
}

/// The initial position is sound, so counting moves from it never fails.
pub proof fn lemma_start_position_sound()
    ensures
        sound_position(start_position()),
{
    let p = start_position();
    assert(p.pieces[4] == Piece::WKing && p.pieces[60] == Piece::BKing);
    assert(is_first_index(p.pieces, Piece::BKing, 60));
    lemma_king_square(p.pieces, Color::Black);
    lemma_first_index_unique(p.pieces, Piece::BKing, 60, king_square(p.pieces, Color::Black));
    lemma_start_king_safe();
}

/// Counting moves from the initial position never fails, at any depth.
pub proof fn lemma_start_perft_safe(depth: nat)
    ensures
        perft_safe(start_position(), depth),
{
    lemma_start_position_sound();
    lemma_sound_perft_safe(start_position(), depth);
}

} // verus!
