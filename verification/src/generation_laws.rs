use vstd::prelude::*;

use crate::board::{apply_move, behind, relocated_pieces, Position};
use crate::laws::{lemma_legal_moves_are_safe, lemma_square_name_round_trip, lemma_unmake_undoes_make, move_is_undone, reversible};
use crate::move_facts::{all_facts, lemma_pseudo_moves_facts, move_facts};
use crate::movegen::{has_king, king_survives_moves, legal_moves, pseudo_moves};
use crate::moves::{Move, MoveType};
use crate::piece::Piece;
use crate::translate_move_uci::{
    piece_to_promo_char, promo_char_to_piece, spec_uci_to_move, uci_text, uci_writable,
};
use vstd::utf8::is_ascii_chars;

verus! {

/// The en-passant square, when there is one, lies on the board, is empty,
/// and has a pawn of the side not to move behind it (the pawn that jumped
/// over it).
pub open spec fn en_passant_backed(p: Position) -> bool {
    p.en_passant matches Some(t) ==> {
        &&& t < 64
        &&& p.pieces[t as int] == Piece::Empty
        &&& 0 <= behind(p.side, t) < 64
        &&& p.pieces[behind(p.side, t)] == p.side.invert().pawn()
    }
}

/// A castling right is held only while the king stands on its starting square.
pub open spec fn castling_rights_consistent(p: Position) -> bool {
    &&& (p.white_king || p.white_queen) ==> p.pieces[4] == Piece::WKing
    &&& (p.black_king || p.black_queen) ==> p.pieces[60] == Piece::BKing
}

proof fn lemma_pseudo_facts(p: Position)
    requires
        p.pieces.len() == 64,
    ensures
        all_facts(p, pseudo_moves(p)),
{
    lemma_pseudo_moves_facts(p, 64);
}

pub(crate) proof fn lemma_legal_facts(p: Position)
    requires
        p.pieces.len() == 64,
    ensures
        all_facts(p, legal_moves(p)),
{
    lemma_pseudo_facts(p);
    lemma_legal_moves_are_safe(p);
    assert forall|i: int| 0 <= i < legal_moves(p).len() implies move_facts(p, #[trigger] legal_moves(p)[i]) by {
        let j = choose|j: int| 0 <= j < pseudo_moves(p).len() && pseudo_moves(p)[j] == legal_moves(p)[i];
        assert(move_facts(p, pseudo_moves(p)[j]));
    }
}

/// An en-passant capture lands on an empty square and takes an enemy pawn
/// standing behind it.
pub open spec fn en_passant_sound(p: Position, m: Move) -> bool {
    m.move_type == MoveType::EnPassant ==> {
        &&& p.pieces[m.to as int] == Piece::Empty
        &&& p.pieces[behind(p.side, m.to)] == p.side.invert().pawn()
    }
}

proof fn lemma_facts_reversible(p: Position, m: Move)
    requires
        p.pieces.len() == 64,
        move_facts(p, m),
        en_passant_sound(p, m),
    ensures
        reversible(p, m),
{
    if m.move_type == MoveType::EnPassant {
        let b = behind(p.side, m.to);
        assert(b % 8 == m.to % 8);
    }
}

/// Every legal move whose en-passant capture, if it is one, lands on an empty
/// square and takes an enemy pawn is taken back exactly by `unmake_move`.
/// (Any other legal move is an en-passant capture that unmaking cannot
/// restore: it empties the target square and puts back a pawn that was not
/// there.)
pub proof fn lemma_legal_moves_undone(p: Position)
    requires
        p.pieces.len() == 64,
    ensures
        forall|i: int|
            0 <= i < legal_moves(p).len() && en_passant_sound(p, #[trigger] legal_moves(p)[i])
                ==> move_is_undone(p, legal_moves(p)[i]),
{
    lemma_legal_facts(p);
    assert forall|i: int|
        0 <= i < legal_moves(p).len() && en_passant_sound(p, #[trigger] legal_moves(p)[i]) implies move_is_undone(
        p,
        legal_moves(p)[i],
    ) by {
        lemma_facts_reversible(p, legal_moves(p)[i]);
        lemma_unmake_undoes_make(p, legal_moves(p)[i]);
    }
}

/// When the en-passant square is backed, every legal move is taken back
/// exactly by `unmake_move`.
pub proof fn lemma_backed_moves_undone(p: Position)
    requires
        p.pieces.len() == 64,
        en_passant_backed(p),
    ensures
        forall|i: int| 0 <= i < legal_moves(p).len() ==> move_is_undone(p, #[trigger] legal_moves(p)[i]),
{
    lemma_legal_facts(p);
    lemma_legal_moves_undone(p);
    assert forall|i: int| 0 <= i < legal_moves(p).len() implies move_is_undone(p, #[trigger] legal_moves(p)[i]) by {
        assert(move_facts(p, legal_moves(p)[i]));
        assert(en_passant_sound(p, legal_moves(p)[i]));
    }
}

pub(crate) proof fn lemma_move_keeps_king(p: Position, m: Move, k: int)
    requires
        p.pieces.len() == 64,
        en_passant_backed(p),
        move_facts(p, m),
        0 <= k < 64,
        p.pieces[k] == p.side.king(),
    ensures
        has_king(apply_move(p, m).pieces, p.side),
{
    let s = relocated_pieces(p, m);
    let from = m.from as int;
    let to = m.to as int;
    let king = p.side.king();
    assert(s.len() == 64);
    if k == from {
        assert(s[to] == king);
    } else {
        match m.move_type {
            MoveType::CastleKingside => {
                if k == to + 1 {
                    assert(s[from + 1] == king);
                } else {
                    assert(s[k] == king);
                }
            },
            MoveType::CastleQueenside => {
                if k == from - 4 {
                    assert(s[from - 1] == king);
                } else {
                    assert(s[k] == king);
                }
            },
            MoveType::EnPassant => {
                assert(s[k] == king);
            },
            _ => {
                assert(s[k] == king);
            },
        }
    }
}

/// When the side to move has a king and the en-passant square is backed, no
/// move by the piece rules takes the mover's king off the board, so
/// `generate_possible_moves` may be called.
pub proof fn lemma_king_survives(p: Position)
    requires
        p.pieces.len() == 64,
        has_king(p.pieces, p.side),
        en_passant_backed(p),
    ensures
        king_survives_moves(p),
{
    lemma_pseudo_facts(p);
    let k = choose|k: int| 0 <= k < p.pieces.len() && p.pieces[k] == p.side.king();
    assert forall|i: int| 0 <= i < pseudo_moves(p).len() implies has_king(
        apply_move(p, #[trigger] pseudo_moves(p)[i]).pieces,
        p.side,
    ) by {
        lemma_move_keeps_king(p, pseudo_moves(p)[i], k);
    }
}

/// The board names the move's type as UCI reading finds it: a castling
/// starts from a king's square, and an en-passant capture lands on an empty
/// square.
pub open spec fn uci_readable(p: Position, m: Move) -> bool {
    &&& (m.move_type == MoveType::CastleKingside || m.move_type == MoveType::CastleQueenside)
        ==> (p.pieces[m.from as int] == Piece::WKing || p.pieces[m.from as int] == Piece::BKing)
    &&& m.move_type == MoveType::EnPassant ==> p.pieces[m.to as int] == Piece::Empty
}

proof fn lemma_uci_of_move(p: Position, m: Move)
    requires
        p.pieces.len() == 64,
        move_facts(p, m),
        uci_readable(p, m),
    ensures
        uci_writable(m),
        spec_uci_to_move(uci_text(m), p) == Some(m),
{
    lemma_square_name_round_trip(m.from);
    lemma_square_name_round_trip(m.to);
    let c = uci_text(m);
    assert(is_ascii_chars(c));
    if let MoveType::Promotion(pp) = m.move_type {
        assert(promo_char_to_piece(piece_to_promo_char(pp), p.side) == Some(pp));
    }
}

/// Writing a legal move in UCI and reading it back on the same position gives
/// the move again, whenever a castling move starts from a king's square and
/// an en-passant capture lands on an empty square. (Otherwise reading finds
/// another move type, or no piece to move.)
pub proof fn lemma_uci_round_trip(p: Position)
    requires
        p.pieces.len() == 64,
    ensures
        forall|i: int|
            0 <= i < legal_moves(p).len() ==> uci_writable(#[trigger] legal_moves(p)[i]),
        forall|i: int|
            0 <= i < legal_moves(p).len() && uci_readable(p, #[trigger] legal_moves(p)[i])
                ==> spec_uci_to_move(uci_text(legal_moves(p)[i]), p) == Some(legal_moves(p)[i]),
{
    lemma_legal_facts(p);
    assert forall|i: int| 0 <= i < legal_moves(p).len() implies uci_writable(#[trigger] legal_moves(p)[i]) by {
        assert(move_facts(p, legal_moves(p)[i]));
    }
    assert forall|i: int|
        0 <= i < legal_moves(p).len() && uci_readable(p, #[trigger] legal_moves(p)[i]) implies spec_uci_to_move(
        uci_text(legal_moves(p)[i]),
        p,
    ) == Some(legal_moves(p)[i]) by {
        lemma_uci_of_move(p, legal_moves(p)[i]);
    }
}

/// With every castling right held by a king on its starting square and a
/// backed en-passant square, every legal move reads back from its UCI text.
pub proof fn lemma_consistent_uci_round_trip(p: Position)
    requires
        p.pieces.len() == 64,
        en_passant_backed(p),
        castling_rights_consistent(p),
    ensures
        forall|i: int|
            0 <= i < legal_moves(p).len() ==> uci_writable(#[trigger] legal_moves(p)[i])
                && spec_uci_to_move(uci_text(legal_moves(p)[i]), p) == Some(legal_moves(p)[i]),
{
    lemma_legal_facts(p);
    lemma_uci_round_trip(p);
    assert forall|i: int| 0 <= i < legal_moves(p).len() implies uci_writable(#[trigger] legal_moves(p)[i])
        && spec_uci_to_move(uci_text(legal_moves(p)[i]), p) == Some(legal_moves(p)[i]) by {
        assert(move_facts(p, legal_moves(p)[i]));
        assert(uci_readable(p, legal_moves(p)[i]));
    }
}

} // verus!
