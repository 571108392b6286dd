use vstd::prelude::*;

use crate::board::{apply_move, behind, can_unmake, make_bounds, retracted_position, undo_for, Position};
use crate::moves::{Move, MoveType};
use crate::movegen::{leaves_king_safe, legal_moves, pseudo_moves, safe_moves};
use crate::piece::{Color, Piece};
use crate::requests::{piece_named, server_color_name, server_piece_name};
use crate::translate_move_uci::{file_letter, rank_digit, spec_algebraic_to_square};
use crate::fen::{fen_letter, fen_piece};

verus! {

/// A move that `unmake_move` takes back exactly: the squares it touches lie on
/// the board, a pawn moves on a double step, an en-passant capture, or a
/// promotion, the squares that a pawn step, an en-passant capture, or a castling
/// crosses or lands on are empty, an en-passant capture takes an enemy pawn, and
/// castling moves the piece two files.
pub open spec fn reversible(p: Position, m: Move) -> bool {
    let from = m.from as int;
    let to = m.to as int;
    &&& p.pieces.len() == 64
    &&& make_bounds(p.side, m)
    &&& match m.move_type {
        MoveType::Normal => true,
        MoveType::PawnDoubleStep => from != to && p.pieces[from] == p.side.pawn()
            && p.pieces[to] == Piece::Empty,
        MoveType::Promotion(_) => p.pieces[from] == p.side.pawn(),
        MoveType::EnPassant => from != to && from != behind(p.side, m.to) && p.pieces[to]
            == Piece::Empty && p.pieces[behind(p.side, m.to)] == p.side.invert().pawn(),
        MoveType::CastleKingside => to == from + 2 && p.pieces[to] == Piece::Empty && p.pieces[from
            + 1] == Piece::Empty,
        MoveType::CastleQueenside => to + 2 == from && p.pieces[to] == Piece::Empty && p.pieces[from
            - 1] == Piece::Empty,
    }
}

/// Taking back `m` after making it in `p` is possible and gives `p` again.
pub open spec fn move_is_undone(p: Position, m: Move) -> bool {
    &&& can_unmake(apply_move(p, m), m)
    &&& retracted_position(apply_move(p, m), m, undo_for(p, m)) == p
}

/// Unmaking a move with the record that making it returned restores the
/// position: placement, side to move, en-passant square and castling rights
/// are those from before the move.
pub proof fn lemma_unmake_undoes_make(p: Position, m: Move)
    requires
        reversible(p, m),
    ensures
        move_is_undone(p, m),
{
    let q = apply_move(p, m);
    let r = retracted_position(q, m, undo_for(p, m));
    assert(r.pieces =~= p.pieces);
    assert(r =~= p);
}

proof fn lemma_safe_moves_sound(p: Position, moves: Seq<Move>)
    ensures
        forall|i: int|
            0 <= i < safe_moves(p, moves).len() ==> leaves_king_safe(
                p,
                #[trigger] safe_moves(p, moves)[i],
            ) && moves.contains(safe_moves(p, moves)[i]),
    decreases moves.len(),
{
    if moves.len() > 0 {
        let rest = moves.drop_last();
        lemma_safe_moves_sound(p, rest);
        let kept = safe_moves(p, moves);
        assert forall|i: int| 0 <= i < kept.len() implies leaves_king_safe(p, #[trigger] kept[i])
            && moves.contains(kept[i]) by {
            if i < safe_moves(p, rest).len() {
                assert(kept[i] == safe_moves(p, rest)[i]);
                let j = choose|j: int| 0 <= j < rest.len() && rest[j] == kept[i];
                assert(moves[j] == rest[j]);
            } else {
                assert(kept[i] == moves.last());
                assert(moves[moves.len() - 1] == moves.last());
            }
        }
    }
}

/// Every move that `generate_possible_moves` returns is a move by the piece
/// rules and leaves the mover's king unattacked.
pub proof fn lemma_legal_moves_are_safe(p: Position)
    ensures
        forall|i: int|
            0 <= i < legal_moves(p).len() ==> leaves_king_safe(p, #[trigger] legal_moves(p)[i])
                && pseudo_moves(p).contains(legal_moves(p)[i]),
{
    lemma_safe_moves_sound(p, pseudo_moves(p));
}

/// Inverting a color twice gives it back.
pub proof fn lemma_invert_involutive(c: Color)
    ensures
        c.invert().invert() == c,
        c.invert() != c,
{
}

/// Reading back the algebraic name of a square gives the square.
pub proof fn lemma_square_name_round_trip(square: u8)
    requires
        square < 64,
    ensures
        spec_algebraic_to_square(seq![file_letter(square), rank_digit(square)]) == Some(square),
{
    let f = square % 8;
    let r = square / 8;
    assert(0 <= f < 8 && 0 <= r < 8);
    assert(square == r * 8 + f);
}

/// The server's names of a piece's kind and color are read back as that piece.
pub proof fn lemma_server_names_round_trip(p: Piece)
    requires
        p != Piece::Empty,
    ensures
        piece_named(server_piece_name(p)@, server_color_name(p.color()->0)@) == Some(p),
{
    reveal_strlit("PAWN");
    reveal_strlit("BISHOP");
    reveal_strlit("KNIGHT");
    reveal_strlit("ROOK");
    reveal_strlit("QUEEN");
    reveal_strlit("KING");
    reveal_strlit("WHITE");
    reveal_strlit("BLACK");
    let names = seq!["PAWN"@, "BISHOP"@, "KNIGHT"@, "ROOK"@, "QUEEN"@, "KING"@];
    assert forall|i: int, j: int| 0 <= i < j < 6 implies names[i] != names[j] by {
        if names[i].len() == names[j].len() {
            assert(names[i][0] != names[j][0] || names[i][1] != names[j][1]);
        }
    }
    assert("WHITE"@[0] != "BLACK"@[0]);
    assert(names[0] == "PAWN"@ && names[1] == "BISHOP"@ && names[2] == "KNIGHT"@);
    assert(names[3] == "ROOK"@ && names[4] == "QUEEN"@ && names[5] == "KING"@);
}

/// Each piece of a color belongs to that color, and a piece's score is the
/// negative of the score of the same piece of the other color.
pub proof fn lemma_color_pieces(c: Color)
    ensures
        c.pawn().color() == Some(c),
        c.knight().color() == Some(c),
        c.bishop().color() == Some(c),
        c.rook().color() == Some(c),
        c.queen().color() == Some(c),
        c.king().color() == Some(c),
        c.pawn().score() == -c.invert().pawn().score(),
        c.knight().score() == -c.invert().knight().score(),
        c.bishop().score() == -c.invert().bishop().score(),
        c.rook().score() == -c.invert().rook().score(),
        c.queen().score() == -c.invert().queen().score(),
        c.king().score() == -c.invert().king().score(),
{
}

/// Reading the FEN letter of a piece gives the piece back.
pub proof fn lemma_fen_letter_round_trip(p: Piece)
    requires
        p != Piece::Empty,
    ensures
        fen_piece(fen_letter(p)) == Some(p),
{
}

} // verus!
