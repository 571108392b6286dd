use vstd::prelude::*;

use crate::board::{apply_move, behind, make_bounds, Position};
use crate::fen::parse_fen;
use crate::fen::word_ranges;
use crate::generation_laws::lemma_legal_facts;
use crate::move_facts::move_facts;
use crate::movegen::{attacked, legal_moves};
use crate::moves::{Move, MoveType};
use crate::piece::{Color, Piece};
use crate::requests::{spec_board_from_server, square_moved, ServerBoardView};

verus! {

/// Castling follows the rules: every castling move the generator lists
/// starts from the king's home square with the matching right, the squares
/// between king and rook are empty, and neither the king's square, the square
/// it crosses nor the square it lands on is attacked by the other side.
pub proof fn lemma_castling_rules(p: Position)
    requires
        p.pieces.len() == 64,
    ensures
        forall|i: int|
            0 <= i < legal_moves(p).len() && (#[trigger] legal_moves(p)[i]).move_type
                == MoveType::CastleKingside ==> {
                let m = legal_moves(p)[i];
                &&& (p.side == Color::White && m.from == 4 && p.white_king) || (p.side == Color::Black
                    && m.from == 60 && p.black_king)
                &&& m.to == m.from + 2
                &&& p.pieces[m.from + 1] == Piece::Empty
                &&& p.pieces[m.from + 2] == Piece::Empty
                &&& !attacked(p, m.from, p.side.invert())
                &&& !attacked(p, (m.from + 1) as u8, p.side.invert())
                &&& !attacked(p, (m.from + 2) as u8, p.side.invert())
            },
        forall|i: int|
            0 <= i < legal_moves(p).len() && (#[trigger] legal_moves(p)[i]).move_type
                == MoveType::CastleQueenside ==> {
                let m = legal_moves(p)[i];
                &&& (p.side == Color::White && m.from == 4 && p.white_queen) || (p.side == Color::Black
                    && m.from == 60 && p.black_queen)
                &&& m.to + 2 == m.from
                &&& p.pieces[m.from - 1] == Piece::Empty
                &&& p.pieces[m.from - 2] == Piece::Empty
                &&& p.pieces[m.from - 3] == Piece::Empty
                &&& !attacked(p, m.from, p.side.invert())
                &&& !attacked(p, (m.from - 1) as u8, p.side.invert())
                &&& !attacked(p, (m.from - 2) as u8, p.side.invert())
            },
{
    lemma_legal_facts(p);
    assert forall|i: int|
        0 <= i < legal_moves(p).len() && (#[trigger] legal_moves(p)[i]).move_type
            == MoveType::CastleKingside implies {
        let m = legal_moves(p)[i];
        &&& (p.side == Color::White && m.from == 4 && p.white_king) || (p.side == Color::Black
            && m.from == 60 && p.black_king)
        &&& m.to == m.from + 2
        &&& p.pieces[m.from + 1] == Piece::Empty
        &&& p.pieces[m.from + 2] == Piece::Empty
        &&& !attacked(p, m.from, p.side.invert())
        &&& !attacked(p, (m.from + 1) as u8, p.side.invert())
        &&& !attacked(p, (m.from + 2) as u8, p.side.invert())
    } by {
        assert(move_facts(p, legal_moves(p)[i]));
    }
    assert forall|i: int|
        0 <= i < legal_moves(p).len() && (#[trigger] legal_moves(p)[i]).move_type
            == MoveType::CastleQueenside implies {
        let m = legal_moves(p)[i];
        &&& (p.side == Color::White && m.from == 4 && p.white_queen) || (p.side == Color::Black
            && m.from == 60 && p.black_queen)
        &&& m.to + 2 == m.from
        &&& p.pieces[m.from - 1] == Piece::Empty
        &&& p.pieces[m.from - 2] == Piece::Empty
        &&& p.pieces[m.from - 3] == Piece::Empty
        &&& !attacked(p, m.from, p.side.invert())
        &&& !attacked(p, (m.from - 1) as u8, p.side.invert())
        &&& !attacked(p, (m.from - 2) as u8, p.side.invert())
    } by {
        assert(move_facts(p, legal_moves(p)[i]));
    }
}

/// Where a move puts the pieces: the moving piece (for a promotion, the piece
/// promoted to) lands on the target square and leaves its own square empty,
/// an en-passant capture also empties the square behind the target, castling
/// also moves the corner piece next to the king on the other side; every
/// other square keeps its piece, and the turn passes to the other side.
pub proof fn lemma_move_placement(p: Position, m: Move)
    requires
        p.pieces.len() == 64,
        make_bounds(p.side, m),
        m.from != m.to,
    ensures
        apply_move(p, m).side == p.side.invert(),
        apply_move(p, m).pieces.len() == 64,
        apply_move(p, m).pieces[m.from as int] == Piece::Empty,
        m.move_type matches MoveType::Promotion(pp) ==> apply_move(p, m).pieces[m.to as int] == pp,
        (m.move_type == MoveType::Normal || m.move_type == MoveType::PawnDoubleStep || m.move_type
            == MoveType::EnPassant) ==> apply_move(p, m).pieces[m.to as int] == p.pieces[m.from as int],
        (m.move_type == MoveType::Normal || m.move_type == MoveType::PawnDoubleStep
            || m.move_type is Promotion) ==> forall|k: int|
            0 <= k < 64 && k != m.from && k != m.to ==> #[trigger] apply_move(p, m).pieces[k]
                == p.pieces[k],
        m.move_type == MoveType::EnPassant && behind(p.side, m.to) != m.from ==> {
            &&& apply_move(p, m).pieces[behind(p.side, m.to)] == Piece::Empty
            &&& forall|k: int|
                0 <= k < 64 && k != m.from && k != m.to && k != behind(p.side, m.to)
                    ==> #[trigger] apply_move(p, m).pieces[k] == p.pieces[k]
        },
        m.move_type == MoveType::CastleKingside && m.to == m.from + 2 ==> {
            &&& apply_move(p, m).pieces[m.to as int] == p.pieces[m.from as int]
            &&& apply_move(p, m).pieces[m.from + 1] == p.pieces[m.to + 1]
            &&& apply_move(p, m).pieces[m.to + 1] == Piece::Empty
            &&& forall|k: int|
                0 <= k < 64 && k != m.from && k != m.to && k != m.from + 1 && k != m.to + 1
                    ==> #[trigger] apply_move(p, m).pieces[k] == p.pieces[k]
        },
        m.move_type == MoveType::CastleQueenside && m.to + 2 == m.from ==> {
            &&& apply_move(p, m).pieces[m.to as int] == p.pieces[m.from as int]
            &&& apply_move(p, m).pieces[m.from - 1] == p.pieces[m.from - 4]
            &&& apply_move(p, m).pieces[m.from - 4] == Piece::Empty
            &&& forall|k: int|
                0 <= k < 64 && k != m.from && k != m.to && k != m.from - 1 && k != m.from - 4
                    ==> #[trigger] apply_move(p, m).pieces[k] == p.pieces[k]
        },
        apply_move(p, m).en_passant == if m.move_type == MoveType::PawnDoubleStep {
            Some(behind(p.side, m.to) as u8)
        } else {
            None
        },
{
}

/// The piece that stands on a move's target square afterwards: the piece
/// promoted to, or the piece that moved.
pub open spec fn arriving_piece(p: Position, m: Move) -> Piece {
    match m.move_type {
        MoveType::Promotion(pp) => pp,
        _ => p.pieces[m.from as int],
    }
}

/// Castling rights after a move: a right survives exactly when it was held,
/// the move neither leaves nor enters its rook's corner, and the piece
/// arriving on the target square is not that side's king.
pub proof fn lemma_rights_after_move(p: Position, m: Move)
    requires
        p.pieces.len() == 64,
        make_bounds(p.side, m),
        m.from != m.to,
        m.move_type == MoveType::CastleKingside ==> m.to == m.from + 2,
        m.move_type == MoveType::CastleQueenside ==> m.to + 2 == m.from,
    ensures
        apply_move(p, m).white_king == (p.white_king && m.from != 7 && m.to != 7 && arriving_piece(p, m)
            != Piece::WKing),
        apply_move(p, m).white_queen == (p.white_queen && m.from != 0 && m.to != 0 && arriving_piece(
            p,
            m,
        ) != Piece::WKing),
        apply_move(p, m).black_king == (p.black_king && m.from != 63 && m.to != 63 && arriving_piece(
            p,
            m,
        ) != Piece::BKing),
        apply_move(p, m).black_queen == (p.black_queen && m.from != 56 && m.to != 56 && arriving_piece(
            p,
            m,
        ) != Piece::BKing),
{
    lemma_move_placement(p, m);
}

/// The castling field of a FEN string (its third field) grants each right
/// exactly when the right's own letter occurs in it, and the second field
/// decides the side to move.
pub proof fn lemma_fen_rights(s: Seq<char>)
    ensures
        parse_fen(s) matches Ok(p) ==> {
            let w = word_ranges(s, s.len());
            let side_field = s.subrange(w[1].0, w[1].1);
            let field = s.subrange(w[2].0, w[2].1);
            &&& p.white_king == field.contains('K')
            &&& p.white_queen == field.contains('Q')
            &&& p.black_king == field.contains('k')
            &&& p.black_queen == field.contains('q')
            &&& (p.side == Color::White <==> side_field == seq!['w'])
            &&& (p.side == Color::Black <==> side_field == seq!['b'])
        },
{
    assert(seq!['w'][0] != seq!['b'][0]);
}

/// Each castling right read from the game server depends only on its king's
/// and its rook's home squares: it is granted exactly when the king and that
/// rook stand there and the server reports neither square as moved.
pub proof fn lemma_server_castling_rights(b: ServerBoardView)
    ensures
        spec_board_from_server(b) matches Some(p) ==> {
            let list = b.pieces->0;
            &&& p.white_king == (p.pieces[4] == Piece::WKing && p.pieces[7] == Piece::WRook
                && !square_moved(list, "e1"@) && !square_moved(list, "h1"@))
            &&& p.white_queen == (p.pieces[4] == Piece::WKing && p.pieces[0] == Piece::WRook
                && !square_moved(list, "e1"@) && !square_moved(list, "a1"@))
            &&& p.black_king == (p.pieces[60] == Piece::BKing && p.pieces[63] == Piece::BRook
                && !square_moved(list, "e8"@) && !square_moved(list, "h8"@))
            &&& p.black_queen == (p.pieces[60] == Piece::BKing && p.pieces[56] == Piece::BRook
                && !square_moved(list, "e8"@) && !square_moved(list, "a8"@))
        },
{
}

} // verus!
