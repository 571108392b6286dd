use vstd::prelude::*;

use crate::board::{behind, make_bounds, Position};
use crate::movegen::{
    attacked,
    bishop_moves, castling_moves, king_offset, king_steps_upto, knight_moves_upto, knight_offset,
    lemma_offset_coords, normal_move, pawn_arrival, pawn_captures, pawn_direction, pawn_moves,
    pawn_pushes, pawn_start_rank, piece_moves, promotion_moves, pseudo_moves_upto, ray_moves,
    rook_moves, slide_direction, slider_moves_upto, step_move,
};
use crate::moves::{square_offset, Move, MoveType};
use crate::piece::{Color, Piece};

verus! {

/// `to` is at most one file away from `from`.
pub open spec fn within_one_file(from: u8, to: u8) -> bool {
    to % 8 <= from % 8 + 1 && from % 8 <= to % 8 + 1
}

/// What every move of the generator satisfies: its squares lie on the board,
/// a moving piece belongs to the mover and does not land on one of the
/// mover's pieces, kings step at most one file, pawns step straight onto an
/// empty square or diagonally onto a piece, double steps (over an empty
/// square) and en-passant
/// captures follow the pawn rules, promotions name a piece of the mover, and
/// castling starts from the king's square with the right, with the squares
/// between king and rook empty and the king's square, the square it crosses
/// and the one it lands on not attacked.
pub open spec fn move_facts(p: Position, m: Move) -> bool {
    let s = p.side;
    let from = m.from as int;
    let to = m.to as int;
    let piece = p.pieces[from];
    let dir = pawn_direction(s);
    &&& make_bounds(s, m)
    &&& match m.move_type {
        MoveType::Normal => {
            &&& piece.color() == Some(s)
            &&& p.pieces[to].color() != Some(s)
            &&& (piece == s.king() ==> within_one_file(m.from, m.to))
            &&& (piece == s.pawn() ==> m.to / 8 == m.from / 8 + dir && ((m.to % 8 == m.from % 8
                && p.pieces[to] == Piece::Empty) || (m.to % 8 != m.from % 8 && p.pieces[to]
                != Piece::Empty)))
        },
        MoveType::PawnDoubleStep => {
            &&& piece == s.pawn()
            &&& p.pieces[to] == Piece::Empty
            &&& 0 <= behind(s, m.to) < 64
            &&& p.pieces[behind(s, m.to)] == Piece::Empty
            &&& m.to % 8 == m.from % 8
            &&& m.to / 8 == m.from / 8 + 2 * dir
        },
        MoveType::Promotion(pp) => {
            &&& piece == s.pawn()
            &&& p.pieces[to].color() != Some(s)
            &&& (pp == s.bishop() || pp == s.knight() || pp == s.rook() || pp == s.queen())
        },
        MoveType::EnPassant => {
            &&& piece == s.pawn()
            &&& p.en_passant == Some(m.to)
            &&& m.to % 8 != m.from % 8
            &&& m.to / 8 == m.from / 8 + dir
        },
        MoveType::CastleKingside => {
            &&& ((s == Color::White && m.from == 4 && m.to == 6 && p.white_king) || (s
                == Color::Black && m.from == 60 && m.to == 62 && p.black_king))
            &&& p.pieces[to] == Piece::Empty
            &&& p.pieces[from + 1] == Piece::Empty
            &&& !attacked(p, m.from, s.invert())
            &&& !attacked(p, (m.from + 1) as u8, s.invert())
            &&& !attacked(p, m.to, s.invert())
        },
        MoveType::CastleQueenside => {
            &&& ((s == Color::White && m.from == 4 && m.to == 2 && p.white_queen) || (s
                == Color::Black && m.from == 60 && m.to == 58 && p.black_queen))
            &&& p.pieces[to] == Piece::Empty
            &&& p.pieces[from - 1] == Piece::Empty
            &&& p.pieces[from - 3] == Piece::Empty
            &&& !attacked(p, m.from, s.invert())
            &&& !attacked(p, (m.from - 1) as u8, s.invert())
            &&& !attacked(p, m.to, s.invert())
        },
    }
}

pub open spec fn all_facts(p: Position, moves: Seq<Move>) -> bool {
    forall|i: int| 0 <= i < moves.len() ==> move_facts(p, #[trigger] moves[i])
}

proof fn lemma_facts_concat(p: Position, a: Seq<Move>, b: Seq<Move>)
    requires
        all_facts(p, a),
        all_facts(p, b),
    ensures
        all_facts(p, a + b),
{
    assert forall|i: int| 0 <= i < (a + b).len() implies move_facts(p, #[trigger] (a + b)[i]) by {
        if i < a.len() {
            assert((a + b)[i] == a[i]);
        } else {
            assert((a + b)[i] == b[i - a.len()]);
        }
    }
}

proof fn lemma_step_facts(p: Position, square: u8, df: int, dr: int)
    requires
        p.pieces.len() == 64,
        square < 64,
        p.pieces[square as int].color() == Some(p.side),
        p.pieces[square as int] != p.side.pawn(),
        p.pieces[square as int] == p.side.king() ==> -1 <= df <= 1,
    ensures
        all_facts(p, step_move(p, square, df, dr)),
{
    match square_offset(square, df, dr) {
        Some(d) => {
            lemma_offset_coords(square, df, dr, d);
        },
        None => {},
    }
}

proof fn lemma_knight_facts(p: Position, square: u8, n: nat)
    requires
        p.pieces.len() == 64,
        square < 64,
        p.pieces[square as int] == p.side.knight(),
    ensures
        all_facts(p, knight_moves_upto(p, square, n)),
    decreases n,
{
    if n > 0 {
        lemma_knight_facts(p, square, (n - 1) as nat);
        let o = knight_offset((n - 1) as usize);
        lemma_step_facts(p, square, o.0 as int, o.1 as int);
        lemma_facts_concat(p, knight_moves_upto(p, square, (n - 1) as nat), step_move(p, square, o.0 as int, o.1 as int));
    }
}

proof fn lemma_king_step_facts(p: Position, square: u8, n: nat)
    requires
        p.pieces.len() == 64,
        square < 64,
        p.pieces[square as int] == p.side.king(),
        n <= 8,
    ensures
        all_facts(p, king_steps_upto(p, square, n)),
    decreases n,
{
    if n > 0 {
        lemma_king_step_facts(p, square, (n - 1) as nat);
        let o = king_offset((n - 1) as usize);
        lemma_step_facts(p, square, o.0 as int, o.1 as int);
        lemma_facts_concat(p, king_steps_upto(p, square, (n - 1) as nat), step_move(p, square, o.0 as int, o.1 as int));
    }
}

proof fn lemma_ray_facts(p: Position, from: u8, cur: u8, df: int, dr: int, fuel: nat)
    requires
        p.pieces.len() == 64,
        from < 64,
        cur < 64,
        p.pieces[from as int].color() == Some(p.side),
        p.pieces[from as int] != p.side.king(),
        p.pieces[from as int] != p.side.pawn(),
    ensures
        all_facts(p, ray_moves(p, from, cur, df, dr, fuel)),
    decreases fuel,
{
    if fuel > 0 {
        match square_offset(cur, df, dr) {
            Some(n) => {
                lemma_offset_coords(cur, df, dr, n);
                if p.pieces[n as int].color() != Some(p.side) {
                    lemma_ray_facts(p, from, n, df, dr, (fuel - 1) as nat);
                    let first = seq![normal_move(from, n)];
                    let rest = if p.pieces[n as int].color() == Some(p.side.invert()) {
                        seq![]
                    } else {
                        ray_moves(p, from, n, df, dr, (fuel - 1) as nat)
                    };
                    assert(all_facts(p, first));
                    assert(all_facts(p, rest));
                    lemma_facts_concat(p, first, rest);
                }
            },
            None => {},
        }
    }
}

proof fn lemma_slider_facts(p: Position, square: u8, rook: bool, n: nat)
    requires
        p.pieces.len() == 64,
        square < 64,
        p.pieces[square as int].color() == Some(p.side),
        p.pieces[square as int] != p.side.king(),
        p.pieces[square as int] != p.side.pawn(),
    ensures
        all_facts(p, slider_moves_upto(p, square, rook, n)),
    decreases n,
{
    if n > 0 {
        lemma_slider_facts(p, square, rook, (n - 1) as nat);
        let d = slide_direction(rook, (n - 1) as usize);
        lemma_ray_facts(p, square, square, d.0 as int, d.1 as int, 7);
        lemma_facts_concat(p, slider_moves_upto(p, square, rook, (n - 1) as nat), ray_moves(p, square, square, d.0 as int, d.1 as int, 7));
    }
}

proof fn lemma_arrival_facts(p: Position, square: u8, t: u8)
    requires
        p.pieces.len() == 64,
        square < 64,
        t < 64,
        p.pieces[square as int] == p.side.pawn(),
        p.pieces[t as int].color() != Some(p.side),
        t / 8 == square / 8 + pawn_direction(p.side),
        (t % 8 == square % 8 && p.pieces[t as int] == Piece::Empty) || (t % 8 != square % 8
            && p.pieces[t as int] != Piece::Empty),
    ensures
        all_facts(p, pawn_arrival(p.side, square, t)),
{
    if t / 8 == 7 || t / 8 == 0 {
        let s = promotion_moves(p.side, square, t);
        assert(move_facts(p, s[0]) && move_facts(p, s[1]) && move_facts(p, s[2]) && move_facts(p, s[3]));
    }
}

proof fn lemma_pawn_facts(p: Position, square: u8)
    requires
        p.pieces.len() == 64,
        square < 64,
        p.pieces[square as int] == p.side.pawn(),
    ensures
        all_facts(p, pawn_moves(p, square)),
{
    let dir = pawn_direction(p.side);
    // pushes
    match square_offset(square, 0, dir) {
        Some(t) => {
            lemma_offset_coords(square, 0, dir, t);
            if p.pieces[t as int] == Piece::Empty {
                lemma_arrival_facts(p, square, t);
                let double = if square / 8 == pawn_start_rank(p.side) {
                    match square_offset(square, 0, 2 * dir) {
                        Some(t2) => if p.pieces[t2 as int] == Piece::Empty {
                            seq![Move { from: square, to: t2, move_type: MoveType::PawnDoubleStep }]
                        } else {
                            seq![]
                        },
                        None => seq![],
                    }
                } else {
                    seq![]
                };
                match square_offset(square, 0, 2 * dir) {
                    Some(t2) => {
                        lemma_offset_coords(square, 0, 2 * dir, t2);
                        assert(t == t / 8 * 8 + t % 8);
                        assert(t2 == t2 / 8 * 8 + t2 % 8);
                        assert(behind(p.side, t2) == t as int);
                    },
                    None => {},
                }
                assert(all_facts(p, double));
                lemma_facts_concat(p, pawn_arrival(p.side, square, t), double);
            }
        },
        None => {},
    }
    assert(all_facts(p, pawn_pushes(p, square)));
    lemma_capture_facts(p, square, -1);
    lemma_capture_facts(p, square, 1);
    lemma_facts_concat(p, pawn_pushes(p, square), pawn_captures(p, square, -1));
    lemma_facts_concat(p, pawn_pushes(p, square) + pawn_captures(p, square, -1), pawn_captures(p, square, 1));
}

proof fn lemma_capture_facts(p: Position, square: u8, df: int)
    requires
        p.pieces.len() == 64,
        square < 64,
        p.pieces[square as int] == p.side.pawn(),
        df == -1 || df == 1,
    ensures
        all_facts(p, pawn_captures(p, square, df)),
{
    let dir = pawn_direction(p.side);
    match square_offset(square, df, dir) {
        Some(t) => {
            lemma_offset_coords(square, df, dir, t);
            let capture = if p.pieces[t as int].color() == Some(p.side.invert()) {
                pawn_arrival(p.side, square, t)
            } else {
                seq![]
            };
            if p.pieces[t as int].color() == Some(p.side.invert()) {
                lemma_arrival_facts(p, square, t);
            }
            let ep = if p.en_passant == Some(t) {
                seq![Move { from: square, to: t, move_type: MoveType::EnPassant }]
            } else {
                seq![]
            };
            assert(all_facts(p, ep));
            lemma_facts_concat(p, capture, ep);
        },
        None => {},
    }
}

proof fn lemma_castling_facts(p: Position)
    requires
        p.pieces.len() == 64,
    ensures
        all_facts(p, castling_moves(p)),
{
    let c = castling_moves(p);
    assert forall|i: int| 0 <= i < c.len() implies move_facts(p, #[trigger] c[i]) by {}
}

proof fn lemma_piece_facts(p: Position, square: u8)
    requires
        p.pieces.len() == 64,
        square < 64,
    ensures
        all_facts(p, piece_moves(p, square)),
{
    let piece = p.pieces[square as int];
    let s = p.side;
    if piece == s.king() {
        lemma_king_step_facts(p, square, 8);
        lemma_castling_facts(p);
        lemma_facts_concat(p, king_steps_upto(p, square, 8), castling_moves(p));
    } else if piece == s.queen() {
        lemma_slider_facts(p, square, false, 4);
        lemma_slider_facts(p, square, true, 4);
        lemma_facts_concat(p, bishop_moves(p, square), rook_moves(p, square));
    } else if piece == s.bishop() {
        lemma_slider_facts(p, square, false, 4);
    } else if piece == s.knight() {
        lemma_knight_facts(p, square, 8);
    } else if piece == s.rook() {
        lemma_slider_facts(p, square, true, 4);
    } else if piece == s.pawn() {
        lemma_pawn_facts(p, square);
    }
}

/// Every move the piece rules generate satisfies `move_facts`.
pub proof fn lemma_pseudo_moves_facts(p: Position, n: nat)
    requires
        p.pieces.len() == 64,
        n <= 64,
    ensures
        all_facts(p, pseudo_moves_upto(p, n)),
    decreases n,
{
    if n > 0 {
        lemma_pseudo_moves_facts(p, (n - 1) as nat);
        lemma_piece_facts(p, (n - 1) as u8);
        lemma_facts_concat(p, pseudo_moves_upto(p, (n - 1) as nat), piece_moves(p, (n - 1) as u8));
    }
}

} // verus!
