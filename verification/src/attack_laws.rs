use vstd::prelude::*;

use crate::board::Position;
use crate::movegen::{
    attacked, attacking_pawn_rank, bishop_moves, castling_moves, first_piece, king_offset,
    king_steps_upto, knight_moves_upto, knight_offset, lemma_offset_coords, normal_move,
    pawn_arrival, pawn_captures, pawn_direction, pawn_moves, pawn_pushes, pawn_start_rank,
    piece_at_offset, piece_moves, promotion_moves, pseudo_moves_upto, ray_moves, rook_moves,
    slide_direction, slider_hits, slider_moves_upto, step_move, unit_direction,
};
use crate::moves::{square_offset, Move, MoveType};
use crate::piece::{Color, Piece};

verus! {

/// A capture (a normal move or a promotion onto an occupied square) lands on
/// a square that the mover attacks.
pub open spec fn capture_attacked(p: Position, m: Move) -> bool {
    ((m.move_type == MoveType::Normal || m.move_type is Promotion) && p.pieces[m.to as int]
        != Piece::Empty) ==> attacked(p, m.to, p.side)
}

pub open spec fn all_captures_attacked(p: Position, moves: Seq<Move>) -> bool {
    forall|i: int| 0 <= i < moves.len() ==> capture_attacked(p, #[trigger] moves[i])
}

proof fn lemma_captures_concat(p: Position, a: Seq<Move>, b: Seq<Move>)
    requires
        all_captures_attacked(p, a),
        all_captures_attacked(p, b),
    ensures
        all_captures_attacked(p, a + b),
{
    assert forall|i: int| 0 <= i < (a + b).len() implies capture_attacked(p, #[trigger] (a + b)[i]) by {
        if i < a.len() {
            assert((a + b)[i] == a[i]);
        } else {
            assert((a + b)[i] == b[i - a.len()]);
        }
    }
}

pub proof fn lemma_offset_inverse(square: u8, df: int, dr: int, t: u8)
    requires
        square < 64,
        square_offset(square, df, dr) == Some(t),
    ensures
        square_offset(t, -df, -dr) == Some(square),
{
    lemma_offset_coords(square, df, dr, t);
}

proof fn lemma_knight_captures(p: Position, square: u8, n: nat)
    requires
        p.pieces.len() == 64,
        square < 64,
        n <= 8,
        p.pieces[square as int] == p.side.knight(),
    ensures
        all_captures_attacked(p, knight_moves_upto(p, square, n)),
    decreases n,
{
    if n > 0 {
        lemma_knight_captures(p, square, (n - 1) as nat);
        let k = (n - 1) as usize;
        let o = knight_offset(k);
        let back = ((k + 4) % 8) as usize;
        assert(knight_offset(back).0 == -o.0 && knight_offset(back).1 == -o.1);
        match square_offset(square, o.0 as int, o.1 as int) {
            Some(t) => {
                lemma_offset_inverse(square, o.0 as int, o.1 as int, t);
                assert(piece_at_offset(p, t, knight_offset(back).0 as int, knight_offset(back).1 as int, p.side.knight()));
            },
            None => {},
        }
        assert(all_captures_attacked(p, step_move(p, square, o.0 as int, o.1 as int)));
        lemma_captures_concat(p, knight_moves_upto(p, square, (n - 1) as nat), step_move(p, square, o.0 as int, o.1 as int));
    }
}

proof fn lemma_king_captures(p: Position, square: u8, n: nat)
    requires
        p.pieces.len() == 64,
        square < 64,
        n <= 8,
        p.pieces[square as int] == p.side.king(),
    ensures
        all_captures_attacked(p, king_steps_upto(p, square, n)),
    decreases n,
{
    if n > 0 {
        lemma_king_captures(p, square, (n - 1) as nat);
        let k = (n - 1) as usize;
        let o = king_offset(k);
        let back = ((k + 4) % 8) as usize;
        assert(king_offset(back).0 == -o.0 && king_offset(back).1 == -o.1);
        match square_offset(square, o.0 as int, o.1 as int) {
            Some(t) => {
                lemma_offset_inverse(square, o.0 as int, o.1 as int, t);
                assert(piece_at_offset(p, t, king_offset(back).0 as int, king_offset(back).1 as int, p.side.king()));
            },
            None => {},
        }
        assert(all_captures_attacked(p, step_move(p, square, o.0 as int, o.1 as int)));
        lemma_captures_concat(p, king_steps_upto(p, square, (n - 1) as nat), step_move(p, square, o.0 as int, o.1 as int));
    }
}

/// `d` times `u` for a unit `d`.
pub open spec fn times_unit(u: int, d: int) -> int {
    if d == 1 {
        u
    } else if d == -1 {
        -u
    } else {
        0
    }
}

/// `x` is `u` steps from `from` in direction (`df`, `dr`).
pub open spec fn at_distance(from: u8, x: u8, df: int, dr: int, u: int) -> bool {
    &&& x < 64
    &&& x % 8 == from % 8 + times_unit(u, df)
    &&& x / 8 == from / 8 + times_unit(u, dr)
}

/// Every square fewer than `t` steps (and at least one) from `from` is empty.
pub open spec fn empty_before(p: Position, from: u8, df: int, dr: int, t: int) -> bool {
    forall|y: u8, u: int|
        1 <= u < t && #[trigger] at_distance(from, y, df, dr, u) ==> p.pieces[y as int] == Piece::Empty
}

proof fn lemma_same_square(from: u8, x: u8, y: u8, df: int, dr: int, u: int)
    requires
        at_distance(from, x, df, dr, u),
        at_distance(from, y, df, dr, u),
    ensures
        x == y,
{
    assert(x == (x / 8) * 8 + x % 8);
    assert(y == (y / 8) * 8 + y % 8);
}

/// Walking back from a square `t` steps away over empty squares meets the
/// piece on `from` first.
proof fn lemma_first_piece_back(p: Position, from: u8, x: u8, df: int, dr: int, t: int, fuel: nat)
    requires
        p.pieces.len() == 64,
        unit_direction(df, dr),
        from < 64,
        1 <= t <= fuel,
        at_distance(from, x, df, dr, t),
        empty_before(p, from, df, dr, t),
        p.pieces[from as int] != Piece::Empty,
    ensures
        first_piece(p, x, -df, -dr, fuel) == p.pieces[from as int],
    decreases t,
{
    let fx = x % 8 - df;
    let rx = x / 8 - dr;
    assert(0 <= fx < 8 && 0 <= rx < 8);
    let y = square_offset(x, -df, -dr)->0;
    assert(square_offset(x, -df, -dr) is Some);
    lemma_offset_coords(x, -df, -dr, y);
    if t == 1 {
        assert(at_distance(from, from, df, dr, 0));
        assert(at_distance(from, y, df, dr, 0));
        lemma_same_square(from, from, y, df, dr, 0);
    } else {
        assert(at_distance(from, y, df, dr, t - 1));
        assert(p.pieces[y as int] == Piece::Empty);
        assert(empty_before(p, from, df, dr, t - 1));
        lemma_first_piece_back(p, from, y, df, dr, t - 1, (fuel - 1) as nat);
    }
}

/// The captures along a ray land on squares from which the slider is the
/// first piece seen looking back.
proof fn lemma_ray_captures(p: Position, from: u8, cur: u8, df: int, dr: int, j: int, fuel: nat)
    requires
        p.pieces.len() == 64,
        unit_direction(df, dr),
        from < 64,
        0 <= j,
        j + fuel == 7,
        at_distance(from, cur, df, dr, j),
        empty_before(p, from, df, dr, j + 1),
        p.pieces[from as int].color() == Some(p.side),
    ensures
        forall|i: int|
            0 <= i < ray_moves(p, from, cur, df, dr, fuel).len() ==> {
                let m = #[trigger] ray_moves(p, from, cur, df, dr, fuel)[i];
                &&& m.from == from
                &&& m.move_type == MoveType::Normal
                &&& (p.pieces[m.to as int] != Piece::Empty ==> first_piece(p, m.to, -df, -dr, 7)
                    == p.pieces[from as int])
            },
    decreases fuel,
{
    if fuel > 0 {
        match square_offset(cur, df, dr) {
            Some(n) => {
                lemma_offset_coords(cur, df, dr, n);
                assert(at_distance(from, n, df, dr, j + 1));
                if p.pieces[n as int].color() != Some(p.side) {
                    if p.pieces[n as int] != Piece::Empty {
                        lemma_first_piece_back(p, from, n, df, dr, j + 1, 7);
                    } else {
                        assert forall|y: u8, u: int|
                            1 <= u < j + 2 && #[trigger] at_distance(from, y, df, dr, u) implies p.pieces[y as int]
                                == Piece::Empty by {
                            if u == j + 1 {
                                lemma_same_square(from, y, n, df, dr, u);
                            }
                        }
                        if fuel > 1 {
                            lemma_ray_captures(p, from, n, df, dr, j + 1, (fuel - 1) as nat);
                        }
                    }
                    let rest = if p.pieces[n as int].color() == Some(p.side.invert()) {
                        seq![]
                    } else {
                        ray_moves(p, from, n, df, dr, (fuel - 1) as nat)
                    };
                    let all = ray_moves(p, from, cur, df, dr, fuel);
                    assert(all == seq![normal_move(from, n)] + rest);
                    assert forall|i: int| 0 <= i < all.len() implies {
                        let m = #[trigger] all[i];
                        &&& m.from == from
                        &&& m.move_type == MoveType::Normal
                        &&& (p.pieces[m.to as int] != Piece::Empty ==> first_piece(p, m.to, -df, -dr, 7)
                            == p.pieces[from as int])
                    } by {
                        if i > 0 {
                            assert(all[i] == rest[i - 1]);
                        }
                    }
                }
            },
            None => {},
        }
    }
}

/// The direction opposite to slide direction `k` of a bishop or a rook.
pub open spec fn reverse_slide(rook: bool, k: usize) -> usize {
    if rook {
        match k {
            0 => 1usize,
            1 => 0usize,
            2 => 3usize,
            _ => 2usize,
        }
    } else {
        (3 - k) as usize
    }
}

/// A slider that may move like a rook (`rook`) or a bishop (otherwise).
pub open spec fn slides_as(piece: Piece, side: Color, rook: bool) -> bool {
    piece == side.queen() || (rook && piece == side.rook()) || (!rook && piece == side.bishop())
}

proof fn lemma_slider_captures(p: Position, square: u8, rook: bool, n: nat)
    requires
        p.pieces.len() == 64,
        square < 64,
        n <= 4,
        slides_as(p.pieces[square as int], p.side, rook),
    ensures
        all_captures_attacked(p, slider_moves_upto(p, square, rook, n)),
    decreases n,
{
    if n > 0 {
        lemma_slider_captures(p, square, rook, (n - 1) as nat);
        let k = (n - 1) as usize;
        let d = slide_direction(rook, k);
        let df = d.0 as int;
        let dr = d.1 as int;
        let back = reverse_slide(rook, k);
        assert(slide_direction(rook, back).0 as int == -df && slide_direction(rook, back).1 as int == -dr);
        assert(at_distance(square, square, df, dr, 0));
        lemma_ray_captures(p, square, square, df, dr, 0, 7);
        let r = ray_moves(p, square, square, df, dr, 7);
        assert forall|i: int| 0 <= i < r.len() implies capture_attacked(p, #[trigger] r[i]) by {
            let m = r[i];
            if p.pieces[m.to as int] != Piece::Empty {
                assert(slider_hits(
                    p,
                    m.to,
                    slide_direction(rook, back).0 as int,
                    slide_direction(rook, back).1 as int,
                    p.side,
                    rook,
                ));
            }
        }
        lemma_captures_concat(p, slider_moves_upto(p, square, rook, (n - 1) as nat), r);
    }
}

proof fn lemma_pawn_captures_attacked(p: Position, square: u8)
    requires
        p.pieces.len() == 64,
        square < 64,
        p.pieces[square as int] == p.side.pawn(),
    ensures
        all_captures_attacked(p, pawn_moves(p, square)),
{
    let dir = pawn_direction(p.side);
    match square_offset(square, 0, dir) {
        Some(t) => {
            if p.pieces[t as int] == Piece::Empty {
                let a = pawn_arrival(p.side, square, t);
                assert(all_captures_attacked(p, a)) by {
                    if t / 8 == 7 || t / 8 == 0 {
                        let s = promotion_moves(p.side, square, t);
                        assert(s[0].to == t && s[1].to == t && s[2].to == t && s[3].to == t);
                    }
                }
                let double = if square / 8 == pawn_start_rank(p.side) {
                    match square_offset(square, 0, 2 * dir) {
                        Some(t2) => if p.pieces[t2 as int] == Piece::Empty {
                            seq![Move { from: square, to: t2, move_type: MoveType::PawnDoubleStep }]
                        } else {
                            seq![]
                        },
                        None => seq![],
                    }
                } else {
                    seq![]
                };
                assert(all_captures_attacked(p, double));
                lemma_captures_concat(p, a, double);
            }
        },
        None => {},
    }
    assert(all_captures_attacked(p, pawn_pushes(p, square)));
    lemma_pawn_side_captures(p, square, -1);
    lemma_pawn_side_captures(p, square, 1);
    lemma_captures_concat(p, pawn_pushes(p, square), pawn_captures(p, square, -1));
    lemma_captures_concat(p, pawn_pushes(p, square) + pawn_captures(p, square, -1), pawn_captures(p, square, 1));
}

proof fn lemma_pawn_side_captures(p: Position, square: u8, df: int)
    requires
        p.pieces.len() == 64,
        square < 64,
        p.pieces[square as int] == p.side.pawn(),
        df == -1 || df == 1,
    ensures
        all_captures_attacked(p, pawn_captures(p, square, df)),
{
    let dir = pawn_direction(p.side);
    match square_offset(square, df, dir) {
        Some(t) => {
            lemma_offset_inverse(square, df, dir, t);
            assert(attacking_pawn_rank(p.side) == -dir);
            assert(piece_at_offset(p, t, -df, attacking_pawn_rank(p.side), p.side.pawn()));
            assert(attacked(p, t, p.side));
            let capture = if p.pieces[t as int].color() == Some(p.side.invert()) {
                pawn_arrival(p.side, square, t)
            } else {
                seq![]
            };
            assert(all_captures_attacked(p, capture)) by {
                if t / 8 == 7 || t / 8 == 0 {
                    let s = promotion_moves(p.side, square, t);
                    assert(s[0].to == t && s[1].to == t && s[2].to == t && s[3].to == t);
                }
            }
            let ep = if p.en_passant == Some(t) {
                seq![Move { from: square, to: t, move_type: MoveType::EnPassant }]
            } else {
                seq![]
            };
            assert(all_captures_attacked(p, ep));
            lemma_captures_concat(p, capture, ep);
        },
        None => {},
    }
}

proof fn lemma_piece_captures(p: Position, square: u8)
    requires
        p.pieces.len() == 64,
        square < 64,
    ensures
        all_captures_attacked(p, piece_moves(p, square)),
{
    let piece = p.pieces[square as int];
    let s = p.side;
    if piece == s.king() {
        lemma_king_captures(p, square, 8);
        let c = castling_moves(p);
        assert forall|i: int| 0 <= i < c.len() implies capture_attacked(p, #[trigger] c[i]) by {}
        lemma_captures_concat(p, king_steps_upto(p, square, 8), c);
    } else if piece == s.queen() {
        lemma_slider_captures(p, square, false, 4);
        lemma_slider_captures(p, square, true, 4);
        lemma_captures_concat(p, bishop_moves(p, square), rook_moves(p, square));
    } else if piece == s.bishop() {
        lemma_slider_captures(p, square, false, 4);
    } else if piece == s.knight() {
        lemma_knight_captures(p, square, 8);
    } else if piece == s.rook() {
        lemma_slider_captures(p, square, true, 4);
    } else if piece == s.pawn() {
        lemma_pawn_captures_attacked(p, square);
    }
}

/// Every capture that the piece rules allow lands on a square that the mover
/// attacks.
pub proof fn lemma_pseudo_captures_attacked(p: Position, n: nat)
    requires
        p.pieces.len() == 64,
        n <= 64,
    ensures
        all_captures_attacked(p, pseudo_moves_upto(p, n)),
    decreases n,
{
    if n > 0 {
        lemma_pseudo_captures_attacked(p, (n - 1) as nat);
        lemma_piece_captures(p, (n - 1) as u8);
        lemma_captures_concat(p, pseudo_moves_upto(p, (n - 1) as nat), piece_moves(p, (n - 1) as u8));
    }
}

} // verus!
