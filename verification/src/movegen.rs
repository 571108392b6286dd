use vstd::prelude::*;

use crate::board::{apply_move, make_bounds, Board, Position};
use crate::moves::{get_rank, offset_square, square_offset, Move, MoveType};
use crate::piece::{Color, Piece};

verus! {

// ---------------------------------------------------------------------------
// Offsets and directions
// ---------------------------------------------------------------------------

/// The eight knight jumps as (file, rank) offsets.
#[verifier::allow_in_spec]
pub fn knight_offset(k: usize) -> (i8, i8)
    returns
        (match k {
            0 => (1i8, 2i8),
            1 => (2i8, 1i8),
            2 => (2i8, -1i8),
            3 => (1i8, -2i8),
            4 => (-1i8, -2i8),
            5 => (-2i8, -1i8),
            6 => (-2i8, 1i8),
            _ => (-1i8, 2i8),
        }),
{
    match k {
        0 => (1, 2),
        1 => (2, 1),
        2 => (2, -1),
        3 => (1, -2),
        4 => (-1, -2),
        5 => (-2, -1),
        6 => (-2, 1),
        _ => (-1, 2),
    }
}

/// The eight king steps as (file, rank) offsets.
#[verifier::allow_in_spec]
pub fn king_offset(k: usize) -> (i8, i8)
    returns
        (match k {
            0 => (1i8, 0i8),
            1 => (1i8, 1i8),
            2 => (0i8, 1i8),
            3 => (-1i8, 1i8),
            4 => (-1i8, 0i8),
            5 => (-1i8, -1i8),
            6 => (0i8, -1i8),
            _ => (1i8, -1i8),
        }),
{
    match k {
        0 => (1, 0),
        1 => (1, 1),
        2 => (0, 1),
        3 => (-1, 1),
        4 => (-1, 0),
        5 => (-1, -1),
        6 => (0, -1),
        _ => (1, -1),
    }
}

/// The four directions a bishop (`rook == false`) or a rook (`rook == true`) slides in.
#[verifier::allow_in_spec]
pub fn slide_direction(rook: bool, k: usize) -> (i8, i8)
    returns
        (if rook {
            match k {
                0 => (1i8, 0i8),
                1 => (-1i8, 0i8),
                2 => (0i8, 1i8),
                _ => (0i8, -1i8),
            }
        } else {
            match k {
                0 => (1i8, 1i8),
                1 => (1i8, -1i8),
                2 => (-1i8, 1i8),
                _ => (-1i8, -1i8),
            }
        }),
{
    if rook {
        match k {
            0 => (1, 0),
            1 => (-1, 0),
            2 => (0, 1),
            _ => (0, -1),
        }
    } else {
        match k {
            0 => (1, 1),
            1 => (1, -1),
            2 => (-1, 1),
            _ => (-1, -1),
        }
    }
}

/// A direction that steps at most one file and one rank, and moves.
pub open spec fn unit_direction(df: int, dr: int) -> bool {
    -1 <= df <= 1 && -1 <= dr <= 1 && !(df == 0 && dr == 0)
}

// ---------------------------------------------------------------------------
// Attacks
// ---------------------------------------------------------------------------

/// The square at the given offset from `square` holds `piece`.
pub open spec fn piece_at_offset(p: Position, square: u8, df: int, dr: int, piece: Piece) -> bool {
    match square_offset(square, df, dr) {
        Some(s) => p.pieces[s as int] == piece,
        None => false,
    }
}

/// The first piece met when walking from `cur` in direction (`df`, `dr`), at
/// most `fuel` steps; `Empty` when the walk leaves the board first.
pub open spec fn first_piece(p: Position, cur: u8, df: int, dr: int, fuel: nat) -> Piece
    decreases fuel,
{
    if fuel == 0 {
        Piece::Empty
    } else {
        match square_offset(cur, df, dr) {
            None => Piece::Empty,
            Some(n) => if p.pieces[n as int] == Piece::Empty {
                first_piece(p, n, df, dr, (fuel - 1) as nat)
            } else {
                p.pieces[n as int]
            },
        }
    }
}

/// A queen of `color`, or a rook (when `rook`) or bishop (otherwise) of
/// `color`, is the first piece seen from `square` in the direction.
pub open spec fn slider_hits(p: Position, square: u8, df: int, dr: int, color: Color, rook: bool) -> bool {
    let f = first_piece(p, square, df, dr, 7);
    f == color.queen() || (rook && f == color.rook()) || (!rook && f == color.bishop())
}

/// The direction in which pawns of `color` capture, as a rank offset seen
/// from the attacked square.
pub open spec fn attacking_pawn_rank(color: Color) -> int {
    match color {
        Color::White => -1,
        Color::Black => 1,
    }
}

/// A piece of `color` attacks `square`: a pawn diagonally behind it (from
/// `color`'s view), a knight a jump away, the king a step away, or a slider
/// with a free line to it.
pub open spec fn attacked(p: Position, square: u8, color: Color) -> bool {
    ||| piece_at_offset(p, square, -1, attacking_pawn_rank(color), color.pawn())
    ||| piece_at_offset(p, square, 1, attacking_pawn_rank(color), color.pawn())
    ||| exists|k: usize|
        0 <= k < 8 && #[trigger] piece_at_offset(
            p,
            square,
            knight_offset(k).0 as int,
            knight_offset(k).1 as int,
            color.knight(),
        )
    ||| exists|k: usize|
        0 <= k < 8 && #[trigger] piece_at_offset(
            p,
            square,
            king_offset(k).0 as int,
            king_offset(k).1 as int,
            color.king(),
        )
    ||| exists|k: usize|
        0 <= k < 4 && #[trigger] slider_hits(
            p,
            square,
            slide_direction(true, k).0 as int,
            slide_direction(true, k).1 as int,
            color,
            true,
        )
    ||| exists|k: usize|
        0 <= k < 4 && #[trigger] slider_hits(
            p,
            square,
            slide_direction(false, k).0 as int,
            slide_direction(false, k).1 as int,
            color,
            false,
        )
}

/// `i` is the first square holding `piece`.
pub open spec fn is_first_index(pieces: Seq<Piece>, piece: Piece, i: int) -> bool {
    &&& 0 <= i < pieces.len()
    &&& pieces[i] == piece
    &&& forall|j: int| 0 <= j < i ==> pieces[j] != piece
}

/// The placement holds a king of `color`.
pub open spec fn has_king(pieces: Seq<Piece>, color: Color) -> bool {
    exists|i: int| 0 <= i < pieces.len() && pieces[i] == color.king()
}

/// The first square holding the king of `color`.
pub open spec fn king_square(pieces: Seq<Piece>, color: Color) -> int {
    choose|i: int| is_first_index(pieces, color.king(), i)
}

/// The king of `color` (the first one, scanning from a1) is attacked by the other side.
pub open spec fn in_check(p: Position, color: Color) -> bool {
    attacked(p, king_square(p.pieces, color) as u8, color.invert())
}

// ---------------------------------------------------------------------------
// Move lists
// ---------------------------------------------------------------------------

pub open spec fn normal_move(from: u8, to: u8) -> Move {
    Move { from, to, move_type: MoveType::Normal }
}

/// The move to the square at the given offset, when it is on the board and not
/// held by a piece of the side to move.
pub open spec fn step_move(p: Position, square: u8, df: int, dr: int) -> Seq<Move> {
    match square_offset(square, df, dr) {
        Some(d) => if p.pieces[d as int].color() != Some(p.side) {
            seq![normal_move(square, d)]
        } else {
            seq![]
        },
        None => seq![],
    }
}

/// Knight moves along the first `n` knight jumps.
pub open spec fn knight_moves_upto(p: Position, square: u8, n: nat) -> Seq<Move>
    decreases n,
{
    if n == 0 {
        seq![]
    } else {
        let o = knight_offset((n - 1) as usize);
        knight_moves_upto(p, square, (n - 1) as nat) + step_move(p, square, o.0 as int, o.1 as int)
    }
}

pub open spec fn knight_moves(p: Position, square: u8) -> Seq<Move> {
    knight_moves_upto(p, square, 8)
}

/// King steps along the first `n` king offsets.
pub open spec fn king_steps_upto(p: Position, square: u8, n: nat) -> Seq<Move>
    decreases n,
{
    if n == 0 {
        seq![]
    } else {
        let o = king_offset((n - 1) as usize);
        king_steps_upto(p, square, (n - 1) as nat) + step_move(p, square, o.0 as int, o.1 as int)
    }
}

/// The moves of a slider from `from` along a ray, continuing from `cur`: every
/// empty square, then the first enemy piece; a piece of the mover stops it.
pub open spec fn ray_moves(p: Position, from: u8, cur: u8, df: int, dr: int, fuel: nat) -> Seq<Move>
    decreases fuel,
{
    if fuel == 0 {
        seq![]
    } else {
        match square_offset(cur, df, dr) {
            None => seq![],
            Some(n) => if p.pieces[n as int].color() != Some(p.side) {
                seq![normal_move(from, n)] + if p.pieces[n as int].color() == Some(p.side.invert()) {
                    seq![]
                } else {
                    ray_moves(p, from, n, df, dr, (fuel - 1) as nat)
                }
            } else {
                seq![]
            },
        }
    }
}

/// Slider moves along the first `n` directions of a bishop or a rook.
pub open spec fn slider_moves_upto(p: Position, square: u8, rook: bool, n: nat) -> Seq<Move>
    decreases n,
{
    if n == 0 {
        seq![]
    } else {
        let d = slide_direction(rook, (n - 1) as usize);
        slider_moves_upto(p, square, rook, (n - 1) as nat) + ray_moves(
            p,
            square,
            square,
            d.0 as int,
            d.1 as int,
            7,
        )
    }
}

pub open spec fn bishop_moves(p: Position, square: u8) -> Seq<Move> {
    slider_moves_upto(p, square, false, 4)
}

pub open spec fn rook_moves(p: Position, square: u8) -> Seq<Move> {
    slider_moves_upto(p, square, true, 4)
}

pub open spec fn queen_moves(p: Position, square: u8) -> Seq<Move> {
    bishop_moves(p, square) + rook_moves(p, square)
}

/// The rank offset of a pawn step of `side`.
pub open spec fn pawn_direction(side: Color) -> int {
    match side {
        Color::White => 1,
        Color::Black => -1,
    }
}

/// The rank from which pawns of `side` may step twice.
pub open spec fn pawn_start_rank(side: Color) -> int {
    match side {
        Color::White => 1,
        Color::Black => 6,
    }
}

pub open spec fn promotion_move(from: u8, to: u8, piece: Piece) -> Move {
    Move { from, to, move_type: MoveType::Promotion(piece) }
}

/// The four promotions, in the order bishop, knight, rook, queen.
pub open spec fn promotion_moves(side: Color, from: u8, to: u8) -> Seq<Move> {
    seq![
        promotion_move(from, to, side.bishop()),
        promotion_move(from, to, side.knight()),
        promotion_move(from, to, side.rook()),
        promotion_move(from, to, side.queen()),
    ]
}

/// A pawn move to `to`: the four promotions on the first or last rank, a
/// normal move elsewhere.
pub open spec fn pawn_arrival(side: Color, from: u8, to: u8) -> Seq<Move> {
    if to / 8 == 7 || to / 8 == 0 {
        promotion_moves(side, from, to)
    } else {
        seq![normal_move(from, to)]
    }
}

/// The forward moves of a pawn: one step onto an empty square, and from the
/// start rank two steps when both squares are empty.
pub open spec fn pawn_pushes(p: Position, square: u8) -> Seq<Move> {
    let dir = pawn_direction(p.side);
    match square_offset(square, 0, dir) {
        Some(t) => if p.pieces[t as int] == Piece::Empty {
            pawn_arrival(p.side, square, t) + if square / 8 == pawn_start_rank(p.side) {
                match square_offset(square, 0, 2 * dir) {
                    Some(t2) => if p.pieces[t2 as int] == Piece::Empty {
                        seq![Move { from: square, to: t2, move_type: MoveType::PawnDoubleStep }]
                    } else {
                        seq![]
                    },
                    None => seq![],
                }
            } else {
                seq![]
            }
        } else {
            seq![]
        },
        None => seq![],
    }
}

/// The diagonal moves of a pawn towards file offset `df`: a capture of an
/// enemy piece, then an en-passant capture when the square is the
/// en-passant target.
pub open spec fn pawn_captures(p: Position, square: u8, df: int) -> Seq<Move> {
    match square_offset(square, df, pawn_direction(p.side)) {
        Some(t) => (if p.pieces[t as int].color() == Some(p.side.invert()) {
            pawn_arrival(p.side, square, t)
        } else {
            seq![]
        }) + if p.en_passant == Some(t) {
            seq![Move { from: square, to: t, move_type: MoveType::EnPassant }]
        } else {
            seq![]
        },
        None => seq![],
    }
}

pub open spec fn pawn_moves(p: Position, square: u8) -> Seq<Move> {
    pawn_pushes(p, square) + pawn_captures(p, square, -1) + pawn_captures(p, square, 1)
}

/// The castling moves of the side to move: allowed by the castling right, with
/// the king's square and the squares it crosses and lands on not attacked, and
/// the squares between king and rook empty.
pub open spec fn castling_moves(p: Position) -> Seq<Move> {
    if p.side == Color::White {
        (if p.white_king && !attacked(p, 5, Color::Black) && !attacked(p, 6, Color::Black)
            && !attacked(p, 4, Color::Black) && p.pieces[5] == Piece::Empty && p.pieces[6]
            == Piece::Empty {
            seq![Move { from: 4, to: 6, move_type: MoveType::CastleKingside }]
        } else {
            seq![]
        }) + if p.white_queen && !attacked(p, 2, Color::Black) && !attacked(p, 3, Color::Black)
            && !attacked(p, 4, Color::Black) && p.pieces[1] == Piece::Empty && p.pieces[2]
            == Piece::Empty && p.pieces[3] == Piece::Empty {
            seq![Move { from: 4, to: 2, move_type: MoveType::CastleQueenside }]
        } else {
            seq![]
        }
    } else {
        (if p.black_king && !attacked(p, 62, Color::White) && !attacked(p, 61, Color::White)
            && !attacked(p, 60, Color::White) && p.pieces[61] == Piece::Empty && p.pieces[62]
            == Piece::Empty {
            seq![Move { from: 60, to: 62, move_type: MoveType::CastleKingside }]
        } else {
            seq![]
        }) + if p.black_queen && !attacked(p, 58, Color::White) && !attacked(p, 59, Color::White)
            && !attacked(p, 60, Color::White) && p.pieces[59] == Piece::Empty && p.pieces[58]
            == Piece::Empty && p.pieces[57] == Piece::Empty {
            seq![Move { from: 60, to: 58, move_type: MoveType::CastleQueenside }]
        } else {
            seq![]
        }
    }
}

pub open spec fn king_moves(p: Position, square: u8) -> Seq<Move> {
    king_steps_upto(p, square, 8) + castling_moves(p)
}

/// The moves of the piece on `square`, when it belongs to the side to move.
pub open spec fn piece_moves(p: Position, square: u8) -> Seq<Move> {
    let piece = p.pieces[square as int];
    if piece == p.side.king() {
        king_moves(p, square)
    } else if piece == p.side.queen() {
        queen_moves(p, square)
    } else if piece == p.side.bishop() {
        bishop_moves(p, square)
    } else if piece == p.side.knight() {
        knight_moves(p, square)
    } else if piece == p.side.rook() {
        rook_moves(p, square)
    } else if piece == p.side.pawn() {
        pawn_moves(p, square)
    } else {
        seq![]
    }
}

/// The moves of the pieces on the first `n` squares.
pub open spec fn pseudo_moves_upto(p: Position, n: nat) -> Seq<Move>
    decreases n,
{
    if n == 0 {
        seq![]
    } else {
        pseudo_moves_upto(p, (n - 1) as nat) + piece_moves(p, (n - 1) as u8)
    }
}

/// Every move of the side to move by the piece rules, square by square from a1,
/// before the own king's safety is checked.
pub open spec fn pseudo_moves(p: Position) -> Seq<Move> {
    pseudo_moves_upto(p, 64)
}

/// After the move the mover's king is not attacked.
pub open spec fn leaves_king_safe(p: Position, m: Move) -> bool {
    !in_check(apply_move(p, m), p.side)
}

/// The moves of the list that leave the mover's king safe, in order.
pub open spec fn safe_moves(p: Position, moves: Seq<Move>) -> Seq<Move>
    decreases moves.len(),
{
    if moves.len() == 0 {
        seq![]
    } else {
        safe_moves(p, moves.drop_last()) + if leaves_king_safe(p, moves.last()) {
            seq![moves.last()]
        } else {
            seq![]
        }
    }
}

/// The legal moves of the side to move, in the order the generator finds them.
pub open spec fn legal_moves(p: Position) -> Seq<Move> {
    safe_moves(p, pseudo_moves(p))
}

/// Every move of the list touches only squares on the board.
pub open spec fn all_in_bounds(side: Color, moves: Seq<Move>) -> bool {
    forall|i: int| 0 <= i < moves.len() ==> make_bounds(side, #[trigger] moves[i])
}

/// Making any pseudo-legal move keeps a king of the mover on the board (the
/// generator looks for it to test the move's legality).
pub open spec fn king_survives_moves(p: Position) -> bool {
    forall|i: int|
        0 <= i < pseudo_moves(p).len() ==> has_king(
            apply_move(p, #[trigger] pseudo_moves(p)[i]).pieces,
            p.side,
        )
}

/// Where a walk along a unit direction stands after `j` steps from `square`.
pub open spec fn walked(square: u8, current: u8, df: int, dr: int, j: int) -> bool {
    &&& 0 <= j <= 7
    &&& current < 64
    &&& (df == 1 ==> current % 8 == square % 8 + j)
    &&& (df == -1 ==> current % 8 == square % 8 - j)
    &&& (df == 0 ==> current % 8 == square % 8)
    &&& (dr == 1 ==> current / 8 == square / 8 + j)
    &&& (dr == -1 ==> current / 8 == square / 8 - j)
    &&& (dr == 0 ==> current / 8 == square / 8)
}

pub proof fn lemma_offset_coords(current: u8, df: int, dr: int, next: u8)
    requires
        current < 64,
        square_offset(current, df, dr) == Some(next),
    ensures
        next < 64,
        next % 8 == current % 8 + df,
        next / 8 == current / 8 + dr,
{
    let f = current % 8 + df;
    let r = current / 8 + dr;
    assert(next == r * 8 + f);
    assert((r * 8 + f) % 8 == f && (r * 8 + f) / 8 == r) by (nonlinear_arith)
        requires
            0 <= f < 8,
            0 <= r < 8,
    ;
}

/// One more step of a walk that stays on the board: at most seven steps are
/// ever taken.
proof fn lemma_walk_step(square: u8, current: u8, df: int, dr: int, j: int, next: u8)
    requires
        square < 64,
        unit_direction(df, dr),
        walked(square, current, df, dr, j),
        square_offset(current, df, dr) == Some(next),
    ensures
        j + 1 <= 7,
        walked(square, next, df, dr, j + 1),
{
    lemma_offset_coords(current, df, dr, next);
}

pub(crate) proof fn lemma_first_index_unique(pieces: Seq<Piece>, piece: Piece, i: int, j: int)
    requires
        is_first_index(pieces, piece, i),
        is_first_index(pieces, piece, j),
    ensures
        i == j,
{
    if i < j {
        assert(pieces[i] != piece);
    } else if j < i {
        assert(pieces[j] != piece);
    }
}

proof fn lemma_bounds_concat(side: Color, a: Seq<Move>, b: Seq<Move>)
    requires
        all_in_bounds(side, a),
        all_in_bounds(side, b),
    ensures
        all_in_bounds(side, a + b),
{
    assert forall|i: int| 0 <= i < (a + b).len() implies make_bounds(side, #[trigger] (a + b)[i]) by {
        if i < a.len() {
            assert((a + b)[i] == a[i]);
        } else {
            assert((a + b)[i] == b[i - a.len()]);
        }
    }
}

impl Board {
    /// Knight moves from `square` onto squares not held by the side to move.
    fn generate_knight_moves(&self, square: u8) -> (res: Vec<Move>)
        requires
            square < 64,
        ensures
            res@ == knight_moves(self.pos(), square),
            all_in_bounds(self.side_to_move, res@),
    {
        let mut possible_moves: Vec<Move> = Vec::new();
        let mut k: usize = 0;
        while k < 8
            invariant
                k <= 8,
                square < 64,
                possible_moves@ == knight_moves_upto(self.pos(), square, k as nat),
                all_in_bounds(self.side_to_move, possible_moves@),
            decreases 8 - k,
        {
            let (file_offset, rank_offset) = knight_offset(k);
            if let Some(destination) = offset_square(square, file_offset, rank_offset) {
                if self.pieces[destination as usize].color() != Some(self.side_to_move) {
                    possible_moves.push(Move { from: square, to: destination, move_type: MoveType::Normal });
                }
            }
            k = k + 1;
        }
        possible_moves
    }

    /// Bishop (`rook == false`) or rook (`rook == true`) moves from `square`:
    /// along each direction every empty square and the first enemy piece.
    fn generate_slider_moves(&self, square: u8, rook: bool) -> (res: Vec<Move>)
        requires
            square < 64,
        ensures
            res@ == slider_moves_upto(self.pos(), square, rook, 4),
            all_in_bounds(self.side_to_move, res@),
    {
        let ghost p = self.pos();
        let mut possible_moves: Vec<Move> = Vec::new();
        let mut k: usize = 0;
        while k < 4
            invariant
                k <= 4,
                square < 64,
                p == self.pos(),
                possible_moves@ == slider_moves_upto(p, square, rook, k as nat),
                all_in_bounds(self.side_to_move, possible_moves@),
            decreases 4 - k,
        {
            let (file_offset, rank_offset) = slide_direction(rook, k);
            let ghost df = file_offset as int;
            let ghost dr = rank_offset as int;
            let ghost before = possible_moves@;
            let mut current = square;
            let ghost mut j: int = 0;
            loop
                invariant_except_break
                    walked(square, current, df, dr, j),
                    before + ray_moves(p, square, square, df, dr, 7) == possible_moves@ + ray_moves(
                        p,
                        square,
                        current,
                        df,
                        dr,
                        (7 - j) as nat,
                    ),
                invariant
                    square < 64,
                    p == self.pos(),
                    unit_direction(df, dr),
                    df == file_offset,
                    dr == rank_offset,
                    all_in_bounds(self.side_to_move, possible_moves@),
                ensures
                    possible_moves@ == before + ray_moves(p, square, square, df, dr, 7),
                decreases 7 - j,
            {
                let opt_next = offset_square(current, file_offset, rank_offset);
                match opt_next {
                    None => {
                        assert(ray_moves(p, square, current, df, dr, (7 - j) as nat) =~= seq![]);
                        assert(possible_moves@ =~= before + ray_moves(p, square, square, df, dr, 7));
                        break;
                    },
                    Some(next) => {
                        proof {
                            lemma_walk_step(square, current, df, dr, j, next);
                        }
                        let ghost rest = ray_moves(p, square, next, df, dr, (7 - j - 1) as nat);
                        let ghost old_moves = possible_moves@;
                        current = next;
                        proof {
                            j = j + 1;
                        }
                        if self.pieces[current as usize].color() != Some(self.side_to_move) {
                            possible_moves.push(Move { from: square, to: current, move_type: MoveType::Normal });
                            proof {
                                lemma_bounds_concat(self.side_to_move, old_moves, seq![normal_move(square, current)]);
                                assert(possible_moves@ =~= old_moves + seq![normal_move(square, current)]);
                            }
                            if self.pieces[current as usize].color() == Some(self.side_to_move.invert()) {
                                assert(possible_moves@ =~= before + ray_moves(p, square, square, df, dr, 7));
                                break;
                            }
                            assert(possible_moves@ + rest =~= old_moves + (seq![normal_move(square, current)] + rest));
                        } else {
                            assert(possible_moves@ =~= before + ray_moves(p, square, square, df, dr, 7));
                            break;
                        }
                    },
                }
            }
            k = k + 1;
        }
        possible_moves
    }

    fn generate_bishop_moves(&self, square: u8) -> (res: Vec<Move>)
        requires
            square < 64,
        ensures
            res@ == bishop_moves(self.pos(), square),
            all_in_bounds(self.side_to_move, res@),
    {
        self.generate_slider_moves(square, false)
    }

    fn generate_rook_moves(&self, square: u8) -> (res: Vec<Move>)
        requires
            square < 64,
        ensures
            res@ == rook_moves(self.pos(), square),
            all_in_bounds(self.side_to_move, res@),
    {
        self.generate_slider_moves(square, true)
    }

    /// A queen of `color`, or a rook (`rook_direction`) or bishop (otherwise)
    /// of `color`, is the first piece on one of the four lines from `square`.
    fn is_slider_attack(&self, square: u8, color: Color, rook_direction: bool) -> (res: bool)
        requires
            square < 64,
        ensures
            res == exists|k: usize|
                0 <= k < 4 && #[trigger] slider_hits(
                    self.pos(),
                    square,
                    slide_direction(rook_direction, k).0 as int,
                    slide_direction(rook_direction, k).1 as int,
                    color,
                    rook_direction,
                ),
    {
        let ghost p = self.pos();
        let mut k: usize = 0;
        while k < 4
            invariant
                k <= 4,
                square < 64,
                p == self.pos(),
                forall|kk: usize|
                    0 <= kk < k ==> !#[trigger] slider_hits(
                        p,
                        square,
                        slide_direction(rook_direction, kk).0 as int,
                        slide_direction(rook_direction, kk).1 as int,
                        color,
                        rook_direction,
                    ),
            decreases 4 - k,
        {
            let direction = slide_direction(rook_direction, k);
            let (file_offset, rank_offset) = direction;
            let ghost df = file_offset as int;
            let ghost dr = rank_offset as int;
            let mut current = square;
            let ghost mut j: int = 0;
            loop
                invariant_except_break
                    walked(square, current, df, dr, j),
                    first_piece(p, square, df, dr, 7) == first_piece(p, current, df, dr, (7 - j) as nat),
                invariant
                    square < 64,
                    p == self.pos(),
                    unit_direction(df, dr),
                    df == file_offset,
                    dr == rank_offset,
                    direction == slide_direction(rook_direction, k),
                    k < 4,
                    file_offset == direction.0,
                    rank_offset == direction.1,
                ensures
                    !slider_hits(p, square, df, dr, color, rook_direction),
                decreases 7 - j,
            {
                let opt_next = offset_square(current, file_offset, rank_offset);
                match opt_next {
                    None => {
                        break;
                    },
                    Some(next) => {
                        proof {
                            lemma_walk_step(square, current, df, dr, j, next);
                        }
                        let ghost prev = current;
                        let ghost fuel = (7 - j) as nat;
                        current = next;
                        proof {
                            j = j + 1;
                        }
                        let piece = self.pieces[current as usize];
                        if piece == Piece::Empty {
                            continue;
                        }
                        assert(first_piece(p, prev, df, dr, fuel) == piece);
                        assert(first_piece(p, square, df, dr, 7) == piece);
                        if piece == color.queen() {
                            assert(slider_hits(
                                p,
                                square,
                                slide_direction(rook_direction, k).0 as int,
                                slide_direction(rook_direction, k).1 as int,
                                color,
                                rook_direction,
                            ));
                            return true;
                        }
                        if rook_direction && piece == color.rook() {
                            assert(slider_hits(
                                p,
                                square,
                                slide_direction(rook_direction, k).0 as int,
                                slide_direction(rook_direction, k).1 as int,
                                color,
                                rook_direction,
                            ));
                            return true;
                        }
                        if !rook_direction && piece == color.bishop() {
                            assert(slider_hits(
                                p,
                                square,
                                slide_direction(rook_direction, k).0 as int,
                                slide_direction(rook_direction, k).1 as int,
                                color,
                                rook_direction,
                            ));
                            return true;
                        }
                        break;
                    },
                }
            }
            k = k + 1;
        }
        false
    }

    /// Some piece of `color` attacks `square`.
    fn is_square_attacked(&self, square: u8, color: Color) -> (res: bool)
        requires
            square < 64,
        ensures
            res == attacked(self.pos(), square, color),
    {
        let ghost p = self.pos();
        // Pawns: white pawns capture upwards, so they attack from one rank below.
        let pawn_rank_direction: i8 = match color {
            Color::White => -1,
            Color::Black => 1,
        };
        if let Some(pawn_square) = offset_square(square, -1, pawn_rank_direction) {
            if self.pieces[pawn_square as usize] == color.pawn() {
                return true;
            }
        }
        if let Some(pawn_square) = offset_square(square, 1, pawn_rank_direction) {
            if self.pieces[pawn_square as usize] == color.pawn() {
                return true;
            }
        }
        // Knights
        let mut k: usize = 0;
        while k < 8
            invariant
                k <= 8,
                p == self.pos(),
                forall|kk: usize|
                    0 <= kk < k ==> !#[trigger] piece_at_offset(
                        p,
                        square,
                        knight_offset(kk).0 as int,
                        knight_offset(kk).1 as int,
                        color.knight(),
                    ),
            decreases 8 - k,
        {
            let (file_offset, rank_offset) = knight_offset(k);
            if let Some(source) = offset_square(square, file_offset, rank_offset) {
                if self.pieces[source as usize] == color.knight() {
                    assert(piece_at_offset(p, square, knight_offset(k).0 as int, knight_offset(k).1 as int, color.knight()));
                    return true;
                }
            }
            k = k + 1;
        }
        // King
        let mut k: usize = 0;
        while k < 8
            invariant
                k <= 8,
                p == self.pos(),
                forall|kk: usize|
                    0 <= kk < k ==> !#[trigger] piece_at_offset(
                        p,
                        square,
                        king_offset(kk).0 as int,
                        king_offset(kk).1 as int,
                        color.king(),
                    ),
            decreases 8 - k,
        {
            let (file_offset, rank_offset) = king_offset(k);
            if let Some(source) = offset_square(square, file_offset, rank_offset) {
                if self.pieces[source as usize] == color.king() {
                    assert(piece_at_offset(p, square, king_offset(k).0 as int, king_offset(k).1 as int, color.king()));
                    return true;
                }
            }
            k = k + 1;
        }
        // Rooks and queens, then bishops and queens
        if self.is_slider_attack(square, color, true) {
            return true;
        }
        if self.is_slider_attack(square, color, false) {
            return true;
        }
        false
    }

    /// Appends the four promotions of a pawn moving from `square` to `pawn_square`.
    fn _generate_promotion_moves(&self, square: u8, pawn_square: u8, possible_moves: Vec<Move>) -> (res: Vec<Move>)
        requires
            square < 64,
            pawn_square < 64,
            all_in_bounds(self.side_to_move, possible_moves@),
        ensures
            res@ == possible_moves@ + promotion_moves(self.side_to_move, square, pawn_square),
            all_in_bounds(self.side_to_move, res@),
    {
        let mut possible_moves = possible_moves;
        let ghost start = possible_moves@;
        possible_moves.push(Move { from: square, to: pawn_square, move_type: MoveType::Promotion(self.side_to_move.bishop()) });
        possible_moves.push(Move { from: square, to: pawn_square, move_type: MoveType::Promotion(self.side_to_move.knight()) });
        possible_moves.push(Move { from: square, to: pawn_square, move_type: MoveType::Promotion(self.side_to_move.rook()) });
        possible_moves.push(Move { from: square, to: pawn_square, move_type: MoveType::Promotion(self.side_to_move.queen()) });
        assert(possible_moves@ =~= start + promotion_moves(self.side_to_move, square, pawn_square));
        possible_moves
    }

    /// Pawn moves from `square`: single and double steps, captures (with
    /// promotion on the last rank) and en-passant captures.
    fn generate_pawn_moves(&self, square: u8) -> (res: Vec<Move>)
        requires
            square < 64,
        ensures
            res@ == pawn_moves(self.pos(), square),
            all_in_bounds(self.side_to_move, res@),
    {
        let ghost p = self.pos();
        let mut possible_moves: Vec<Move> = Vec::new();
        let pawn_rank_direction: i8 = match self.side_to_move {
            Color::White => 1,
            Color::Black => -1,
        };
        // step by one
        if let Some(pawn_square) = offset_square(square, 0, pawn_rank_direction) {
            if self.pieces[pawn_square as usize] == Piece::Empty {
                if get_rank(pawn_square) == 7 || get_rank(pawn_square) == 0 {
                    possible_moves = self._generate_promotion_moves(square, pawn_square, possible_moves);
                } else {
                    possible_moves.push(Move { from: square, to: pawn_square, move_type: MoveType::Normal });
                }
                assert(possible_moves@ =~= pawn_arrival(p.side, square, pawn_square));
                // step by two
                let start_rank: u8 = match self.side_to_move {
                    Color::White => 1,
                    Color::Black => 6,
                };
                if get_rank(square) == start_rank {
                    if let Some(pawn_square2) = offset_square(square, 0, pawn_rank_direction * 2) {
                        if self.pieces[pawn_square2 as usize] == Piece::Empty {
                            possible_moves.push(Move { from: square, to: pawn_square2, move_type: MoveType::PawnDoubleStep });
                        }
                    }
                }
            }
        }
        assert(possible_moves@ =~= pawn_pushes(p, square));
        // captures
        let mut k: usize = 0;
        while k < 2
            invariant
                k <= 2,
                square < 64,
                p == self.pos(),
                pawn_rank_direction as int == pawn_direction(p.side),
                possible_moves@ == pawn_pushes(p, square) + (if k == 0 {
                    seq![]
                } else if k == 1 {
                    pawn_captures(p, square, -1)
                } else {
                    pawn_captures(p, square, -1) + pawn_captures(p, square, 1)
                }),
                all_in_bounds(self.side_to_move, possible_moves@),
            decreases 2 - k,
        {
            let file_offset: i8 = if k == 0 { -1 } else { 1 };
            possible_moves = self.pawn_capture_moves(square, file_offset, pawn_rank_direction, possible_moves);
            k = k + 1;
        }
        possible_moves
    }

    /// Appends the diagonal moves of the pawn on `square` towards `file_offset`:
    /// the capture of an enemy piece, then the en-passant capture.
    fn pawn_capture_moves(&self, square: u8, file_offset: i8, pawn_rank_direction: i8, possible_moves: Vec<Move>) -> (res: Vec<Move>)
        requires
            square < 64,
            file_offset == -1 || file_offset == 1,
            pawn_rank_direction as int == pawn_direction(self.side_to_move),
            all_in_bounds(self.side_to_move, possible_moves@),
        ensures
            res@ == possible_moves@ + pawn_captures(self.pos(), square, file_offset as int),
            all_in_bounds(self.side_to_move, res@),
    {
        let ghost p = self.pos();
        let mut possible_moves = possible_moves;
        let ghost before = possible_moves@;
        if let Some(pawn_square) = offset_square(square, file_offset, pawn_rank_direction) {
            proof {
                lemma_offset_coords(square, file_offset as int, pawn_rank_direction as int, pawn_square);
            }
            if self.pieces[pawn_square as usize].color() == Some(self.side_to_move.invert()) {
                if get_rank(pawn_square) == 7 || get_rank(pawn_square) == 0 {
                    possible_moves = self._generate_promotion_moves(square, pawn_square, possible_moves);
                } else {
                    let ghost b0 = possible_moves@;
                    possible_moves.push(Move { from: square, to: pawn_square, move_type: MoveType::Normal });
                    proof {
                        lemma_bounds_concat(self.side_to_move, b0, seq![normal_move(square, pawn_square)]);
                        assert(possible_moves@ =~= b0 + seq![normal_move(square, pawn_square)]);
                    }
                }
            }
            let ghost b1 = possible_moves@;
            assert(b1 =~= before + (if p.pieces[pawn_square as int].color() == Some(p.side.invert()) {
                pawn_arrival(p.side, square, pawn_square)
            } else {
                seq![]
            }));
            // en passant
            if let Some(en_square) = self.en_passant_target_square {
                if pawn_square == en_square {
                    let ep = Move { from: square, to: pawn_square, move_type: MoveType::EnPassant };
                    possible_moves.push(ep);
                    proof {
                        lemma_bounds_concat(self.side_to_move, b1, seq![ep]);
                        assert(possible_moves@ =~= b1 + seq![ep]);
                    }
                }
            }
            assert(possible_moves@ =~= before + pawn_captures(p, square, file_offset as int));
        }
        possible_moves
    }

    /// King steps onto squares not held by the side to move, then castling.
    fn generate_king_moves(&self, square: u8) -> (res: Vec<Move>)
        requires
            square < 64,
        ensures
            res@ == king_moves(self.pos(), square),
            all_in_bounds(self.side_to_move, res@),
    {
        let ghost p = self.pos();
        let mut possible_moves: Vec<Move> = Vec::new();
        let mut k: usize = 0;
        while k < 8
            invariant
                k <= 8,
                square < 64,
                p == self.pos(),
                possible_moves@ == king_steps_upto(p, square, k as nat),
                all_in_bounds(self.side_to_move, possible_moves@),
            decreases 8 - k,
        {
            let (file_offset, rank_offset) = king_offset(k);
            if let Some(destination) = offset_square(square, file_offset, rank_offset) {
                if self.pieces[destination as usize].color() != Some(self.side_to_move) {
                    possible_moves.push(Move { from: square, to: destination, move_type: MoveType::Normal });
                }
            }
            k = k + 1;
        }
        let ghost steps = possible_moves@;
        // castling is possible while king and rook have neither moved nor been taken
        if self.side_to_move == Color::White {
            if self.white_king_castling_possible {
                if !self.is_square_attacked(5, Color::Black) && !self.is_square_attacked(6, Color::Black)
                    && !self.is_square_attacked(4, Color::Black) {
                    if self.pieces[5] == Piece::Empty && self.pieces[6] == Piece::Empty {
                        possible_moves.push(Move { from: 4, to: 6, move_type: MoveType::CastleKingside });
                    }
                }
            }
            let ghost mid = possible_moves@;
            if self.white_queen_castling_possible {
                if !self.is_square_attacked(2, Color::Black) && !self.is_square_attacked(3, Color::Black)
                    && !self.is_square_attacked(4, Color::Black) {
                    if self.pieces[1] == Piece::Empty && self.pieces[2] == Piece::Empty && self.pieces[3]
                        == Piece::Empty {
                        possible_moves.push(Move { from: 4, to: 2, move_type: MoveType::CastleQueenside });
                    }
                }
            }
            assert(possible_moves@ =~= steps + castling_moves(p));
        } else {
            if self.black_king_castling_possible {
                if !self.is_square_attacked(62, Color::White) && !self.is_square_attacked(61, Color::White)
                    && !self.is_square_attacked(60, Color::White) {
                    if self.pieces[61] == Piece::Empty && self.pieces[62] == Piece::Empty {
                        possible_moves.push(Move { from: 60, to: 62, move_type: MoveType::CastleKingside });
                    }
                }
            }
            if self.black_queen_castling_possible {
                if !self.is_square_attacked(58, Color::White) && !self.is_square_attacked(59, Color::White)
                    && !self.is_square_attacked(60, Color::White) {
                    if self.pieces[59] == Piece::Empty && self.pieces[58] == Piece::Empty && self.pieces[57]
                        == Piece::Empty {
                        possible_moves.push(Move { from: 60, to: 58, move_type: MoveType::CastleQueenside });
                    }
                }
            }
            assert(possible_moves@ =~= steps + castling_moves(p));
        }
        assert forall|i: int| 0 <= i < possible_moves@.len() implies make_bounds(
            self.side_to_move,
            #[trigger] possible_moves@[i],
        ) by {
            if i < steps.len() {
                assert(possible_moves@[i] == steps[i]);
            }
        }
        possible_moves
    }

    /// Queen moves: the bishop moves, then the rook moves from `square`.
    fn generate_queen_moves(&self, square: u8) -> (res: Vec<Move>)
        requires
            square < 64,
        ensures
            res@ == queen_moves(self.pos(), square),
            all_in_bounds(self.side_to_move, res@),
    {
        let mut possible_moves: Vec<Move> = Vec::new();
        let mut bishop = self.generate_bishop_moves(square);
        possible_moves.append(&mut bishop);
        let mut rook = self.generate_rook_moves(square);
        let ghost b = possible_moves@;
        let ghost r = rook@;
        possible_moves.append(&mut rook);
        proof {
            lemma_bounds_concat(self.side_to_move, b, r);
            assert(possible_moves@ =~= queen_moves(self.pos(), square));
        }
        possible_moves
    }

    /// The king of `color` (the first one from a1) is attacked.
    fn is_in_check(&self, color: Color) -> (res: bool)
        requires
            has_king(self.pieces@, color),
        ensures
            res == in_check(self.pos(), color),
    {
        let king = color.king();
        let ghost w = choose|w: int| 0 <= w < self.pieces@.len() && self.pieces@[w] == king;
        let mut ksq: u8 = 0;
        let mut i: usize = 0;
        loop
            invariant_except_break
                i <= w,
                forall|j: int| 0 <= j < i ==> self.pieces@[j] != king,
            invariant
                0 <= w < 64,
                self.pieces@[w] == king,
                king == color.king(),
            ensures
                is_first_index(self.pieces@, king, ksq as int),
            decreases 64 - i,
        {
            if self.pieces[i] == king {
                ksq = i as u8;
                break;
            }
            i = i + 1;
        }
        proof {
            let c = king_square(self.pieces@, color);
            assert(is_first_index(self.pieces@, king, c));
            lemma_first_index_unique(self.pieces@, king, c, ksq as int);
        }
        let attacking_color = match color {
            Color::White => Color::Black,
            Color::Black => Color::White,
        };
        self.is_square_attacked(ksq, attacking_color)
    }

    /// A board with the same position and history.
    pub(crate) fn duplicate(&self) -> (res: Board)
        ensures
            res.pos() == self.pos(),
            res.position_history_hashed@ == self.position_history_hashed@,
    {
        let history = self.position_history_hashed.clone();
        assert(history@ =~= self.position_history_hashed@);
        Board {
            pieces: self.pieces,
            en_passant_target_square: self.en_passant_target_square,
            side_to_move: self.side_to_move,
            white_queen_castling_possible: self.white_queen_castling_possible,
            white_king_castling_possible: self.white_king_castling_possible,
            black_queen_castling_possible: self.black_queen_castling_possible,
            black_king_castling_possible: self.black_king_castling_possible,
            position_history_hashed: history,
        }
    }

    /// The moves of the side to move by the piece rules, square by square from a1.
    fn pseudo_legal_moves(&self) -> (res: Vec<Move>)
        ensures
            res@ == pseudo_moves(self.pos()),
            all_in_bounds(self.side_to_move, res@),
    {
        let ghost p = self.pos();
        let mut possible_moves: Vec<Move> = Vec::new();
        let mut i: usize = 0;
        while i < 64
            invariant
                i <= 64,
                p == self.pos(),
                possible_moves@ == pseudo_moves_upto(p, i as nat),
                all_in_bounds(self.side_to_move, possible_moves@),
            decreases 64 - i,
        {
            let piece = self.pieces[i];
            let square: u8 = i as u8;
            let color = self.side_to_move;
            let ghost before = possible_moves@;
            let mut moves: Vec<Move> = match color {
                Color::White => match piece {
                    Piece::WKing => self.generate_king_moves(square),
                    Piece::WQueen => self.generate_queen_moves(square),
                    Piece::WBishop => self.generate_bishop_moves(square),
                    Piece::WKnight => self.generate_knight_moves(square),
                    Piece::WRook => self.generate_rook_moves(square),
                    Piece::WPawn => self.generate_pawn_moves(square),
                    _ => Vec::new(),
                },
                Color::Black => match piece {
                    Piece::BKing => self.generate_king_moves(square),
                    Piece::BQueen => self.generate_queen_moves(square),
                    Piece::BBishop => self.generate_bishop_moves(square),
                    Piece::BKnight => self.generate_knight_moves(square),
                    Piece::BRook => self.generate_rook_moves(square),
                    Piece::BPawn => self.generate_pawn_moves(square),
                    _ => Vec::new(),
                },
            };
            assert(moves@ == piece_moves(p, square));
            let ghost added = moves@;
            possible_moves.append(&mut moves);
            proof {
                lemma_bounds_concat(self.side_to_move, before, added);
                assert(possible_moves@ =~= pseudo_moves_upto(p, (i + 1) as nat));
            }
            i = i + 1;
        }
        possible_moves
    }

    /// The king of `color` stands on the board.
    pub fn has_king(&self, color: Color) -> (res: bool)
        ensures
            res == has_king(self.pieces@, color),
    {
        let king = color.king();
        let mut i: usize = 0;
        while i < 64
            invariant
                i <= 64,
                king == color.king(),
                forall|j: int| 0 <= j < i ==> self.pieces@[j] != king,
            decreases 64 - i,
        {
            if self.pieces[i] == king {
                return true;
            }
            i = i + 1;
        }
        false
    }

    /// The legal moves of the side to move, or `None` when some move by the
    /// piece rules would take the mover's own king off the board (the legality
    /// test then has no king to look at).
    pub fn try_generate_possible_moves(&self) -> (res: Option<Vec<Move>>)
        ensures
            res is None <==> !king_survives_moves(self.pos()),
            res matches Some(v) ==> v@ == legal_moves(self.pos()) && all_in_bounds(
                self.side_to_move,
                v@,
            ),
    {
        let ghost p = self.pos();
        let possible_moves = self.pseudo_legal_moves();
        let mut legal_moves: Vec<Move> = Vec::new();
        let mut idx: usize = 0;
        while idx < possible_moves.len()
            invariant
                idx <= possible_moves@.len(),
                p == self.pos(),
                possible_moves@ == pseudo_moves(p),
                all_in_bounds(self.side_to_move, possible_moves@),
                forall|j: int| 0 <= j < idx ==> has_king(apply_move(p, #[trigger] possible_moves@[j]).pieces, p.side),
                legal_moves@ == safe_moves(p, possible_moves@.take(idx as int)),
                all_in_bounds(self.side_to_move, legal_moves@),
            decreases possible_moves@.len() - idx,
        {
            let m = possible_moves[idx];
            assert(possible_moves@.take(idx + 1).drop_last() =~= possible_moves@.take(idx as int));
            let mut test_board = self.duplicate();
            test_board.make_move(&m);
            if !test_board.has_king(self.side_to_move) {
                return None;
            }
            if !test_board.is_in_check(self.side_to_move) {
                let ghost l0 = legal_moves@;
                legal_moves.push(m);
                proof {
                    lemma_bounds_concat(self.side_to_move, l0, seq![m]);
                    assert(legal_moves@ =~= l0 + seq![m]);
                }
            }
            idx = idx + 1;
        }
        assert(possible_moves@.take(possible_moves@.len() as int) =~= possible_moves@);
        Some(legal_moves)
    }

    /// The legal moves of the side to move: the moves of each of its pieces,
    /// square by square from a1, that do not leave its king attacked.
    pub fn generate_possible_moves(&self) -> (res: Vec<Move>)
        requires
            king_survives_moves(self.pos()),
        ensures
            res@ == legal_moves(self.pos()),
            all_in_bounds(self.side_to_move, res@),
    {
        match self.try_generate_possible_moves() {
            Some(legal_moves) => legal_moves,
            None => Vec::new(),
        }
    }
}

} // verus!
