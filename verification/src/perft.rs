use vstd::prelude::*;

use crate::board::{apply_move, can_unmake, moved_position, retracted_position, undo_for, Board, Position};
use crate::position_key::position_hash;
use crate::moves::MoveType;
use crate::piece::Color;
use crate::laws::move_is_undone;
use crate::movegen::{king_survives_moves, legal_moves};
use crate::moves::Move;

verus! {

/// Counting to `depth` from `p` never fails: at every position reached before
/// the last level the generator can test its moves, and each legal move is
/// taken back exactly by `unmake_move`.
pub open spec fn perft_safe(p: Position, depth: nat) -> bool
    decreases depth,
{
    depth == 0 || (king_survives_moves(p) && forall|i: int|
        0 <= i < legal_moves(p).len() ==> move_is_undone(p, #[trigger] legal_moves(p)[i])
            && perft_safe(apply_move(p, legal_moves(p)[i]), (depth - 1) as nat))
}

/// The number of move sequences of length `depth` from `p` (1 for depth 0).
pub open spec fn perft_count(p: Position, depth: nat) -> nat
    decreases depth, 1nat, 0nat,
{
    if depth == 0 {
        1
    } else {
        perft_sum(p, legal_moves(p), depth)
    }
}

/// The sum, over the moves of the list, of the counts one level deeper after
/// each move.
pub open spec fn perft_sum(p: Position, moves: Seq<Move>, depth: nat) -> nat
    decreases depth, 0nat, moves.len(),
{
    if depth == 0 || moves.len() == 0 {
        0
    } else {
        perft_sum(p, moves.drop_last(), depth) + perft_count(
            apply_move(p, moves.last()),
            (depth - 1) as nat,
        )
    }
}

proof fn lemma_perft_sum_prefix(p: Position, moves: Seq<Move>, depth: nat, i: int)
    requires
        0 <= i <= moves.len(),
    ensures
        perft_sum(p, moves.take(i), depth) <= perft_sum(p, moves, depth),
    decreases moves.len(),
{
    if i == moves.len() {
        assert(moves.take(i) =~= moves);
    } else {
        assert(moves.take(i) =~= moves.drop_last().take(i));
        lemma_perft_sum_prefix(p, moves.drop_last(), depth, i);
    }
}

/// The hashes that counting to `depth` from `p` appends to the history, in
/// the order the positions are visited: for each legal move, the hash of the
/// placement it leads to (with the mover still to move), then what counting
/// on from there appends.
pub open spec fn perft_trace(p: Position, depth: nat) -> Seq<u64>
    decreases depth, 1nat, 0nat,
{
    if depth == 0 {
        seq![]
    } else {
        perft_trace_sum(p, legal_moves(p), depth)
    }
}

/// The hashes appended while counting to `depth` over the moves of the list.
pub open spec fn perft_trace_sum(p: Position, moves: Seq<Move>, depth: nat) -> Seq<u64>
    decreases depth, 0nat, moves.len(),
{
    if depth == 0 || moves.len() == 0 {
        seq![]
    } else {
        perft_trace_sum(p, moves.drop_last(), depth) + seq![
            position_hash(moved_position(p, moves.last())),
        ] + perft_trace(apply_move(p, moves.last()), (depth - 1) as nat)
    }
}

/// Counts the move sequences of length `depth` from the board's position by
/// making and unmaking every legal move. The position is the same afterwards;
/// the history has the hashes of the visited positions appended.
pub fn perft(b: &mut Board, depth: u8) -> (nodes: usize)
    requires
        perft_safe(old(b).pos(), depth as nat),
        perft_count(old(b).pos(), depth as nat) <= usize::MAX,
    ensures
        nodes == perft_count(old(b).pos(), depth as nat),
        final(b).pos() == old(b).pos(),
        final(b).position_history_hashed@ == old(b).position_history_hashed@ + perft_trace(
            old(b).pos(),
            depth as nat,
        ),
    decreases depth,
{
    let mut nodes: usize = 0;
    if depth == 0 {
        assert(b.position_history_hashed@ + seq![] =~= b.position_history_hashed@);
        return 1;
    }
    let ghost p = b.pos();
    let ghost history = b.position_history_hashed@;
    let possible_moves = b.generate_possible_moves();
    assert(history + seq![] =~= history);
    let mut i: usize = 0;
    while i < possible_moves.len()
        invariant
            depth >= 1,
            i <= possible_moves@.len(),
            b.pos() == p,
            possible_moves@ == legal_moves(p),
            crate::movegen::all_in_bounds(p.side, possible_moves@),
            perft_safe(p, depth as nat),
            perft_count(p, depth as nat) <= usize::MAX,
            nodes == perft_sum(p, possible_moves@.take(i as int), depth as nat),
            b.position_history_hashed@ == history + perft_trace_sum(
                p,
                possible_moves@.take(i as int),
                depth as nat,
            ),
        decreases possible_moves@.len() - i,
    {
        let m = possible_moves[i];
        assert(possible_moves@.take(i + 1).drop_last() =~= possible_moves@.take(i as int));
        proof {
            lemma_perft_sum_prefix(p, possible_moves@, depth as nat, i + 1);
        }
        let ghost before_move = b.pos();
        let undo = b.make_move(&m);
        let sub = perft(b, depth - 1);
        proof {
            lemma_trace_step(history, p, possible_moves@, depth as nat, i as int);
        }
        nodes = nodes + sub;
        b.unmake_move(&m, undo);
        // unmaking restored everything that the move changed
        assert(b.pos() == before_move);
        i = i + 1;
    }
    assert(possible_moves@.take(possible_moves@.len() as int) =~= possible_moves@);
    nodes
}

/// One more move of the list: its hash, then the trace one level deeper.
proof fn lemma_trace_step(history: Seq<u64>, p: Position, moves: Seq<Move>, depth: nat, i: int)
    requires
        depth >= 1,
        0 <= i < moves.len(),
    ensures
        history + perft_trace_sum(p, moves.take(i), depth) + seq![
            position_hash(moved_position(p, moves[i])),
        ] + perft_trace(apply_move(p, moves[i]), (depth - 1) as nat) == history
            + perft_trace_sum(p, moves.take(i + 1), depth),
{
    assert(moves.take(i + 1).drop_last() =~= moves.take(i));
    assert(moves.take(i + 1).last() == moves[i]);
    let a = perft_trace_sum(p, moves.take(i), depth);
    let h = seq![position_hash(moved_position(p, moves[i]))];
    let t = perft_trace(apply_move(p, moves[i]), (depth - 1) as nat);
    assert(history + a + h + t =~= history + (a + h + t));
}

/// Counts, for each legal move, the move sequences of length `depth - 1` after
/// it, in the generator's order, and their total.
pub fn divided_perft(b: &mut Board, depth: u8) -> (res: (Vec<(Move, usize)>, usize))
    requires
        king_survives_moves(old(b).pos()),
        depth >= 1 || legal_moves(old(b).pos()).len() == 0,
        depth >= 1 ==> perft_safe(old(b).pos(), depth as nat),
        depth >= 1 ==> perft_count(old(b).pos(), depth as nat) <= usize::MAX,
    ensures
        res.0@.len() == legal_moves(old(b).pos()).len(),
        forall|i: int|
            0 <= i < res.0@.len() ==> (#[trigger] res.0@[i]).0 == legal_moves(old(b).pos())[i]
                && res.0@[i].1 == perft_count(
                apply_move(old(b).pos(), legal_moves(old(b).pos())[i]),
                (depth - 1) as nat,
            ),
        res.1 == perft_sum(old(b).pos(), legal_moves(old(b).pos()), depth as nat),
        depth >= 1 ==> res.1 == perft_count(old(b).pos(), depth as nat),
        final(b).pos() == old(b).pos(),
        final(b).position_history_hashed@ == old(b).position_history_hashed@ + perft_trace_sum(
            old(b).pos(),
            legal_moves(old(b).pos()),
            depth as nat,
        ),
{
    let ghost p = b.pos();
    let ghost history = b.position_history_hashed@;
    let possible_moves = b.generate_possible_moves();
    assert(history + seq![] =~= history);
    let mut counts: Vec<(Move, usize)> = Vec::new();
    let mut total_nodes: usize = 0;
    let mut i: usize = 0;
    while i < possible_moves.len()
        invariant
            i <= possible_moves@.len(),
            depth >= 1 || possible_moves@.len() == 0,
            b.pos() == p,
            possible_moves@ == legal_moves(p),
            crate::movegen::all_in_bounds(p.side, possible_moves@),
            depth >= 1 ==> perft_safe(p, depth as nat),
            depth >= 1 ==> perft_count(p, depth as nat) <= usize::MAX,
            total_nodes == perft_sum(p, possible_moves@.take(i as int), depth as nat),
            counts@.len() == i,
            forall|j: int|
                0 <= j < i ==> (#[trigger] counts@[j]).0 == possible_moves@[j] && counts@[j].1
                    == perft_count(apply_move(p, possible_moves@[j]), (depth - 1) as nat),
            b.position_history_hashed@ == history + perft_trace_sum(
                p,
                possible_moves@.take(i as int),
                depth as nat,
            ),
        decreases possible_moves@.len() - i,
    {
        let m = possible_moves[i];
        assert(possible_moves@.take(i + 1).drop_last() =~= possible_moves@.take(i as int));
        proof {
            lemma_perft_sum_prefix(p, possible_moves@, depth as nat, i + 1);
        }
        let undo = b.make_move(&m);
        let nodes = perft(b, depth - 1);
        proof {
            lemma_trace_step(history, p, possible_moves@, depth as nat, i as int);
        }
        b.unmake_move(&m, undo);
        counts.push((m, nodes));
        total_nodes = total_nodes + nodes;
        i = i + 1;
    }
    assert(possible_moves@.take(possible_moves@.len() as int) =~= possible_moves@);
    (counts, total_nodes)
}

proof fn lemma_perft_unsafe_or_large(p: Position, depth: nat, i: int)
    requires
        depth >= 1,
        0 <= i < legal_moves(p).len(),
        !(perft_safe(apply_move(p, legal_moves(p)[i]), (depth - 1) as nat) && perft_count(
            apply_move(p, legal_moves(p)[i]),
            (depth - 1) as nat,
        ) <= usize::MAX),
    ensures
        !(perft_safe(p, depth) && perft_count(p, depth) <= usize::MAX),
{
    if perft_safe(p, depth) {
        assert(perft_safe(apply_move(p, legal_moves(p)[i]), (depth - 1) as nat));
        let moves = legal_moves(p);
        lemma_perft_sum_prefix(p, moves, depth, i + 1);
        assert(moves.take(i + 1).drop_last() =~= moves.take(i));
        assert(moves.take(i + 1).last() == moves[i]);
    }
}

/// The two boards hold the same position.
fn same_position(a: &Board, b: &Board) -> (res: bool)
    ensures
        res == (a.pos() == b.pos()),
{
    let mut i: usize = 0;
    while i < 64
        invariant
            i <= 64,
            forall|j: int| 0 <= j < i ==> a.pieces@[j] == b.pieces@[j],
        decreases 64 - i,
    {
        if a.pieces[i] != b.pieces[i] {
            return false;
        }
        i = i + 1;
    }
    assert(a.pieces@ =~= b.pieces@);
    a.en_passant_target_square == b.en_passant_target_square && a.side_to_move == b.side_to_move
        && a.white_queen_castling_possible == b.white_queen_castling_possible
        && a.white_king_castling_possible == b.white_king_castling_possible
        && a.black_queen_castling_possible == b.black_queen_castling_possible
        && a.black_king_castling_possible == b.black_king_castling_possible
}

/// `unmake_move` can take back `m` on this board.
pub fn can_unmake_move(b: &Board, m: &Move) -> (res: bool)
    ensures
        res == can_unmake(b.pos(), *m),
{
    let mover = b.side_to_move.invert();
    if !(m.from < 64 && m.to < 64) {
        return false;
    }
    let bounds = match m.move_type {
        MoveType::CastleKingside => m.to < 63 && m.from < 63,
        MoveType::CastleQueenside => m.from >= 4,
        MoveType::EnPassant => match mover {
            Color::White => m.to >= 8,
            Color::Black => m.to < 56,
        },
        _ => true,
    };
    if !bounds {
        return false;
    }
    match m.move_type {
        MoveType::PawnDoubleStep => b.pieces[m.to as usize] == mover.pawn(),
        _ => true,
    }
}

/// Counts like `perft`, but checks on the way what `perft` requires: `None`
/// when a position reached before the last level has a move that removes
/// the mover's king, when a legal move is not taken back exactly, or when
/// the count exceeds `usize`. The position is the same afterwards; the
/// history has the hashes of the visited positions appended when a count is
/// returned, and is as it was otherwise.
pub fn perft_checked(b: &mut Board, depth: u8) -> (res: Option<usize>)
    ensures
        res is Some <==> (perft_safe(old(b).pos(), depth as nat) && perft_count(old(b).pos(), depth as nat) <= usize::MAX),
        final(b).pos() == old(b).pos(),
        res matches Some(n) ==> n == perft_count(old(b).pos(), depth as nat)
            && final(b).position_history_hashed@ == old(b).position_history_hashed@ + perft_trace(
            old(b).pos(),
            depth as nat,
        ),
        res is None ==> final(b).position_history_hashed@ == old(b).position_history_hashed@,
    decreases depth, 1nat,
{
    if depth == 0 {
        assert(b.position_history_hashed@ + seq![] =~= b.position_history_hashed@);
        return Some(1);
    }
    match checked_counts(b, depth) {
        Some((_, nodes)) => Some(nodes),
        None => None,
    }
}

/// The per-move counts of a divided count: each legal move of `p` in order,
/// with the number of move sequences of length `depth - 1` after it.
pub open spec fn divided_counts(p: Position, depth: nat, counts: Seq<(Move, usize)>) -> bool {
    &&& counts.len() == legal_moves(p).len()
    &&& forall|i: int|
        0 <= i < counts.len() ==> (#[trigger] counts[i]).0 == legal_moves(p)[i] && counts[i].1
            == perft_count(apply_move(p, legal_moves(p)[i]), (depth - 1) as nat)
}

/// The counting loop of `perft_checked` and `divided_perft_checked`, for a
/// depth of at least one, keeping the count after each move.
fn checked_counts(b: &mut Board, depth: u8) -> (res: Option<(Vec<(Move, usize)>, usize)>)
    requires
        depth >= 1,
    ensures
        res is Some <==> (perft_safe(old(b).pos(), depth as nat) && perft_count(old(b).pos(), depth as nat) <= usize::MAX),
        final(b).pos() == old(b).pos(),
        res matches Some((counts, n)) ==> n == perft_count(old(b).pos(), depth as nat)
            && divided_counts(old(b).pos(), depth as nat, counts@)
            && final(b).position_history_hashed@ == old(b).position_history_hashed@ + perft_trace(
            old(b).pos(),
            depth as nat,
        ),
        res is None ==> final(b).position_history_hashed@ == old(b).position_history_hashed@,
    decreases depth, 0nat,
{
    let ghost p = b.pos();
    let ghost history = b.position_history_hashed@;
    assert(history + seq![] =~= history);
    let start = b.duplicate();
    let possible_moves = match b.try_generate_possible_moves() {
        Some(v) => v,
        None => return None,
    };
    let mut nodes: usize = 0;
    let mut counts: Vec<(Move, usize)> = Vec::new();
    let mut i: usize = 0;
    while i < possible_moves.len()
        invariant
            depth >= 1,
            counts@.len() == i,
            forall|j: int|
                0 <= j < i ==> (#[trigger] counts@[j]).0 == legal_moves(p)[j] && counts@[j].1
                    == perft_count(apply_move(p, legal_moves(p)[j]), (depth - 1) as nat),
            i <= possible_moves@.len(),
            b.pos() == p,
            p == old(b).pos(),
            king_survives_moves(p),
            possible_moves@ == legal_moves(p),
            crate::movegen::all_in_bounds(p.side, possible_moves@),
            forall|j: int| 0 <= j < i ==> move_is_undone(p, #[trigger] legal_moves(p)[j])
                && perft_safe(apply_move(p, legal_moves(p)[j]), (depth - 1) as nat),
            nodes == perft_sum(p, possible_moves@.take(i as int), depth as nat),
            history == old(b).position_history_hashed@,
            start.pos() == p,
            start.position_history_hashed@ == history,
            b.position_history_hashed@ == history + perft_trace_sum(
                p,
                possible_moves@.take(i as int),
                depth as nat,
            ),
        decreases possible_moves@.len() - i,
    {
        let m = possible_moves[i];
        assert(m == legal_moves(p)[i as int]);
        assert(possible_moves@.take(i + 1).drop_last() =~= possible_moves@.take(i as int));
        let before_move = b.duplicate();
        let undo = b.make_move(&m);
        let ghost old_b_pos = b.pos();
        let sub = perft_checked(b, depth - 1);
        let sub = match sub {
            Some(n) => n,
            None => {
                proof {
                    assert(old_b_pos == apply_move(p, m));
                    lemma_perft_unsafe_or_large(p, depth as nat, i as int);
                }
                *b = start;
                return None;
            },
        };
        if !can_unmake_move(b, &m) {
            proof {
                if perft_safe(p, depth as nat) {
                    assert(move_is_undone(p, legal_moves(p)[i as int]));
                }
            }
            *b = start;
            return None;
        }
        b.unmake_move(&m, undo);
        if !same_position(b, &before_move) {
            proof {
                assert(before_move.pos() == p);
                assert(undo == undo_for(p, m));
                assert(b.pos() == retracted_position(apply_move(p, m), m, undo_for(p, m)));
                if perft_safe(p, depth as nat) {
                    assert(move_is_undone(p, legal_moves(p)[i as int]));
                    assert(b.pos() == p);
                    assert(false);
                }
            }
            *b = start;
            return None;
        }
        proof {
            lemma_perft_sum_prefix(p, possible_moves@, depth as nat, i + 1);
            lemma_trace_step(history, p, possible_moves@, depth as nat, i as int);
        }
        nodes = match nodes.checked_add(sub) {
            Some(total) => total,
            None => {
                proof {
                    lemma_perft_sum_prefix(p, possible_moves@, depth as nat, i + 1);
                }
                *b = start;
                return None;
            },
        };
        counts.push((m, sub));
        i = i + 1;
    }
    assert(possible_moves@.take(possible_moves@.len() as int) =~= possible_moves@);
    Some((counts, nodes))
}

/// `divided_perft` where what it requires is checked on the way: `None` when
/// the side to move would lose its king by a move, when a depth of zero meets
/// legal moves, or when `perft_checked` would give `None`. The position is
/// the same afterwards; the history has the hashes of the visited positions
/// appended when counts are returned, and is as it was otherwise.
pub fn divided_perft_checked(b: &mut Board, depth: u8) -> (res: Option<(Vec<(Move, usize)>, usize)>)
    ensures
        res is Some <==> (king_survives_moves(old(b).pos()) && (depth >= 1 || legal_moves(
            old(b).pos(),
        ).len() == 0) && (depth >= 1 ==> perft_safe(old(b).pos(), depth as nat) && perft_count(
            old(b).pos(),
            depth as nat,
        ) <= usize::MAX)),
        final(b).pos() == old(b).pos(),
        res matches Some((counts, total)) ==> divided_counts(old(b).pos(), depth as nat, counts@)
            && total == perft_sum(old(b).pos(), legal_moves(old(b).pos()), depth as nat)
            && final(b).position_history_hashed@ == old(b).position_history_hashed@
            + perft_trace_sum(old(b).pos(), legal_moves(old(b).pos()), depth as nat),
        res is None ==> final(b).position_history_hashed@ == old(b).position_history_hashed@,
{
    if depth == 0 {
        let moves = match b.try_generate_possible_moves() {
            Some(v) => v,
            None => return None,
        };
        assert(b.position_history_hashed@ + seq![] =~= b.position_history_hashed@);
        if moves.len() == 0 {
            return Some((Vec::new(), 0));
        }
        return None;
    }
    checked_counts(b, depth)
}

} // verus!
