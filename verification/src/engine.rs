use rand::seq::IndexedRandom;
use vstd::prelude::*;

use crate::board::Board;
use crate::movegen::{king_survives_moves, legal_moves};
use crate::moves::Move;
use crate::text::is_white_space;

verus! {

/// The index of the first character at or after `i` that is not white space
/// (the length when there is none).
pub open spec fn skip_white_space(s: Seq<char>, i: nat) -> nat
    decreases s.len() - i,
{
    if i >= s.len() {
        s.len()
    } else if !is_white_space(s[i as int]) {
        i
    } else {
        skip_white_space(s, i + 1)
    }
}

/// One past the last character before `j` that is not white space (0 when there is none).
pub open spec fn trim_end(s: Seq<char>, j: nat) -> nat
    decreases j,
{
    if j == 0 {
        0
    } else if !is_white_space(s[j - 1]) {
        j
    } else {
        trim_end(s, (j - 1) as nat)
    }
}

/// One past the last space in [lo, j), or `lo` when there is none.
pub open spec fn after_last_space(s: Seq<char>, lo: nat, j: nat) -> nat
    decreases j,
{
    if j <= lo {
        lo
    } else if s[j - 1] == ' ' {
        j
    } else {
        after_last_space(s, lo, (j - 1) as nat)
    }
}

/// The last space-separated token of a line with white space trimmed from
/// both ends (empty for a blank line).
pub open spec fn move_token(s: Seq<char>) -> Seq<char> {
    let lo = skip_white_space(s, 0);
    let hi = trim_end(s, s.len());
    if hi <= lo {
        seq![]
    } else {
        s.subrange(after_last_space(s, lo, hi) as int, hi as int)
    }
}

/// The move part of a GUI line "position <fen> move <uci>": the last token of
/// the trimmed line (the board is tracked here, so the FEN is not read).
pub fn extract_move_token(line: &str) -> (res: Option<&str>)
    ensures
        res is Some,
        res->0@ == move_token(line@),
{
    let ghost s = line@;
    let n = line.unicode_len();
    let mut lo: usize = 0;
    while lo < n && is_white_space(line.get_char(lo))
        invariant
            lo <= n,
            n == s.len(),
            s == line@,
            skip_white_space(s, 0) == skip_white_space(s, lo as nat),
        decreases n - lo,
    {
        lo = lo + 1;
    }
    let mut hi: usize = n;
    while hi > 0 && is_white_space(line.get_char(hi - 1))
        invariant
            hi <= n,
            n == s.len(),
            s == line@,
            trim_end(s, n as nat) == trim_end(s, hi as nat),
        decreases hi,
    {
        hi = hi - 1;
    }
    if hi <= lo {
        return Some(line.substring_char(0, 0));
    }
    let mut start: usize = hi;
    while start > lo && line.get_char(start - 1) != ' '
        invariant
            lo <= start <= hi,
            hi <= n,
            n == s.len(),
            s == line@,
            after_last_space(s, lo as nat, hi as nat) == after_last_space(s, lo as nat, start as nat),
        decreases start,
    {
        start = start - 1;
    }
    Some(line.substring_char(start, hi))
}

/// The value of a sequence of ASCII decimal digits.
pub open spec fn decimal_value(d: Seq<char>) -> int
    decreases d.len(),
{
    if d.len() == 0 {
        0
    } else {
        10 * decimal_value(d.drop_last()) + (d.last() as int - '0' as int)
    }
}

pub open spec fn all_digits(d: Seq<char>) -> bool {
    forall|i: int| 0 <= i < d.len() ==> '0' <= #[trigger] d[i] <= '9'
}

/// What `str::parse::<u8>` gives: an optional `+`, then one or more ASCII
/// digits whose value fits in a `u8`; `None` for anything else.
pub open spec fn spec_parse_u8(s: Seq<char>) -> Option<u8> {
    let d = if s.len() > 0 && s[0] == '+' {
        s.drop_first()
    } else {
        s
    };
    if d.len() > 0 && all_digits(d) && decimal_value(d) <= 255 {
        Some(decimal_value(d) as u8)
    } else {
        None
    }
}

/// The text with white space trimmed from both ends.
pub open spec fn trimmed(s: Seq<char>) -> Seq<char> {
    let lo = skip_white_space(s, 0);
    let hi = trim_end(s, s.len());
    if hi <= lo {
        seq![]
    } else {
        s.subrange(lo as int, hi as int)
    }
}

proof fn lemma_decimal_grows(d: Seq<char>)
    requires
        d.len() > 0,
        all_digits(d),
    ensures
        decimal_value(d) >= decimal_value(d.drop_last()),
        decimal_value(d.drop_last()) >= 0,
    decreases d.len(),
{
    if d.len() > 1 {
        lemma_decimal_grows(d.drop_last());
    }
}

/// A square number typed by the player: the line trimmed and read as a `u8`.
pub fn parse_square_number(line: &str) -> (res: Option<u8>)
    ensures
        res == spec_parse_u8(trimmed(line@)),
{
    let ghost s = line@;
    let n = line.unicode_len();
    let mut lo: usize = 0;
    while lo < n && is_white_space(line.get_char(lo))
        invariant
            lo <= n,
            n == s.len(),
            s == line@,
            skip_white_space(s, 0) == skip_white_space(s, lo as nat),
        decreases n - lo,
    {
        lo = lo + 1;
    }
    let mut hi: usize = n;
    while hi > 0 && is_white_space(line.get_char(hi - 1))
        invariant
            hi <= n,
            n == s.len(),
            s == line@,
            trim_end(s, n as nat) == trim_end(s, hi as nat),
        decreases hi,
    {
        hi = hi - 1;
    }
    if hi <= lo {
        return None;
    }
    let ghost t = s.subrange(lo as int, hi as int);
    assert(t == trimmed(s));
    let mut start = lo;
    if line.get_char(lo) == '+' {
        start = lo + 1;
    }
    let ghost d = s.subrange(start as int, hi as int);
    assert(d =~= (if t.len() > 0 && t[0] == '+' { t.drop_first() } else { t }));
    if start >= hi {
        return None;
    }
    let mut value: u32 = 0;
    let mut over = false;
    let mut j = start;
    while j < hi
        invariant
            start <= j <= hi,
            hi <= n,
            n == s.len(),
            s == line@,
            d == s.subrange(start as int, hi as int),
            t == trimmed(s),
            d == (if t.len() > 0 && t[0] == '+' { t.drop_first() } else { t }),
            all_digits(s.subrange(start as int, j as int)),
            over ==> decimal_value(s.subrange(start as int, j as int)) > 255,
            !over ==> value == decimal_value(s.subrange(start as int, j as int)),
            value <= 255,
        decreases hi - j,
    {
        let c = line.get_char(j);
        if !('0' <= c && c <= '9') {
            assert(d[j - start] == c);
            assert(!all_digits(d));
            return None;
        }
        let ghost pre = s.subrange(start as int, j as int);
        let ghost next = s.subrange(start as int, j + 1);
        assert(next.drop_last() =~= pre);
        assert(next.last() == c);
        assert(all_digits(next)) by {
            assert forall|i: int| 0 <= i < next.len() implies '0' <= #[trigger] next[i] <= '9' by {
                if i < pre.len() {
                    assert(next[i] == pre[i]);
                }
            }
        }
        proof {
            lemma_decimal_grows(next);
        }
        if !over {
            let digit = (c as u32) - ('0' as u32);
            let v = value * 10 + digit;
            if v > 255 {
                over = true;
            } else {
                value = v;
            }
        }
        j = j + 1;
    }
    assert(s.subrange(start as int, hi as int) == d);
    if over {
        None
    } else {
        Some(value as u8)
    }
}

/// Picks one move of the list at random.
///
/// Trusted: `IndexedRandom::choose` of rand, with the thread-local generator
/// from `rand::rng`, returns `None` on an empty slice and otherwise an element
/// at an index drawn below the length (rand's source); the contract says
/// exactly that and nothing of which element comes out.
#[verifier::external_body]
fn random_choice(moves: &Vec<Move>) -> (res: Option<Move>)
    ensures
        res is None <==> moves@.len() == 0,
        res matches Some(m) ==> moves@.contains(m),
{
    moves.choose(&mut rand::rng()).copied()
}

/// The engine's move: a legal move picked at random, or `None` when the side
/// to move has no legal move.
pub fn choose_engine_move(board: &Board) -> (res: Option<Move>)
    requires
        king_survives_moves(board.pos()),
    ensures
        res is None <==> legal_moves(board.pos()).len() == 0,
        res matches Some(m) ==> legal_moves(board.pos()).contains(m),
{
    let possible_moves = board.generate_possible_moves();
    random_choice(&possible_moves)
}

} // verus!
