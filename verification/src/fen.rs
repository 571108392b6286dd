use vstd::prelude::*;

use crate::board::{Board, Position};
use crate::piece::{Color, Piece};
use crate::text::{digit_char, is_white_space, push_char, string_of};
use vstd::string::StringExecFns;
use vstd::utf8::encode_utf8;

verus! {

/// The piece on square `i` in the initial position.
pub open spec fn start_piece(i: int) -> Piece {
    if i == 0 || i == 7 {
        Piece::WRook
    } else if i == 1 || i == 6 {
        Piece::WKnight
    } else if i == 2 || i == 5 {
        Piece::WBishop
    } else if i == 3 {
        Piece::WQueen
    } else if i == 4 {
        Piece::WKing
    } else if 8 <= i < 16 {
        Piece::WPawn
    } else if 48 <= i < 56 {
        Piece::BPawn
    } else if i == 56 || i == 63 {
        Piece::BRook
    } else if i == 57 || i == 62 {
        Piece::BKnight
    } else if i == 58 || i == 61 {
        Piece::BBishop
    } else if i == 59 {
        Piece::BQueen
    } else if i == 60 {
        Piece::BKing
    } else {
        Piece::Empty
    }
}

/// The initial position of a chess game: white to move, every castling right,
/// no en-passant square.
pub open spec fn start_position() -> Position {
    Position {
        pieces: Seq::new(64, |i: int| start_piece(i)),
        en_passant: None,
        side: Color::White,
        white_queen: true,
        white_king: true,
        black_queen: true,
        black_king: true,
    }
}

/// A board in the initial position, with an empty history.
pub fn setup_board() -> (b: Board)
    ensures
        b.pos() == start_position(),
        b.position_history_hashed@ == Seq::<u64>::empty(),
{
    let mut piece_arr: [Piece; 64] = [Piece::Empty; 64];
    piece_arr[0] = Piece::WRook;
    piece_arr[1] = Piece::WKnight;
    piece_arr[2] = Piece::WBishop;
    piece_arr[3] = Piece::WQueen;
    piece_arr[4] = Piece::WKing;
    piece_arr[5] = Piece::WBishop;
    piece_arr[6] = Piece::WKnight;
    piece_arr[7] = Piece::WRook;
    let mut i: usize = 8;
    while i < 16
        invariant
            8 <= i <= 16,
            forall|j: int| 0 <= j < i ==> piece_arr@[j] == start_piece(j),
            forall|j: int| i <= j < 64 ==> piece_arr@[j] == Piece::Empty,
        decreases 16 - i,
    {
        piece_arr[i] = Piece::WPawn;
        i = i + 1;
    }
    let mut i: usize = 48;
    while i < 56
        invariant
            48 <= i <= 56,
            forall|j: int| 0 <= j < i ==> piece_arr@[j] == start_piece(j),
            forall|j: int| i <= j < 64 ==> piece_arr@[j] == Piece::Empty,
        decreases 56 - i,
    {
        piece_arr[i] = Piece::BPawn;
        i = i + 1;
    }
    piece_arr[56] = Piece::BRook;
    piece_arr[57] = Piece::BKnight;
    piece_arr[58] = Piece::BBishop;
    piece_arr[59] = Piece::BQueen;
    piece_arr[60] = Piece::BKing;
    piece_arr[61] = Piece::BBishop;
    piece_arr[62] = Piece::BKnight;
    piece_arr[63] = Piece::BRook;
    let b = Board {
        pieces: piece_arr,
        en_passant_target_square: None,
        side_to_move: Color::White,
        white_king_castling_possible: true,
        black_queen_castling_possible: true,
        white_queen_castling_possible: true,
        black_king_castling_possible: true,
        position_history_hashed: Vec::new(),
    };
    assert(b.pieces@ =~= start_position().pieces);
    b
}

/// The letter of a piece in FEN (upper case for white).
#[verifier::allow_in_spec]
pub fn fen_letter(p: Piece) -> char
    returns
        (match p {
            Piece::WKing => 'K',
            Piece::WQueen => 'Q',
            Piece::WBishop => 'B',
            Piece::WKnight => 'N',
            Piece::WRook => 'R',
            Piece::WPawn => 'P',
            Piece::BKing => 'k',
            Piece::BQueen => 'q',
            Piece::BBishop => 'b',
            Piece::BKnight => 'n',
            Piece::BRook => 'r',
            Piece::BPawn => 'p',
            Piece::Empty => '1',
        }),
{
    match p {
        Piece::WKing => 'K',
        Piece::WQueen => 'Q',
        Piece::WBishop => 'B',
        Piece::WKnight => 'N',
        Piece::WRook => 'R',
        Piece::WPawn => 'P',
        Piece::BKing => 'k',
        Piece::BQueen => 'q',
        Piece::BBishop => 'b',
        Piece::BKnight => 'n',
        Piece::BRook => 'r',
        Piece::BPawn => 'p',
        Piece::Empty => '1',
    }
}

/// The text `fen` has written, and its count of pending empty squares, after
/// the first `n` squares taken from h8 down to a1 (the placement reversed):
/// a `/` starts each group of eight after the first, flushing the count; a
/// piece writes its letter and then flushes the count; a count that reaches
/// eight is written at once.
pub open spec fn fen_scan(pieces: Seq<Piece>, n: nat) -> (Seq<char>, nat)
    decreases n,
{
    if n == 0 {
        (seq![], 0)
    } else {
        let prev = fen_scan(pieces, (n - 1) as nat);
        let i = n - 1;
        let p = pieces[63 - i];
        let after_sep: (Seq<char>, nat) = if i % 8 == 0 && i != 0 {
            (
                (if prev.1 != 0 {
                    prev.0.push(digit_char(prev.1 as u8))
                } else {
                    prev.0
                }).push('/'),
                0,
            )
        } else {
            prev
        };
        let after_piece: (Seq<char>, nat) = if p == Piece::Empty {
            (after_sep.0, after_sep.1 + 1)
        } else {
            (after_sep.0.push(fen_letter(p)), after_sep.1)
        };
        let after_flush: (Seq<char>, nat) = if p != Piece::Empty && after_piece.1 != 0 {
            (after_piece.0.push(digit_char(after_piece.1 as u8)), 0)
        } else {
            after_piece
        };
        if after_flush.1 == 8 {
            (after_flush.0.push('8'), 0)
        } else {
            after_flush
        }
    }
}

proof fn lemma_fen_count_small(pieces: Seq<Piece>, n: nat)
    ensures
        fen_scan(pieces, n).1 < 8,
    decreases n,
{
    if n > 0 {
        lemma_fen_count_small(pieces, (n - 1) as nat);
    }
}

/// The characters of one printed rank: each square's symbol followed by a space.
pub open spec fn rank_cells(pieces: Seq<Piece>, rank: int, n: nat) -> Seq<char>
    decreases n,
{
    if n == 0 {
        seq![]
    } else {
        rank_cells(pieces, rank, (n - 1) as nat) + seq![pieces[rank * 8 + n - 1].symbol(), ' ']
    }
}

/// The top `n` printed ranks: the rank's number, its cells and a newline.
pub open spec fn board_lines(pieces: Seq<Piece>, n: nat) -> Seq<char>
    decreases n,
{
    if n == 0 {
        seq![]
    } else {
        let rank = 8 - n;
        board_lines(pieces, (n - 1) as nat) + seq![digit_char((rank + 1) as u8)] + rank_cells(
            pieces,
            rank,
            8,
        ) + seq!['\n']
    }
}

/// The board as printed: ranks 8 down to 1, then the file letters.
pub open spec fn board_text(pieces: Seq<Piece>) -> Seq<char> {
    board_lines(pieces, 8) + seq![' ', 'a', ' ', 'b', ' ', 'c', ' ', 'd', ' ', 'e', ' ', 'f', ' ', 'g', ' ', 'h', '\n']
}

/// Why a FEN string was refused.
#[derive(Clone, Copy, PartialEq, Eq, Structural, Debug)]
pub enum FenError {
    /// Fewer than six whitespace-separated fields.
    FieldCount,
    /// The placement has more than eight ranks.
    TooManyRanks,
    /// A piece stands beyond the eighth file of a rank.
    TooManySquares,
    /// A character that is neither a digit nor a piece letter.
    UnknownPiece(char),
    /// The rank with this number (8 for the first rank listed) does not cover eight squares.
    RankSquares(u8),
    /// The side to move is neither `w` nor `b`.
    SideToMove,
    /// The en-passant field is not two bytes long.
    EnPassantSquare,
    /// The en-passant file is not a letter from `a` to `h`.
    EnPassantFile,
    /// The en-passant rank is not a digit from `1` to `8`.
    EnPassantRank,
}

/// The message that `load_fen` returns for an error.
pub open spec fn fen_error_message(e: FenError) -> Seq<char> {
    match e {
        FenError::FieldCount => "Invalid FEN: expected 6 fields"@,
        FenError::TooManyRanks => "Invalid FEN: too many ranks"@,
        FenError::TooManySquares => "Invalid FEN: too many squares in rank"@,
        FenError::UnknownPiece(c) => "Invalid FEN: unknown piece '"@ + seq![c] + "'"@,
        FenError::RankSquares(r) => "Invalid FEN: rank "@ + seq![digit_char(r)]
            + " does not contain 8 squares"@,
        FenError::SideToMove => "Invalid FEN: invalid side to move"@,
        FenError::EnPassantSquare => "Invalid FEN: invalid en-passant square"@,
        FenError::EnPassantFile => "Invalid FEN: invalid en-passant file"@,
        FenError::EnPassantRank => "Invalid FEN: invalid en-passant rank"@,
    }
}

/// The piece that a FEN letter stands for.
#[verifier::allow_in_spec]
pub fn fen_piece(c: char) -> Option<Piece>
    returns
        (match c {
            'P' => Some(Piece::WPawn),
            'N' => Some(Piece::WKnight),
            'B' => Some(Piece::WBishop),
            'R' => Some(Piece::WRook),
            'Q' => Some(Piece::WQueen),
            'K' => Some(Piece::WKing),
            'p' => Some(Piece::BPawn),
            'n' => Some(Piece::BKnight),
            'b' => Some(Piece::BBishop),
            'r' => Some(Piece::BRook),
            'q' => Some(Piece::BQueen),
            'k' => Some(Piece::BKing),
            _ => None,
        }),
{
    match c {
        'P' => Some(Piece::WPawn),
        'N' => Some(Piece::WKnight),
        'B' => Some(Piece::WBishop),
        'R' => Some(Piece::WRook),
        'Q' => Some(Piece::WQueen),
        'K' => Some(Piece::WKing),
        'p' => Some(Piece::BPawn),
        'n' => Some(Piece::BKnight),
        'b' => Some(Piece::BBishop),
        'r' => Some(Piece::BRook),
        'q' => Some(Piece::BQueen),
        'k' => Some(Piece::BKing),
        _ => None,
    }
}

/// The value of an ASCII decimal digit (`None` for other characters).
#[verifier::allow_in_spec]
pub fn digit_value(c: char) -> Option<u8>
    returns
        (match c {
            '0' => Some(0u8),
            '1' => Some(1u8),
            '2' => Some(2u8),
            '3' => Some(3u8),
            '4' => Some(4u8),
            '5' => Some(5u8),
            '6' => Some(6u8),
            '7' => Some(7u8),
            '8' => Some(8u8),
            '9' => Some(9u8),
            _ => None,
        }),
{
    match c {
        '0' => Some(0),
        '1' => Some(1),
        '2' => Some(2),
        '3' => Some(3),
        '4' => Some(4),
        '5' => Some(5),
        '6' => Some(6),
        '7' => Some(7),
        '8' => Some(8),
        '9' => Some(9),
        _ => None,
    }
}

/// The [start, end) character ranges of the whitespace-separated words among
/// the first `n` characters of `s`.
pub open spec fn word_ranges(s: Seq<char>, n: nat) -> Seq<(int, int)>
    decreases n,
{
    if n == 0 {
        seq![]
    } else {
        let prev = word_ranges(s, (n - 1) as nat);
        let i = n - 1;
        if is_white_space(s[i]) {
            prev
        } else if i > 0 && !is_white_space(s[i - 1]) {
            prev.update(prev.len() - 1, (prev.last().0, n as int))
        } else {
            prev.push((i, n as int))
        }
    }
}

/// The state of the placement parser: the FEN rank being read (0 for the
/// eighth rank), the file reached in it, and the squares filled so far.
pub type PlacementState = (int, int, Seq<Piece>);

/// The placement parser reads one character.
pub open spec fn placement_step(st: PlacementState, c: char) -> Result<PlacementState, FenError> {
    let (rank, file, pieces) = st;
    if c == '/' {
        if file != 8 {
            Err(FenError::RankSquares((8 - rank) as u8))
        } else if rank + 1 >= 8 {
            Err(FenError::TooManyRanks)
        } else {
            Ok((rank + 1, 0, pieces))
        }
    } else if digit_value(c) is Some {
        Ok((rank, file + digit_value(c)->0, pieces))
    } else if file >= 8 {
        Err(FenError::TooManySquares)
    } else {
        match fen_piece(c) {
            None => Err(FenError::UnknownPiece(c)),
            Some(pc) => Ok((rank, file + 1, pieces.update((7 - rank) * 8 + file, pc))),
        }
    }
}

/// The placement parser after the first `n` characters of the field.
pub open spec fn placement_scan(field: Seq<char>, n: nat) -> Result<PlacementState, FenError>
    decreases n,
{
    if n == 0 {
        Ok((0, 0, Seq::new(64, |i: int| Piece::Empty)))
    } else {
        match placement_scan(field, (n - 1) as nat) {
            Err(e) => Err(e),
            Ok(st) => placement_step(st, field[n - 1]),
        }
    }
}

/// The squares described by the placement field; the last rank read must
/// cover eight squares too.
pub open spec fn parse_placement(field: Seq<char>) -> Result<Seq<Piece>, FenError> {
    match placement_scan(field, field.len()) {
        Err(e) => Err(e),
        Ok((rank, file, pieces)) => if file != 8 {
            Err(FenError::RankSquares((8 - rank) as u8))
        } else {
            Ok(pieces)
        },
    }
}

/// The en-passant field: `-`, or a file letter and a rank digit, judged on
/// the field's UTF-8 bytes.
pub open spec fn parse_en_passant(field: Seq<char>) -> Result<Option<u8>, FenError> {
    let b = encode_utf8(field);
    if field == seq!['-'] {
        Ok(None)
    } else if b.len() != 2 {
        Err(FenError::EnPassantSquare)
    } else if !(97 <= b[0] <= 104) {
        Err(FenError::EnPassantFile)
    } else if !(49 <= b[1] <= 56) {
        Err(FenError::EnPassantRank)
    } else {
        Ok(Some(((b[1] - 49) * 8 + (b[0] - 97)) as u8))
    }
}

/// The position that a FEN string describes: placement, side to move,
/// castling rights (a right is granted when its letter occurs in the field)
/// and en-passant square; the last two fields are not read.
pub open spec fn parse_fen(s: Seq<char>) -> Result<Position, FenError> {
    let w = word_ranges(s, s.len());
    if w.len() < 6 {
        Err(FenError::FieldCount)
    } else {
        let f0 = s.subrange(w[0].0, w[0].1);
        let f1 = s.subrange(w[1].0, w[1].1);
        let f2 = s.subrange(w[2].0, w[2].1);
        let f3 = s.subrange(w[3].0, w[3].1);
        match parse_placement(f0) {
            Err(e) => Err(e),
            Ok(pieces) => if f1 != seq!['w'] && f1 != seq!['b'] {
                Err(FenError::SideToMove)
            } else {
                match parse_en_passant(f3) {
                    Err(e) => Err(e),
                    Ok(ep) => Ok(
                        Position {
                            pieces,
                            en_passant: ep,
                            side: if f1 == seq!['w'] {
                                Color::White
                            } else {
                                Color::Black
                            },
                            white_queen: f2.contains('Q'),
                            white_king: f2.contains('K'),
                            black_queen: f2.contains('q'),
                            black_king: f2.contains('k'),
                        },
                    ),
                }
            },
        }
    }
}

proof fn lemma_placement_error_persists(field: Seq<char>, k: nat, m: nat)
    requires
        k <= m,
        placement_scan(field, k) is Err,
    ensures
        placement_scan(field, m) == placement_scan(field, k),
    decreases m - k,
{
    if k < m {
        lemma_placement_error_persists(field, k, (m - 1) as nat);
    }
}

/// The message of a FEN error, as `load_fen` returns it.
fn fen_error_text(e: FenError) -> (res: String)
    requires
        e matches FenError::RankSquares(r) ==> r < 10,
    ensures
        res@ == fen_error_message(e),
{
    match e {
        FenError::FieldCount => string_of("Invalid FEN: expected 6 fields"),
        FenError::TooManyRanks => string_of("Invalid FEN: too many ranks"),
        FenError::TooManySquares => string_of("Invalid FEN: too many squares in rank"),
        FenError::UnknownPiece(c) => {
            let mut msg = string_of("Invalid FEN: unknown piece '");
            push_char(&mut msg, c);
            msg.append("'");
            msg
        },
        FenError::RankSquares(r) => {
            let mut msg = string_of("Invalid FEN: rank ");
            push_char(&mut msg, digit_char(r));
            msg.append(" does not contain 8 squares");
            msg
        },
        FenError::SideToMove => string_of("Invalid FEN: invalid side to move"),
        FenError::EnPassantSquare => string_of("Invalid FEN: invalid en-passant square"),
        FenError::EnPassantFile => string_of("Invalid FEN: invalid en-passant file"),
        FenError::EnPassantRank => string_of("Invalid FEN: invalid en-passant rank"),
    }
}

/// The character range [start, end) of `s` holds `c`.
fn range_contains(s: &str, start: usize, end: usize, c: char) -> (res: bool)
    requires
        start <= end <= s@.len(),
    ensures
        res == s@.subrange(start as int, end as int).contains(c),
{
    let mut i = start;
    while i < end
        invariant
            start <= i <= end,
            end <= s@.len(),
            forall|j: int| start <= j < i ==> s@[j] != c,
        decreases end - i,
    {
        if s.get_char(i) == c {
            assert(s@.subrange(start as int, end as int)[i - start] == c);
            return true;
        }
        i = i + 1;
    }
    assert forall|j: int| 0 <= j < s@.subrange(start as int, end as int).len() implies s@.subrange(
        start as int,
        end as int,
    )[j] != c by {
        assert(s@.subrange(start as int, end as int)[j] == s@[start + j]);
    }
    false
}

/// The character ranges of the whitespace-separated words of `s`.
fn whitespace_words(s: &str) -> (res: Vec<(usize, usize)>)
    ensures
        res@.len() == word_ranges(s@, s@.len()).len(),
        forall|k: int|
            0 <= k < res@.len() ==> (#[trigger] res@[k]).0 == word_ranges(s@, s@.len())[k].0
                && res@[k].1 == word_ranges(s@, s@.len())[k].1,
        forall|k: int| 0 <= k < res@.len() ==> (#[trigger] res@[k]).0 < res@[k].1 <= s@.len(),
{
    let n = s.unicode_len();
    let mut ranges: Vec<(usize, usize)> = Vec::new();
    let mut prev_white = true;
    let mut i: usize = 0;
    while i < n
        invariant
            i <= n,
            n == s@.len(),
            ranges@.len() == word_ranges(s@, i as nat).len(),
            forall|k: int|
                0 <= k < ranges@.len() ==> (#[trigger] ranges@[k]).0 == word_ranges(s@, i as nat)[k].0
                    && ranges@[k].1 == word_ranges(s@, i as nat)[k].1,
            forall|k: int| 0 <= k < ranges@.len() ==> (#[trigger] ranges@[k]).0 < ranges@[k].1 <= i,
            i > 0 ==> prev_white == is_white_space(s@[i - 1]),
            i == 0 ==> prev_white,
            !prev_white ==> ranges@.len() > 0 && ranges@.last().1 == i,
        decreases n - i,
    {
        let c = s.get_char(i);
        let ghost prev = word_ranges(s@, i as nat);
        if is_white_space(c) {
            prev_white = true;
        } else if !prev_white {
            let last = ranges.len() - 1;
            let start = ranges[last].0;
            ranges.set(last, (start, i + 1));
            prev_white = false;
        } else {
            ranges.push((i, i + 1));
            prev_white = false;
        }
        i = i + 1;
    }
    ranges
}

/// Reads a position from a FEN string: placement, side to move, castling
/// rights and en-passant square (the move counters are not read). The board
/// starts with an empty history.
pub fn load_fen(fen: &str) -> (res: Result<Board, String>)
    ensures
        match parse_fen(fen@) {
            Ok(p) => res is Ok && res->Ok_0.pos() == p && res->Ok_0.position_history_hashed@
                == Seq::<u64>::empty(),
            Err(e) => res is Err && res->Err_0@ == fen_error_message(e),
        },
{
    let ghost s = fen@;
    let fields = whitespace_words(fen);
    let ghost w = word_ranges(s, s.len());
    if fields.len() < 6 {
        return Err(fen_error_text(FenError::FieldCount));
    }
    // piece placement
    let (start0, end0) = fields[0];
    let ghost f0 = s.subrange(start0 as int, end0 as int);
    assert(f0 == s.subrange(w[0].0, w[0].1));
    let mut piece_arr: [Piece; 64] = [Piece::Empty; 64];
    let mut fen_rank: usize = 0;
    let mut file: usize = 0;
    let ghost mut spec_file: int = 0;
    assert(piece_arr@ =~= Seq::new(64, |i: int| Piece::Empty));
    let mut j = start0;
    while j < end0
        invariant
            start0 <= j <= end0,
            start0 < end0 <= s.len(),
            s == fen@,
            f0 == s.subrange(start0 as int, end0 as int),
            w == word_ranges(s, s.len()),
            w.len() >= 6,
            f0 == s.subrange(w[0].0, w[0].1),
            placement_scan(f0, (j - start0) as nat) == Ok::<PlacementState, FenError>(
                (fen_rank as int, spec_file, piece_arr@),
            ),
            fen_rank < 8,
            0 <= spec_file,
            file as int == if spec_file > 9 { 9 } else { spec_file },
        decreases end0 - j,
    {
        let c = fen.get_char(j);
        assert(f0[j - start0] == c);
        if c == '/' {
            if file != 8 {
                proof {
                    lemma_placement_error_persists(f0, (j - start0 + 1) as nat, f0.len());
                }
                return Err(fen_error_text(FenError::RankSquares((8 - fen_rank) as u8)));
            }
            if fen_rank + 1 >= 8 {
                proof {
                    lemma_placement_error_persists(f0, (j - start0 + 1) as nat, f0.len());
                }
                return Err(fen_error_text(FenError::TooManyRanks));
            }
            fen_rank = fen_rank + 1;
            file = 0;
            proof {
                spec_file = 0;
            }
        } else if let Some(d) = digit_value(c) {
            proof {
                spec_file = spec_file + d;
            }
            file = if file + (d as usize) > 9 { 9 } else { file + d as usize };
        } else {
            if file >= 8 {
                proof {
                    lemma_placement_error_persists(f0, (j - start0 + 1) as nat, f0.len());
                }
                return Err(fen_error_text(FenError::TooManySquares));
            }
            match fen_piece(c) {
                None => {
                    proof {
                        lemma_placement_error_persists(f0, (j - start0 + 1) as nat, f0.len());
                    }
                    return Err(fen_error_text(FenError::UnknownPiece(c)));
                },
                Some(piece) => {
                    let board_rank = 7 - fen_rank;
                    let board_index = board_rank * 8 + file;
                    piece_arr[board_index] = piece;
                    file = file + 1;
                    proof {
                        spec_file = spec_file + 1;
                    }
                },
            }
        }
        j = j + 1;
    }
    assert(f0.len() == (end0 - start0));
    if file != 8 {
        return Err(fen_error_text(FenError::RankSquares((8 - fen_rank) as u8)));
    }
    // side to move
    let (start1, end1) = fields[1];
    let ghost f1 = s.subrange(start1 as int, end1 as int);
    assert(f1 == s.subrange(w[1].0, w[1].1));
    let is_w = end1 - start1 == 1 && fen.get_char(start1) == 'w';
    let is_b = end1 - start1 == 1 && fen.get_char(start1) == 'b';
    proof {
        if end1 - start1 == 1 {
            assert(f1[0] == s[start1 as int]);
            if s[start1 as int] == 'w' {
                assert(f1 =~= seq!['w']);
            }
            if s[start1 as int] == 'b' {
                assert(f1 =~= seq!['b']);
            }
        }
    }
    assert(is_w == (f1 == seq!['w']));
    assert(is_b == (f1 == seq!['b']));
    let side_to_move = if is_w {
        Color::White
    } else if is_b {
        Color::Black
    } else {
        return Err(fen_error_text(FenError::SideToMove));
    };
    // castling rights
    let (start2, end2) = fields[2];
    let white_king_castling_possible = range_contains(fen, start2, end2, 'K');
    let white_queen_castling_possible = range_contains(fen, start2, end2, 'Q');
    let black_king_castling_possible = range_contains(fen, start2, end2, 'k');
    let black_queen_castling_possible = range_contains(fen, start2, end2, 'q');
    // en passant target square
    let (start3, end3) = fields[3];
    let ghost f3 = s.subrange(start3 as int, end3 as int);
    assert(f3 == s.subrange(w[3].0, w[3].1));
    assert(s.subrange(start2 as int, end2 as int) == s.subrange(w[2].0, w[2].1));
    let is_dash = end3 - start3 == 1 && fen.get_char(start3) == '-';
    proof {
        if end3 - start3 == 1 {
            assert(f3[0] == s[start3 as int]);
            if s[start3 as int] == '-' {
                assert(f3 =~= seq!['-']);
            }
        }
    }
    assert(is_dash == (f3 == seq!['-']));
    let en_passant_target_square = if is_dash {
        None
    } else {
        let field = fen.substring_char(start3, end3);
        let bytes = field.as_bytes();
        if bytes.len() != 2 {
            return Err(fen_error_text(FenError::EnPassantSquare));
        }
        let file_byte = bytes[0];
        if !(97u8 <= file_byte && file_byte <= 104u8) {
            return Err(fen_error_text(FenError::EnPassantFile));
        }
        let rank_byte = bytes[1];
        if !(49u8 <= rank_byte && rank_byte <= 56u8) {
            return Err(fen_error_text(FenError::EnPassantRank));
        }
        let ep_file = file_byte - 97u8;
        let ep_rank = rank_byte - 49u8;
        Some(ep_rank * 8 + ep_file)
    };
    Ok(
        Board {
            pieces: piece_arr,
            en_passant_target_square,
            side_to_move,
            white_queen_castling_possible,
            white_king_castling_possible,
            black_queen_castling_possible,
            black_king_castling_possible,
            position_history_hashed: Vec::new(),
        },
    )
}

impl Board {
    /// The piece placement part of a FEN string, written from the reversed
    /// placement (h8 first, a1 last).
    pub fn fen(&self) -> (res: String)
        ensures
            res@ == fen_scan(self.pieces@, 64).0,
    {
        let mut fen_string = String::new();
        let mut counter: usize = 0;
        let mut i: usize = 0;
        while i < 64
            invariant
                i <= 64,
                (fen_string@, counter as nat) == fen_scan(self.pieces@, i as nat),
                counter < 8,
            decreases 64 - i,
        {
            proof {
                lemma_fen_count_small(self.pieces@, (i + 1) as nat);
            }
            let p = self.pieces[63 - i];
            if i % 8 == 0 && i != 0 {
                if counter != 0 {
                    push_char(&mut fen_string, digit_char(counter as u8));
                    counter = 0;
                }
                push_char(&mut fen_string, '/');
            }
            match p {
                Piece::Empty => counter = counter + 1,
                _ => push_char(&mut fen_string, fen_letter(p)),
            }
            if p != Piece::Empty && counter != 0 {
                push_char(&mut fen_string, digit_char(counter as u8));
                counter = 0;
            }
            if counter == 8 {
                push_char(&mut fen_string, digit_char(counter as u8));
                counter = 0;
            }
            i = i + 1;
        }
        fen_string
    }

    /// The board drawn with figurines, rank 8 at the top, followed by the file letters.
    pub fn to_display_string(&self) -> (res: String)
        ensures
            res@ == board_text(self.pieces@),
    {
        let mut out = String::new();
        let mut n: usize = 0;
        while n < 8
            invariant
                n <= 8,
                out@ == board_lines(self.pieces@, n as nat),
            decreases 8 - n,
        {
            let rank: usize = 7 - n;
            push_char(&mut out, digit_char((rank + 1) as u8));
            let ghost line_start = out@;
            let mut file: usize = 0;
            while file < 8
                invariant
                    file <= 8,
                    rank == 7 - n,
                    n < 8,
                    out@ == line_start + rank_cells(self.pieces@, rank as int, file as nat),
                decreases 8 - file,
            {
                let index = rank * 8 + file;
                push_char(&mut out, self.pieces[index].symbol());
                push_char(&mut out, ' ');
                file = file + 1;
            }
            push_char(&mut out, '\n');
            n = n + 1;
        }
        let tail = string_of(" a b c d e f g h\n");
        proof {
            reveal_strlit(" a b c d e f g h\n");
        }
        let mut i: usize = 0;
        let ghost lines = out@;
        let n_tail = tail.unicode_len();
        while i < n_tail
            invariant
                i <= n_tail,
                n_tail == tail@.len(),
                out@ == lines + tail@.subrange(0, i as int),
            decreases n_tail - i,
        {
            push_char(&mut out, tail.as_str().get_char(i));
            i = i + 1;
        }
        assert(tail@.subrange(0, n_tail as int) =~= tail@);
        out
    }
}

} // verus!
