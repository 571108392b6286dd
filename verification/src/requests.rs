use vstd::prelude::*;

use crate::board::{Board, Position};
use crate::moves::{square_offset, Move, MoveType};
use crate::piece::{Color, Piece};
use crate::position_key::position_hash;
use crate::text::push_char;
use crate::translate_move_uci::{algebraic_to_square, file_letter, rank_digit, spec_algebraic_to_square, square_to_algebraic};

verus! {

/// One piece as the game server reports it; a field is `None` when the
/// server's JSON lacks it or gives it another type.
pub struct ServerPiece {
    pub coordinates: Option<String>,
    pub piece_type: Option<String>,
    pub player: Option<String>,
    pub en_passe_possible: Option<bool>,
    pub has_moved: Option<bool>,
}

/// The board as the game server reports it.
pub struct ServerBoard {
    pub active_player: Option<String>,
    pub pieces: Option<Vec<ServerPiece>>,
}

pub struct ServerPieceView {
    pub coordinates: Option<Seq<char>>,
    pub piece_type: Option<Seq<char>>,
    pub player: Option<Seq<char>>,
    pub en_passe_possible: Option<bool>,
    pub has_moved: Option<bool>,
}

pub struct ServerBoardView {
    pub active_player: Option<Seq<char>>,
    pub pieces: Option<Seq<ServerPieceView>>,
}

impl View for ServerPiece {
    type V = ServerPieceView;

    open spec fn view(&self) -> ServerPieceView {
        ServerPieceView {
            coordinates: self.coordinates.deep_view(),
            piece_type: self.piece_type.deep_view(),
            player: self.player.deep_view(),
            en_passe_possible: self.en_passe_possible,
            has_moved: self.has_moved,
        }
    }
}

impl View for ServerBoard {
    type V = ServerBoardView;

    open spec fn view(&self) -> ServerBoardView {
        ServerBoardView {
            active_player: self.active_player.deep_view(),
            pieces: match self.pieces {
                Some(v) => Some(v@.map_values(|p: ServerPiece| p@)),
                None => None,
            },
        }
    }
}

/// ASCII upper-case letters become lower case; other characters stay.
pub open spec fn ascii_lower(c: char) -> char {
    if 'A' <= c <= 'Z' {
        (c as int + 32) as char
    } else {
        c
    }
}

pub open spec fn lower_text(s: Seq<char>) -> Seq<char> {
    s.map_values(|c: char| ascii_lower(c))
}

/// The color a server player name stands for.
pub open spec fn side_named(s: Seq<char>) -> Option<Color> {
    if s == "WHITE"@ {
        Some(Color::White)
    } else if s == "BLACK"@ {
        Some(Color::Black)
    } else {
        None
    }
}

/// The piece a server piece type and player name stand for; the server calls
/// knights bishops and bishops knights.
pub open spec fn piece_named(name: Seq<char>, color: Seq<char>) -> Option<Piece> {
    match side_named(color) {
        None => None,
        Some(side) => if name == "PAWN"@ {
            Some(side.pawn())
        } else if name == "BISHOP"@ {
            Some(side.knight())
        } else if name == "KNIGHT"@ {
            Some(side.bishop())
        } else if name == "ROOK"@ {
            Some(side.rook())
        } else if name == "QUEEN"@ {
            Some(side.queen())
        } else if name == "KING"@ {
            Some(side.king())
        } else {
            None
        },
    }
}

/// The rank offset from a pawn of `color` that may be taken en passant to the
/// square it jumped over.
pub open spec fn en_passant_rank_offset(color: Color) -> int {
    match color {
        Color::White => -1,
        Color::Black => 1,
    }
}

/// What one server piece contributes: its square, its piece, and whether it
/// is a pawn that may be taken en passant; `None` when the entry is unusable.
pub open spec fn entry_placement(e: ServerPieceView) -> Option<(u8, Piece, bool)> {
    match e.coordinates {
        None => None,
        Some(coords) => match spec_algebraic_to_square(lower_text(coords)) {
            None => None,
            Some(square) => match (e.piece_type, e.player) {
                (Some(name), Some(player)) => match piece_named(name, player) {
                    None => None,
                    Some(piece) => if piece == Piece::WPawn || piece == Piece::BPawn {
                        match e.en_passe_possible {
                            None => None,
                            Some(ep) => Some((square, piece, ep)),
                        }
                    } else {
                        Some((square, piece, false))
                    },
                },
                _ => None,
            },
        },
    }
}

/// Reading the first `n` server pieces: the squares filled and the
/// en-passant square set so far; `None` once an entry is unusable.
pub open spec fn server_scan(entries: Seq<ServerPieceView>, side: Color, n: nat) -> Option<(Seq<Piece>, Option<u8>)>
    decreases n,
{
    if n == 0 {
        Some((Seq::new(64, |i: int| Piece::Empty), None))
    } else {
        match server_scan(entries, side, (n - 1) as nat) {
            None => None,
            Some((pieces, ep)) => match entry_placement(entries[n - 1]) {
                None => None,
                Some((square, piece, sets_ep)) => Some(
                    (
                        pieces.update(square as int, piece),
                        if sets_ep {
                            square_offset(square, 0, en_passant_rank_offset(side.invert()))
                        } else {
                            ep
                        },
                    ),
                ),
            },
        }
    }
}

/// Reading the first `n` server pieces never meets a pawn marked for en
/// passant whose jumped-over square would lie off the board.
pub open spec fn server_scan_safe(entries: Seq<ServerPieceView>, side: Color, n: nat) -> bool
    decreases n,
{
    n == 0 || (server_scan_safe(entries, side, (n - 1) as nat) && (server_scan(
        entries,
        side,
        (n - 1) as nat,
    ) is Some ==> match entry_placement(entries[n - 1]) {
        Some((square, _, true)) => square_offset(
            square,
            0,
            en_passant_rank_offset(side.invert()),
        ) is Some,
        _ => true,
    }))
}

/// The server's board can be read without failing on an en-passant square.
pub open spec fn server_board_safe(b: ServerBoardView) -> bool {
    match (b.active_player, b.pieces) {
        (Some(ap), Some(list)) => match side_named(ap) {
            Some(side) => server_scan_safe(list, side, list.len()),
            None => true,
        },
        _ => true,
    }
}

/// Whether the piece on a square has moved: the flag of the first entry whose
/// lower-cased coordinates equal `square` (false when it has no flag); true
/// when no entry stands there.
pub open spec fn square_moved(entries: Seq<ServerPieceView>, square: Seq<char>) -> bool
    decreases entries.len(),
{
    if entries.len() == 0 {
        true
    } else {
        let e = entries[0];
        if e.coordinates is Some && lower_text(e.coordinates->0) == square {
            e.has_moved == Some(true)
        } else {
            square_moved(entries.drop_first(), square)
        }
    }
}

/// The position described by the server's board: side to move, pieces,
/// en-passant square, and each castling right granted when its king and rook
/// stand on their squares and neither square is reported as moved.
pub open spec fn spec_board_from_server(b: ServerBoardView) -> Option<Position> {
    match (b.active_player, b.pieces) {
        (Some(ap), Some(list)) => match side_named(ap) {
            None => None,
            Some(side) => match server_scan(list, side, list.len()) {
                None => None,
                Some((pcs, ep)) => Some(
                    Position {
                        pieces: pcs,
                        en_passant: ep,
                        side,
                        white_queen: !square_moved(list, "a1"@) && !square_moved(list, "e1"@)
                            && pcs[0] == Piece::WRook && pcs[4] == Piece::WKing,
                        white_king: !square_moved(list, "e1"@) && !square_moved(list, "h1"@)
                            && pcs[4] == Piece::WKing && pcs[7] == Piece::WRook,
                        black_queen: !square_moved(list, "a8"@) && !square_moved(list, "e8"@)
                            && pcs[56] == Piece::BRook && pcs[60] == Piece::BKing,
                        black_king: !square_moved(list, "e8"@) && !square_moved(list, "h8"@)
                            && pcs[60] == Piece::BKing && pcs[63] == Piece::BRook,
                    },
                ),
            },
        },
        _ => None,
    }
}

/// The two texts are equal.
pub fn same_text(a: &str, b: &str) -> (res: bool)
    ensures
        res == (a@ == b@),
{
    let n = a.unicode_len();
    if n != b.unicode_len() {
        return false;
    }
    let mut i: usize = 0;
    while i < n
        invariant
            i <= n,
            n == a@.len(),
            n == b@.len(),
            forall|j: int| 0 <= j < i ==> a@[j] == b@[j],
        decreases n - i,
    {
        if a.get_char(i) != b.get_char(i) {
            return false;
        }
        i = i + 1;
    }
    assert(a@ =~= b@);
    true
}

/// The text with ASCII upper-case letters turned to lower case.
pub fn to_ascii_lowercase(s: &str) -> (res: String)
    ensures
        res@ == lower_text(s@),
{
    let n = s.unicode_len();
    let mut out = String::new();
    let mut i: usize = 0;
    while i < n
        invariant
            i <= n,
            n == s@.len(),
            out@ == lower_text(s@.subrange(0, i as int)),
        decreases n - i,
    {
        let c = s.get_char(i);
        let lower = if 'A' <= c && c <= 'Z' {
            ((c as u8) + 32) as char
        } else {
            c
        };
        push_char(&mut out, lower);
        assert(lower_text(s@.subrange(0, i + 1)) =~= lower_text(s@.subrange(0, i as int)).push(lower));
        i = i + 1;
    }
    assert(s@.subrange(0, n as int) =~= s@);
    out
}

fn side_from_name(name: &str) -> (res: Option<Color>)
    ensures
        res == side_named(name@),
{
    if same_text(name, "WHITE") {
        Some(Color::White)
    } else if same_text(name, "BLACK") {
        Some(Color::Black)
    } else {
        None
    }
}

/// The piece a server piece type and player name stand for (the server swaps
/// the names of knights and bishops).
pub fn piece_name_color_to_piece(piece_name: &str, piece_color: &str) -> (res: Option<Piece>)
    ensures
        res == piece_named(piece_name@, piece_color@),
{
    let side = match side_from_name(piece_color) {
        Some(c) => c,
        None => return None,
    };
    if same_text(piece_name, "PAWN") {
        Some(side.pawn())
    } else if same_text(piece_name, "BISHOP") {
        Some(side.knight())
    } else if same_text(piece_name, "KNIGHT") {
        Some(side.bishop())
    } else if same_text(piece_name, "ROOK") {
        Some(side.rook())
    } else if same_text(piece_name, "QUEEN") {
        Some(side.queen())
    } else if same_text(piece_name, "KING") {
        Some(side.king())
    } else {
        None
    }
}

/// The square that a pawn of `color`, which may be taken en passant on
/// `square`, jumped over.
pub fn get_en_pass_target_square(square: u8, color: Color) -> (res: u8)
    requires
        square_offset(square, 0, en_passant_rank_offset(color)) is Some,
    ensures
        Some(res) == square_offset(square, 0, en_passant_rank_offset(color)),
{
    let rank_offset: i8 = match color {
        Color::White => -1,
        Color::Black => 1,
    };
    match crate::moves::offset_square(square, 0, rank_offset) {
        Some(target) => target,
        None => 0,
    }
}

/// Whether the piece reported on `square` has moved: the flag of the first
/// entry standing there (false when it carries none); true when no entry
/// stands there.
pub fn has_piece_on_square_moved(pieces: &Vec<ServerPiece>, square: &str) -> (res: bool)
    ensures
        res == square_moved(pieces@.map_values(|p: ServerPiece| p@), square@),
{
    let ghost views = pieces@.map_values(|p: ServerPiece| p@);
    let n = pieces.len();
    let mut i: usize = 0;
    assert(views.subrange(0, n as int) =~= views);
    while i < n
        invariant
            i <= n,
            n == pieces@.len(),
            views == pieces@.map_values(|p: ServerPiece| p@),
            square_moved(views, square@) == square_moved(views.subrange(i as int, n as int), square@),
        decreases n - i,
    {
        let p = &pieces[i];
        assert(views.subrange(i as int, n as int)[0] == p@);
        assert(views.subrange(i as int, n as int).drop_first() =~= views.subrange(i + 1, n as int));
        match &p.coordinates {
            Some(c) => {
                let lowered = to_ascii_lowercase(c.as_str());
                if same_text(lowered.as_str(), square) {
                    return match p.has_moved {
                        Some(b) => b,
                        None => false,
                    };
                }
            },
            None => {},
        }
        i = i + 1;
    }
    true
}

/// What one server piece contributes (see `entry_placement`).
fn read_entry(e: &ServerPiece) -> (res: Option<(u8, Piece, bool)>)
    ensures
        res == entry_placement(e@),
        res matches Some((square, _, _)) ==> square < 64,
{
    let coords = match &e.coordinates {
        Some(c) => to_ascii_lowercase(c.as_str()),
        None => return None,
    };
    let square = match algebraic_to_square(coords.as_str()) {
        Some(sq) => sq,
        None => return None,
    };
    let piece_type = match &e.piece_type {
        Some(t) => t,
        None => return None,
    };
    let piece_color = match &e.player {
        Some(c) => c,
        None => return None,
    };
    let piece = match piece_name_color_to_piece(piece_type.as_str(), piece_color.as_str()) {
        Some(p) => p,
        None => return None,
    };
    if piece == Piece::WPawn || piece == Piece::BPawn {
        match e.en_passe_possible {
            Some(ep) => Some((square, piece, ep)),
            None => None,
        }
    } else {
        Some((square, piece, false))
    }
}

/// Reading the server's pieces never meets a pawn marked for en passant whose
/// jumped-over square would lie off the board.
fn server_entries_safe(list: &Vec<ServerPiece>, side: Color) -> (res: bool)
    ensures
        res == server_scan_safe(list@.map_values(|p: ServerPiece| p@), side, list@.len()),
{
    let ghost views = list@.map_values(|p: ServerPiece| p@);
    let n = list.len();
    let mut alive = true;
    let mut safe = true;
    let mut i: usize = 0;
    while i < n
        invariant
            i <= n,
            n == list@.len(),
            views == list@.map_values(|p: ServerPiece| p@),
            safe == server_scan_safe(views, side, i as nat),
            alive == server_scan(views, side, i as nat) is Some,
        decreases n - i,
    {
        assert(views[i as int] == list@[i as int]@);
        if alive {
            match read_entry(&list[i]) {
                None => {
                    alive = false;
                },
                Some((square, _, sets_ep)) => {
                    if sets_ep {
                        let rank_offset: i8 = match side.invert() {
                            Color::White => -1,
                            Color::Black => 1,
                        };
                        if crate::moves::offset_square(square, 0, rank_offset).is_none() {
                            safe = false;
                        }
                    }
                },
            }
        }
        i = i + 1;
    }
    safe
}

/// The server's board can be read without failing on an en-passant square.
pub fn is_server_board_safe(server: &ServerBoard) -> (res: bool)
    ensures
        res == server_board_safe(server@),
{
    match (&server.active_player, &server.pieces) {
        (Some(ap), Some(list)) => match side_from_name(ap.as_str()) {
            Some(side) => server_entries_safe(list, side),
            None => true,
        },
        _ => true,
    }
}

/// Builds the board that the server's report describes (see
/// `spec_board_from_server`), with an empty history.
pub fn board_from_server(server: &ServerBoard) -> (res: Option<Board>)
    requires
        server_board_safe(server@),
    ensures
        match spec_board_from_server(server@) {
            None => res is None,
            Some(p) => res is Some && res->0.pos() == p && res->0.position_history_hashed@
                == Seq::<u64>::empty(),
        },
{
    let side_to_move = match &server.active_player {
        Some(ap) => match side_from_name(ap.as_str()) {
            Some(side) => side,
            None => return None,
        },
        None => return None,
    };
    let list = match &server.pieces {
        Some(l) => l,
        None => return None,
    };
    let ghost views = list@.map_values(|p: ServerPiece| p@);
    let mut pieces: [Piece; 64] = [Piece::Empty; 64];
    let mut en_passant_target_square: Option<u8> = None;
    assert(pieces@ =~= Seq::new(64, |i: int| Piece::Empty));
    let n = list.len();
    let mut i: usize = 0;
    while i < n
        invariant
            i <= n,
            n == list@.len(),
            server@.pieces == Some(views),
            server@.active_player is Some,
            side_named(server@.active_player->0) == Some(side_to_move),
            views == list@.map_values(|p: ServerPiece| p@),
            server_board_safe(server@),
            server_scan(views, side_to_move, i as nat) == Some((pieces@, en_passant_target_square)),
        decreases n - i,
    {
        assert(views[i as int] == list@[i as int]@);
        match read_entry(&list[i]) {
            None => {
                proof {
                    lemma_scan_failure_persists(views, side_to_move, (i + 1) as nat, n as nat);
                }
                return None;
            },
            Some((square, piece, sets_ep)) => {
                proof {
                    lemma_scan_safe_prefix(views, side_to_move, (i + 1) as nat, n as nat);
                }
                if sets_ep {
                    en_passant_target_square = Some(get_en_pass_target_square(square, side_to_move.invert()));
                }
                pieces[square as usize] = piece;
            },
        }
        i = i + 1;
    }
    let white_queen_castling_possible = !has_piece_on_square_moved(list, "a1") && !has_piece_on_square_moved(list, "e1")
        && pieces[0] == Piece::WRook && pieces[4] == Piece::WKing;
    let white_king_castling_possible = !has_piece_on_square_moved(list, "e1") && !has_piece_on_square_moved(list, "h1")
        && pieces[4] == Piece::WKing && pieces[7] == Piece::WRook;
    let black_queen_castling_possible = !has_piece_on_square_moved(list, "a8") && !has_piece_on_square_moved(list, "e8")
        && pieces[56] == Piece::BRook && pieces[60] == Piece::BKing;
    let black_king_castling_possible = !has_piece_on_square_moved(list, "e8") && !has_piece_on_square_moved(list, "h8")
        && pieces[60] == Piece::BKing && pieces[63] == Piece::BRook;
    Some(
        Board {
            pieces,
            side_to_move,
            en_passant_target_square,
            white_king_castling_possible,
            white_queen_castling_possible,
            black_king_castling_possible,
            black_queen_castling_possible,
            position_history_hashed: Vec::new(),
        },
    )
}

proof fn lemma_scan_failure_persists(entries: Seq<ServerPieceView>, side: Color, k: nat, m: nat)
    requires
        k <= m,
        server_scan(entries, side, k) is None,
    ensures
        server_scan(entries, side, m) is None,
    decreases m - k,
{
    if k < m {
        lemma_scan_failure_persists(entries, side, k, (m - 1) as nat);
    }
}

proof fn lemma_scan_safe_prefix(entries: Seq<ServerPieceView>, side: Color, k: nat, m: nat)
    requires
        k <= m,
        server_scan_safe(entries, side, m),
    ensures
        server_scan_safe(entries, side, k),
    decreases m - k,
{
    if k < m {
        lemma_scan_safe_prefix(entries, side, k, (m - 1) as nat);
    }
}

/// What the game server's reply to a board request says, read as JSON: the
/// board under `response.board`, `None` when the text is not JSON.
pub uninterp spec fn parsed_server_board(text: Seq<char>) -> Option<ServerBoardView>;

/// Reads the game server's reply to a board request.
///
/// Trusted: `serde_json::from_str` parses the text into a JSON value, and the
/// fields `activePlayer`, `pieces` and, for each piece, `coordinates`, `type`,
/// `player`, `enPassePossible` and `hasMoved` are picked from
/// `response.board` (absent or mistyped fields become `None`). The contract
/// says only that the result is a function of the text, named
/// `parsed_server_board`; what JSON parsing gives is not restated.
#[verifier::external_body]
fn parse_server_board(text: &str) -> (res: Option<ServerBoard>)
    ensures
        match res {
            Some(b) => parsed_server_board(text@) == Some(b@),
            None => parsed_server_board(text@) is None,
        },
{
    let json: serde_json::Value = serde_json::from_str(text).ok()?;
    let board = &json["response"]["board"];
    let pieces = board["pieces"].as_array().map(|a| a.iter().map(|p| ServerPiece {
        coordinates: p["coordinates"].as_str().map(String::from),
        piece_type: p["type"].as_str().map(String::from),
        player: p["player"].as_str().map(String::from),
        en_passe_possible: p["enPassePossible"].as_bool(),
        has_moved: p["hasMoved"].as_bool(),
    }).collect());
    Some(ServerBoard { active_player: board["activePlayer"].as_str().map(String::from), pieces })
}

/// The board that the game server's reply describes, carrying over the
/// history of `board` and adding the new position to it. `None` when the
/// reply is not JSON, does not describe a board, or marks for en passant a
/// pawn whose jumped-over square lies off the board.
pub fn update_board(board: &mut Board, response: &str) -> (res: Option<Board>)
    ensures
        final(board).pos() == old(board).pos(),
        final(board).position_history_hashed@ == old(board).position_history_hashed@,
        match parsed_server_board(response@) {
            None => res is None,
            Some(sb) => if !server_board_safe(sb) {
                res is None
            } else {
                match spec_board_from_server(sb) {
                    None => res is None,
                    Some(p) => res is Some && res->0.pos() == p && res->0.position_history_hashed@
                        == old(board).position_history_hashed@.push(position_hash(p)),
                }
            },
        },
{
    let server = match parse_server_board(response) {
        Some(sb) => sb,
        None => return None,
    };
    if !is_server_board_safe(&server) {
        return None;
    }
    let mut new_board = match board_from_server(&server) {
        Some(b) => b,
        None => return None,
    };
    // the server cannot tell the earlier positions: keep our history and add the current one
    new_board.position_history_hashed = board.position_history_hashed.clone();
    assert(new_board.position_history_hashed@ =~= board.position_history_hashed@);
    new_board.add_current_position_to_history();
    Some(new_board)
}

/// The name the game server uses for the kind of a piece (knights and
/// bishops swapped, as the server reports them).
#[verifier::allow_in_spec]
pub fn server_piece_name(p: Piece) -> &'static str
    returns
        (match p {
            Piece::WPawn | Piece::BPawn => "PAWN",
            Piece::WKnight | Piece::BKnight => "BISHOP",
            Piece::WBishop | Piece::BBishop => "KNIGHT",
            Piece::WRook | Piece::BRook => "ROOK",
            Piece::WQueen | Piece::BQueen => "QUEEN",
            Piece::WKing | Piece::BKing => "KING",
            Piece::Empty => "EMPTY",
        }),
{
    match p {
        Piece::WPawn | Piece::BPawn => "PAWN",
        Piece::WKnight | Piece::BKnight => "BISHOP",
        Piece::WBishop | Piece::BBishop => "KNIGHT",
        Piece::WRook | Piece::BRook => "ROOK",
        Piece::WQueen | Piece::BQueen => "QUEEN",
        Piece::WKing | Piece::BKing => "KING",
        Piece::Empty => "EMPTY",
    }
}

/// The name the game server uses for a color.
#[verifier::allow_in_spec]
pub fn server_color_name(c: Color) -> &'static str
    returns
        (match c {
            Color::White => "WHITE",
            Color::Black => "BLACK",
        }),
{
    match c {
        Color::White => "WHITE",
        Color::Black => "BLACK",
    }
}

/// A move as the game server expects it, squares named in upper case (`E2`).
pub enum MoveRequest {
    /// A promotion, with the server's name of the new piece.
    PawnReachesEnd { from: String, to: String, new_piece: String },
    /// Castling, naming the king's square and the rook's square.
    Castling { king: String, rook: String },
    /// Any other move.
    Normal { from: String, to: String },
}

/// The upper-case algebraic name of a square (`E2`).
pub open spec fn server_square(square: u8) -> Seq<char> {
    seq![(file_letter(square) as int - 32) as char, rank_digit(square)]
}

/// The request is the one the server expects for `m`.
pub open spec fn is_request_for(r: MoveRequest, m: Move) -> bool {
    match m.move_type {
        MoveType::Promotion(p) => r matches MoveRequest::PawnReachesEnd { from, to, new_piece }
            && from@ == server_square(m.from) && to@ == server_square(m.to) && new_piece@
            == server_piece_name(p)@,
        MoveType::CastleKingside => r matches MoveRequest::Castling { king, rook } && king@
            == server_square(m.from) && rook@ == server_square((m.to + 1) as u8),
        MoveType::CastleQueenside => r matches MoveRequest::Castling { king, rook } && king@
            == server_square(m.from) && rook@ == server_square((m.to - 2) as u8),
        _ => r matches MoveRequest::Normal { from, to } && from@ == server_square(m.from) && to@
            == server_square(m.to),
    }
}

fn server_square_name(square: u8) -> (res: String)
    ensures
        res@ == server_square(square),
{
    let lower = square_to_algebraic(square);
    let file = lower.as_str().get_char(0);
    let rank = lower.as_str().get_char(1);
    let mut s = String::new();
    push_char(&mut s, ((file as u8) - 32) as char);
    push_char(&mut s, rank);
    assert(s@ =~= server_square(square));
    s
}

/// The request that sends `m` to the game server: the rook of a kingside
/// castling stands one file right of the king's target, that of a queenside
/// castling two files left of it.
pub fn move_request(m: &Move) -> (res: MoveRequest)
    requires
        m.move_type == MoveType::CastleKingside ==> m.to < 255,
        m.move_type == MoveType::CastleQueenside ==> m.to >= 2,
    ensures
        is_request_for(res, *m),
{
    match m.move_type {
        MoveType::Promotion(new_piece) => MoveRequest::PawnReachesEnd {
            from: server_square_name(m.from),
            to: server_square_name(m.to),
            new_piece: crate::text::string_of(server_piece_name(new_piece)),
        },
        MoveType::CastleKingside => MoveRequest::Castling {
            king: server_square_name(m.from),
            rook: server_square_name(m.to + 1),
        },
        MoveType::CastleQueenside => MoveRequest::Castling {
            king: server_square_name(m.from),
            rook: server_square_name(m.to - 2),
        },
        _ => MoveRequest::Normal { from: server_square_name(m.from), to: server_square_name(m.to) },
    }
}

/// What the game server's reply to a move says, read as JSON: the JSON text
/// of `response.error` when there is one, or the parser's message when the
/// reply is not JSON.
pub uninterp spec fn move_reply(text: Seq<char>) -> Result<Option<Seq<char>>, Seq<char>>;

/// Reads the game server's reply to a move.
///
/// Trusted: `serde_json::from_str` parses the text (its error's message when it
/// fails), and the member `error` of `response` is written back as JSON text.
/// The contract says only that the result is a function of the text, named
/// `move_reply`.
#[verifier::external_body]
fn read_move_reply(text: &str) -> (res: Result<Option<String>, String>)
    ensures
        match res {
            Ok(Some(e)) => move_reply(text@) == Ok::<Option<Seq<char>>, Seq<char>>(Some(e@)),
            Ok(None) => move_reply(text@) == Ok::<Option<Seq<char>>, Seq<char>>(None),
            Err(msg) => move_reply(text@) == Err::<Option<Seq<char>>, Seq<char>>(msg@),
        },
{
    let dict: serde_json::Value = serde_json::from_str(text).map_err(|e| e.to_string())?;
    Ok(dict["response"].get("error").map(|e| e.to_string()))
}

/// Whether the server accepted a move: `Ok` with the reply text, or the
/// server's error (or the JSON parser's message) as `Err`.
pub fn move_reply_outcome(text: &str) -> (res: Result<String, String>)
    ensures
        match move_reply(text@) {
            Ok(None) => res is Ok && res->Ok_0@ == text@,
            Ok(Some(e)) => res is Err && res->Err_0@ == e,
            Err(msg) => res is Err && res->Err_0@ == msg,
        },
{
    match read_move_reply(text) {
        Ok(None) => Ok(crate::text::string_of(text)),
        Ok(Some(e)) => Err(e),
        Err(msg) => Err(msg),
    }
}

/// What a server reply gives as `response.board.active_player`, read as JSON:
/// `None` when the text is not JSON, `Some(None)` when the member is missing
/// or is not a string.
pub uninterp spec fn reply_active_player(text: Seq<char>) -> Option<Option<Seq<char>>>;

/// Reads `response.board.active_player` from a server reply.
///
/// Trusted: `serde_json::from_str` parses the text, indexing a JSON value by a
/// missing key gives `Null`, and `as_str` gives the string of a string value
/// and `None` otherwise. The contract says only that the result is a function
/// of the text, named `reply_active_player`; what JSON parsing gives is not
/// restated.
#[verifier::external_body]
fn read_reply_active_player(text: &str) -> (res: Option<Option<String>>)
    ensures
        match res {
            None => reply_active_player(text@) is None,
            Some(None) => reply_active_player(text@) == Some(None::<Seq<char>>),
            Some(Some(ap)) => reply_active_player(text@) == Some(Some(ap@)),
        },
{
    let json: serde_json::Value = serde_json::from_str(text).ok()?;
    Some(json["response"]["board"]["active_player"].as_str().map(String::from))
}

/// The reply names no active player other than `WHITE` or `BLACK`.
pub open spec fn known_active_player(text: Seq<char>) -> bool {
    reply_active_player(text) matches Some(Some(ap)) ==> (ap == "WHITE"@ || ap == "BLACK"@)
}

/// Whether the reply names no active player other than `WHITE` or `BLACK`
/// (what `parse_response` requires).
pub fn reply_player_known(text: &str) -> (res: bool)
    ensures
        res == known_active_player(text@),
{
    match read_reply_active_player(text) {
        Some(Some(ap)) => same_text(ap.as_str(), "WHITE") || same_text(ap.as_str(), "BLACK"),
        _ => true,
    }
}

/// The board that `parse_response` reads from a reply whose active player is
/// `ap`: the initial position, with Black to move when the reply names
/// `BLACK` and White otherwise.
pub open spec fn reply_position(ap: Option<Seq<char>>) -> Position {
    let start = crate::fen::start_position();
    Position {
        side: if ap == Some("BLACK"@) {
            Color::Black
        } else {
            Color::White
        },
        ..start
    }
}

/// Reads a server reply into a board: the initial position, with the side
/// to move taken from `response.board.active_player` (White when the member
/// is missing or not a string), and an empty history. `None` when the reply
/// is not JSON.
pub fn parse_response(text: &str) -> (res: Option<Board>)
    requires
        known_active_player(text@),
    ensures
        reply_active_player(text@) is None ==> res is None,
        reply_active_player(text@) matches Some(ap) ==> res matches Some(b) && b.pos()
            == reply_position(ap) && b.position_history_hashed@ == Seq::<u64>::empty(),
{
    let mut res_board = crate::fen::setup_board();
    match read_reply_active_player(text) {
        None => return None,
        Some(Some(ap)) => {
            if same_text(ap.as_str(), "WHITE") {
                res_board.side_to_move = Color::White;
            } else {
                res_board.side_to_move = Color::Black;
            }
        },
        Some(None) => {},
    }
    proof {
        reveal_strlit("WHITE");
        reveal_strlit("BLACK");
        assert("WHITE"@ != "BLACK"@) by {
            assert("WHITE"@[0] != "BLACK"@[0]);
        }
    }
    assert(res_board.pos() =~= reply_position(reply_active_player(text@)->0));
    Some(res_board)
}

/// `parse_response` where the reply's active player is known: `None` when
/// it names another player, `Some` of what `parse_response` gives otherwise.
pub fn try_parse_response(text: &str) -> (res: Option<Option<Board>>)
    ensures
        res is None <==> !known_active_player(text@),
        res matches Some(r) ==> (reply_active_player(text@) is None ==> r is None),
        res matches Some(r) ==> (reply_active_player(text@) matches Some(ap) ==> r matches Some(b)
            && b.pos() == reply_position(ap) && b.position_history_hashed@ == Seq::<u64>::empty()),
{
    if !reply_player_known(text) {
        return None;
    }
    Some(parse_response(text))
}

/// Why a server reply to a board request gives no board.
pub enum ServerBoardError {
    /// The reply is not JSON.
    NotJson,
    /// `activePlayer` is missing or not a string.
    MissingActivePlayer,
    /// `activePlayer` is a string other than `WHITE` or `BLACK`.
    InvalidColor(String),
    /// `pieces` is missing or not an array.
    MissingPieces,
    /// A piece has no `coordinates` string.
    MissingCoordinates,
    /// A piece's coordinates (lower-cased) do not name a square.
    BadCoordinates(String),
    /// A piece has no `type` string.
    MissingPieceType,
    /// A piece has no `player` string.
    MissingPlayer,
    /// A piece's player and type (in that order) name no piece.
    UnknownPiece(String, String),
    /// A pawn has no `enPassePossible` flag.
    MissingEnPassant,
    /// A pawn marked for en passant stands where the square it jumped over
    /// would lie off the board.
    EnPassantOffBoard,
}

/// The mathematical form of `ServerBoardError`.
pub enum ServerProblem {
    NotJson,
    MissingActivePlayer,
    InvalidColor(Seq<char>),
    MissingPieces,
    MissingCoordinates,
    BadCoordinates(Seq<char>),
    MissingPieceType,
    MissingPlayer,
    UnknownPiece(Seq<char>, Seq<char>),
    MissingEnPassant,
    EnPassantOffBoard,
}

impl View for ServerBoardError {
    type V = ServerProblem;

    open spec fn view(&self) -> ServerProblem {
        match self {
            ServerBoardError::NotJson => ServerProblem::NotJson,
            ServerBoardError::MissingActivePlayer => ServerProblem::MissingActivePlayer,
            ServerBoardError::InvalidColor(s) => ServerProblem::InvalidColor(s@),
            ServerBoardError::MissingPieces => ServerProblem::MissingPieces,
            ServerBoardError::MissingCoordinates => ServerProblem::MissingCoordinates,
            ServerBoardError::BadCoordinates(s) => ServerProblem::BadCoordinates(s@),
            ServerBoardError::MissingPieceType => ServerProblem::MissingPieceType,
            ServerBoardError::MissingPlayer => ServerProblem::MissingPlayer,
            ServerBoardError::UnknownPiece(a, b) => ServerProblem::UnknownPiece(a@, b@),
            ServerBoardError::MissingEnPassant => ServerProblem::MissingEnPassant,
            ServerBoardError::EnPassantOffBoard => ServerProblem::EnPassantOffBoard,
        }
    }
}

/// What keeps one server piece from being read, checked in the order
/// coordinates, square, type, player, piece, en-passant flag, and the square
/// the flag points to; `None` when the entry is read.
pub open spec fn entry_problem(e: ServerPieceView, side: Color) -> Option<ServerProblem> {
    match e.coordinates {
        None => Some(ServerProblem::MissingCoordinates),
        Some(coords) => match spec_algebraic_to_square(lower_text(coords)) {
            None => Some(ServerProblem::BadCoordinates(lower_text(coords))),
            Some(square) => match e.piece_type {
                None => Some(ServerProblem::MissingPieceType),
                Some(name) => match e.player {
                    None => Some(ServerProblem::MissingPlayer),
                    Some(player) => match piece_named(name, player) {
                        None => Some(ServerProblem::UnknownPiece(player, name)),
                        Some(piece) => if piece == Piece::WPawn || piece == Piece::BPawn {
                            match e.en_passe_possible {
                                None => Some(ServerProblem::MissingEnPassant),
                                Some(true) => if square_offset(
                                    square,
                                    0,
                                    en_passant_rank_offset(side.invert()),
                                ) is None {
                                    Some(ServerProblem::EnPassantOffBoard)
                                } else {
                                    None
                                },
                                Some(false) => None,
                            }
                        } else {
                            None
                        },
                    },
                },
            },
        },
    }
}

/// The problem of the first of the first `n` server pieces that has one.
pub open spec fn first_entry_problem(entries: Seq<ServerPieceView>, side: Color, n: nat) -> Option<ServerProblem>
    decreases n,
{
    if n == 0 {
        None
    } else {
        match first_entry_problem(entries, side, (n - 1) as nat) {
            Some(pr) => Some(pr),
            None => entry_problem(entries[n - 1], side),
        }
    }
}

/// Why the server reply gives no board, checked in the order the reply is
/// read: JSON, active player, its color, the piece list, then each piece.
pub open spec fn server_problem(text: Seq<char>) -> Option<ServerProblem> {
    match parsed_server_board(text) {
        None => Some(ServerProblem::NotJson),
        Some(b) => match b.active_player {
            None => Some(ServerProblem::MissingActivePlayer),
            Some(ap) => match side_named(ap) {
                None => Some(ServerProblem::InvalidColor(ap)),
                Some(side) => match b.pieces {
                    None => Some(ServerProblem::MissingPieces),
                    Some(list) => first_entry_problem(list, side, list.len()),
                },
            },
        },
    }
}

proof fn lemma_first_problem(entries: Seq<ServerPieceView>, side: Color, n: nat)
    requires
        n <= entries.len(),
    ensures
        first_entry_problem(entries, side, n) is None <==> (server_scan(entries, side, n) is Some
            && server_scan_safe(entries, side, n)),
    decreases n,
{
    if n > 0 {
        lemma_first_problem(entries, side, (n - 1) as nat);
    }
}

/// A server reply names a problem exactly when `update_board` gives no
/// board for it.
pub proof fn lemma_problem_iff_no_board(text: Seq<char>)
    ensures
        server_problem(text) is None <==> (parsed_server_board(text) matches Some(sb)
            && server_board_safe(sb) && spec_board_from_server(sb) is Some),
{
    if let Some(b) = parsed_server_board(text) {
        if let (Some(ap), Some(list)) = (b.active_player, b.pieces) {
            if let Some(side) = side_named(ap) {
                lemma_first_problem(list, side, list.len());
            }
        }
    }
}

fn read_entry_problem(e: &ServerPiece, side: Color) -> (res: Option<ServerBoardError>)
    ensures
        res matches Some(pr) ==> entry_problem(e@, side) == Some(pr@),
        res is None ==> entry_problem(e@, side) is None,
{
    let coords = match &e.coordinates {
        Some(c) => to_ascii_lowercase(c.as_str()),
        None => return Some(ServerBoardError::MissingCoordinates),
    };
    let square = match algebraic_to_square(coords.as_str()) {
        Some(sq) => sq,
        None => return Some(ServerBoardError::BadCoordinates(coords)),
    };
    let piece_type = match &e.piece_type {
        Some(t) => t,
        None => return Some(ServerBoardError::MissingPieceType),
    };
    let player = match &e.player {
        Some(c) => c,
        None => return Some(ServerBoardError::MissingPlayer),
    };
    let piece = match piece_name_color_to_piece(piece_type.as_str(), player.as_str()) {
        Some(p) => p,
        None => {
            return Some(
                ServerBoardError::UnknownPiece(
                    crate::text::string_of(player.as_str()),
                    crate::text::string_of(piece_type.as_str()),
                ),
            )
        },
    };
    if piece == Piece::WPawn || piece == Piece::BPawn {
        match e.en_passe_possible {
            None => Some(ServerBoardError::MissingEnPassant),
            Some(true) => {
                let rank_offset: i8 = match side.invert() {
                    Color::White => -1,
                    Color::Black => 1,
                };
                if crate::moves::offset_square(square, 0, rank_offset).is_none() {
                    Some(ServerBoardError::EnPassantOffBoard)
                } else {
                    None
                }
            },
            Some(false) => None,
        }
    } else {
        None
    }
}

/// Why `update_board` gives no board for this reply; `None` when it gives one.
pub fn server_reply_problem(response: &str) -> (res: Option<ServerBoardError>)
    ensures
        res matches Some(pr) ==> server_problem(response@) == Some(pr@),
        res is None ==> server_problem(response@) is None,
{
    let server = match parse_server_board(response) {
        Some(sb) => sb,
        None => return Some(ServerBoardError::NotJson),
    };
    let ap = match &server.active_player {
        Some(ap) => ap,
        None => return Some(ServerBoardError::MissingActivePlayer),
    };
    let side = match side_from_name(ap.as_str()) {
        Some(side) => side,
        None => return Some(ServerBoardError::InvalidColor(crate::text::string_of(ap.as_str()))),
    };
    let list = match &server.pieces {
        Some(l) => l,
        None => return Some(ServerBoardError::MissingPieces),
    };
    let ghost views = list@.map_values(|p: ServerPiece| p@);
    let n = list.len();
    let mut i: usize = 0;
    while i < n
        invariant
            i <= n,
            n == list@.len(),
            views == list@.map_values(|p: ServerPiece| p@),
            server_problem(response@) == first_entry_problem(views, side, n as nat),
            first_entry_problem(views, side, i as nat) is None,
        decreases n - i,
    {
        assert(views[i as int] == list@[i as int]@);
        match read_entry_problem(&list[i], side) {
            Some(pr) => {
                proof {
                    lemma_first_problem_persists(views, side, (i + 1) as nat, n as nat);
                }
                return Some(pr);
            },
            None => {},
        }
        i = i + 1;
    }
    None
}

proof fn lemma_first_problem_persists(entries: Seq<ServerPieceView>, side: Color, k: nat, m: nat)
    requires
        k <= m,
        first_entry_problem(entries, side, k) is Some,
    ensures
        first_entry_problem(entries, side, m) == first_entry_problem(entries, side, k),
    decreases m - k,
{
    if k < m {
        lemma_first_problem_persists(entries, side, k, (m - 1) as nat);
    }
}

} // verus!
