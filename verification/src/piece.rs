use vstd::prelude::*;

verus! {

/// The two sides of a chess game.
#[derive(Clone, Copy, PartialEq, Eq, Structural, Debug, Hash)]
pub enum Color {
    White,
    Black,
}

/// A square's content: empty, or one of the six kinds of pieces of either color.
#[derive(Clone, Copy, PartialEq, Eq, Structural, Debug, Hash)]
pub enum Piece {
    Empty,
    WKing,
    WQueen,
    WBishop,
    WKnight,
    WRook,
    WPawn,
    BKing,
    BQueen,
    BBishop,
    BKnight,
    BRook,
    BPawn,
}

impl Color {
    /// The pawn of this color.
    #[verifier::allow_in_spec]
    pub fn pawn(self) -> Piece
        returns
            (match self {
                Color::White => Piece::WPawn,
                Color::Black => Piece::BPawn,
            }),
    {
        match self {
            Color::White => Piece::WPawn,
            Color::Black => Piece::BPawn,
        }
    }

    /// The knight of this color.
    #[verifier::allow_in_spec]
    pub fn knight(self) -> Piece
        returns
            (match self {
                Color::White => Piece::WKnight,
                Color::Black => Piece::BKnight,
            }),
    {
        match self {
            Color::White => Piece::WKnight,
            Color::Black => Piece::BKnight,
        }
    }

    /// The bishop of this color.
    #[verifier::allow_in_spec]
    pub fn bishop(self) -> Piece
        returns
            (match self {
                Color::White => Piece::WBishop,
                Color::Black => Piece::BBishop,
            }),
    {
        match self {
            Color::White => Piece::WBishop,
            Color::Black => Piece::BBishop,
        }
    }

    /// The rook of this color.
    #[verifier::allow_in_spec]
    pub fn rook(self) -> Piece
        returns
            (match self {
                Color::White => Piece::WRook,
                Color::Black => Piece::BRook,
            }),
    {
        match self {
            Color::White => Piece::WRook,
            Color::Black => Piece::BRook,
        }
    }

    /// The queen of this color.
    #[verifier::allow_in_spec]
    pub fn queen(self) -> Piece
        returns
            (match self {
                Color::White => Piece::WQueen,
                Color::Black => Piece::BQueen,
            }),
    {
        match self {
            Color::White => Piece::WQueen,
            Color::Black => Piece::BQueen,
        }
    }

    /// The king of this color.
    #[verifier::allow_in_spec]
    pub fn king(self) -> Piece
        returns
            (match self {
                Color::White => Piece::WKing,
                Color::Black => Piece::BKing,
            }),
    {
        match self {
            Color::White => Piece::WKing,
            Color::Black => Piece::BKing,
        }
    }

    /// The other color.
    #[verifier::allow_in_spec]
    pub fn invert(self) -> Color
        returns
            (match self {
                Color::White => Color::Black,
                Color::Black => Color::White,
            }),
    {
        match self {
            Color::White => Color::Black,
            Color::Black => Color::White,
        }
    }
}

impl Piece {
    /// The color of the piece, or `None` for an empty square.
    #[verifier::allow_in_spec]
    pub fn color(&self) -> Option<Color>
        returns
            (match *self {
                Piece::Empty => None,
                Piece::WKing | Piece::WQueen | Piece::WRook | Piece::WBishop | Piece::WKnight
                | Piece::WPawn => Some(Color::White),
                Piece::BKing | Piece::BQueen | Piece::BBishop | Piece::BRook | Piece::BKnight
                | Piece::BPawn => Some(Color::Black),
            }),
    {
        match self {
            Piece::Empty => None,
            Piece::WKing | Piece::WQueen | Piece::WRook | Piece::WBishop | Piece::WKnight
            | Piece::WPawn => Some(Color::White),
            Piece::BKing | Piece::BQueen | Piece::BBishop | Piece::BRook | Piece::BKnight
            | Piece::BPawn => Some(Color::Black),
        }
    }

    /// The material value of the piece: positive for white, negative for black,
    /// zero for kings and empty squares.
    #[verifier::allow_in_spec]
    pub fn score(&self) -> isize
        returns
            (match *self {
                Piece::Empty | Piece::WKing | Piece::BKing => 0isize,
                Piece::WPawn => 1isize,
                Piece::WBishop | Piece::WKnight => 3isize,
                Piece::WRook => 5isize,
                Piece::WQueen => 9isize,
                Piece::BPawn => -1isize,
                Piece::BBishop | Piece::BKnight => -3isize,
                Piece::BRook => -5isize,
                Piece::BQueen => -9isize,
            }),
    {
        match self {
            Piece::Empty | Piece::WKing | Piece::BKing => 0,
            Piece::WPawn => 1,
            Piece::WBishop | Piece::WKnight => 3,
            Piece::WRook => 5,
            Piece::WQueen => 9,
            Piece::BPawn => -1,
            Piece::BBishop | Piece::BKnight => -3,
            Piece::BRook => -5,
            Piece::BQueen => -9,
        }
    }

    /// The character that stands for the piece on a printed board
    /// (chess figurines, `'.'` for an empty square).
    #[verifier::allow_in_spec]
    pub fn symbol(&self) -> char
        returns
            (match *self {
                Piece::Empty => '.',
                Piece::BKing => '\u{2654}',
                Piece::BQueen => '\u{2655}',
                Piece::BBishop => '\u{2657}',
                Piece::BKnight => '\u{2658}',
                Piece::BRook => '\u{2656}',
                Piece::BPawn => '\u{2659}',
                Piece::WKing => '\u{265A}',
                Piece::WQueen => '\u{265B}',
                Piece::WBishop => '\u{265D}',
                Piece::WKnight => '\u{265E}',
                Piece::WRook => '\u{265C}',
                Piece::WPawn => '\u{265F}',
            }),
    {
        match self {
            Piece::Empty => '.',
            Piece::BKing => '\u{2654}',
            Piece::BQueen => '\u{2655}',
            Piece::BBishop => '\u{2657}',
            Piece::BKnight => '\u{2658}',
            Piece::BRook => '\u{2656}',
            Piece::BPawn => '\u{2659}',
            Piece::WKing => '\u{265A}',
            Piece::WQueen => '\u{265B}',
            Piece::WBishop => '\u{265D}',
            Piece::WKnight => '\u{265E}',
            Piece::WRook => '\u{265C}',
            Piece::WPawn => '\u{265F}',
        }
    }
}

} // verus!
