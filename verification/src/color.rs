//! The six mana symbols.

use vstd::prelude::*;
use vstd::string::*;

verus! {

/// A mana symbol: one of the five colors, or colorless.
#[derive(Clone, Copy, Debug, PartialEq, Eq, Structural)]
pub enum Color {
    White,
    Blue,
    Black,
    Red,
    Green,
    Colorless,
}

impl Color {
    /// The single letter that stands for this symbol in a deck list.
    pub open spec fn letter(self) -> char {
        match self {
            Color::White => 'W',
            Color::Blue => 'U',
            Color::Black => 'B',
            Color::Red => 'R',
            Color::Green => 'G',
            Color::Colorless => 'C',
        }
    }

    /// What a piece of text names: a symbol if it is exactly one of the six
    /// letters, nothing otherwise.
    pub open spec fn parse(text: Seq<char>) -> Option<Color> {
        if text.len() != 1 {
            None
        } else if text[0] == 'W' {
            Some(Color::White)
        } else if text[0] == 'U' {
            Some(Color::Blue)
        } else if text[0] == 'B' {
            Some(Color::Black)
        } else if text[0] == 'R' {
            Some(Color::Red)
        } else if text[0] == 'G' {
            Some(Color::Green)
        } else if text[0] == 'C' {
            Some(Color::Colorless)
        } else {
            None
        }
    }

    /// Reads a symbol from its one-letter spelling.
    pub fn from_symbol(text: &str) -> (r: Option<Color>)
        ensures
            r == Color::parse(text@),
    {
        if text.unicode_len() != 1 {
            return None;
        }
        let c: char = text.get_char(0);
        if c == 'W' {
            Some(Color::White)
        } else if c == 'U' {
            Some(Color::Blue)
        } else if c == 'B' {
            Some(Color::Black)
        } else if c == 'R' {
            Some(Color::Red)
        } else if c == 'G' {
            Some(Color::Green)
        } else if c == 'C' {
            Some(Color::Colorless)
        } else {
            None
        }
    }

    /// The one-letter spelling of this symbol.
    pub fn symbol(self) -> (r: char)
        ensures
            r == self.letter(),
            Color::parse(seq![r]) == Some(self),
    {
        match self {
            Color::White => 'W',
            Color::Blue => 'U',
            Color::Black => 'B',
            Color::Red => 'R',
            Color::Green => 'G',
            Color::Colorless => 'C',
        }
    }
}

} // verus!
