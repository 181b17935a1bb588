//! A word on the screen.
use vstd::prelude::*;
use vstd::utf8::encode_utf8;

verus! {

/// The colours in which the game paints text.
#[derive(Clone, Copy, Debug, PartialEq, Eq, Structural)]
pub enum Color {
    White,
    Cyan,
    Green,
    Yellow,
}

/// A word drifting across the play area, its text and position.
pub struct Word {
    pub word: String,
    pub hitpoint: i8,
    pub deleted: bool,
    pub x: u16,
    pub y: u16,
}

/// The number of bytes of the UTF-8 encoding of `s`, cut to 16 bits the way
/// `as u16` cuts it: the width the game reserves for a word on screen.
pub open spec fn drawn_len(s: Seq<char>) -> u16 {
    (encode_utf8(s).len() as usize) as u16
}

impl Word {
    /// A word as it first appears: in column 1 of row `y`, with two hit points.
    pub open spec fn fresh(word: String, y: u16) -> Word {
        Word { word, hitpoint: 2, deleted: false, x: 1, y }
    }

    pub fn new(word: String, y: u16) -> (w: Word)
        ensures
            w == Word::fresh(word, y),
    {
        Word { word, hitpoint: 2, deleted: false, x: 1, y }
    }

    /// The screen width of this word, as `drawn_len` says.
    pub fn drawn_len(&self) -> (n: u16)
        ensures
            n == drawn_len(self.word@),
    {
        self.word.as_str().len() as u16
    }

    /// The colour of a word when the screen is first drawn, or `None` when
    /// the word is not drawn at all.
    pub open spec fn spec_draw_color(self) -> Option<Color> {
        if self.deleted {
            None
        } else if self.hitpoint == 2 {
            Some(Color::Cyan)
        } else if self.hitpoint == 1 {
            Some(Color::Green)
        } else {
            None
        }
    }

    /// The colour of a word when the screen is redrawn, or `None` when the
    /// word is not drawn at all.
    pub open spec fn spec_update_color(self) -> Option<Color> {
        if self.deleted {
            None
        } else if self.hitpoint == 2 {
            Some(Color::Yellow)
        } else if self.hitpoint == 1 {
            Some(Color::Green)
        } else {
            None
        }
    }

    pub fn draw_color(&self) -> (c: Option<Color>)
        ensures
            c == self.spec_draw_color(),
    {
        if !self.deleted {
            match self.hitpoint {
                2 => Some(Color::Cyan),
                1 => Some(Color::Green),
                _ => None,
            }
        } else {
            None
        }
    }

    pub fn update_color(&self) -> (c: Option<Color>)
        ensures
            c == self.spec_update_color(),
    {
        if !self.deleted {
            match self.hitpoint {
                2 => Some(Color::Yellow),
                1 => Some(Color::Green),
                _ => None,
            }
        } else {
            None
        }
    }
}

} // verus!
