use vstd::prelude::*;

verus! {

/// Number of distinct tile colors.
pub const NUM_TILE_COLORS: usize = 5;

/// The five tile colors, numbered 0 to 4 in this order.
#[derive(Copy, Clone, Debug, PartialEq, Eq, Hash, Structural)]
pub enum TileColor {
    Blue,
    Yellow,
    Red,
    Black,
    White,
}

/// The number of a color, 0 for blue up to 4 for white.
pub open spec fn color_index(c: TileColor) -> nat {
    match c {
        TileColor::Blue => 0,
        TileColor::Yellow => 1,
        TileColor::Red => 2,
        TileColor::Black => 3,
        TileColor::White => 4,
    }
}

/// The color with number `i` (`i < 5`).
pub open spec fn color_of_index(i: int) -> TileColor {
    if i == 0 {
        TileColor::Blue
    } else if i == 1 {
        TileColor::Yellow
    } else if i == 2 {
        TileColor::Red
    } else if i == 3 {
        TileColor::Black
    } else {
        TileColor::White
    }
}

/// The letter of a color in plain text.
pub open spec fn color_char(c: TileColor) -> char {
    match c {
        TileColor::Blue => 'B',
        TileColor::Yellow => 'Y',
        TileColor::Red => 'R',
        TileColor::Black => 'K',
        TileColor::White => 'W',
    }
}

/// The ANSI color code with which a color is printed on a terminal.
pub open spec fn color_code(c: TileColor) -> Seq<char> {
    match c {
        TileColor::Blue => seq!['3', '4'],
        TileColor::Yellow => seq!['3', '3'],
        TileColor::Red => seq!['3', '1'],
        TileColor::Black => seq!['3', '2'],
        TileColor::White => seq!['9', '7'],
    }
}

/// The letter with which a color is drawn on a terminal (black is drawn green).
pub open spec fn display_char(c: TileColor) -> char {
    match c {
        TileColor::Blue => 'B',
        TileColor::Yellow => 'Y',
        TileColor::Red => 'R',
        TileColor::Black => 'G',
        TileColor::White => 'W',
    }
}

/// The escape sequence that switches the terminal to a color.
pub open spec fn color_start(c: TileColor) -> Seq<char> {
    seq!['\x1b', '['] + color_code(c) + seq!['m']
}

/// The escape sequence that resets the terminal color.
pub open spec fn color_end() -> Seq<char> {
    seq!['\x1b', '[', '0', 'm']
}

/// A color as drawn on a terminal: its letter between the two escape sequences.
pub open spec fn color_display(c: TileColor) -> Seq<char> {
    color_start(c) + seq![display_char(c)] + color_end()
}

pub proof fn lemma_color_index_roundtrip(c: TileColor)
    ensures
        color_index(c) < 5,
        color_of_index(color_index(c) as int) == c,
{
}

pub proof fn lemma_color_of_index_roundtrip(i: int)
    requires
        0 <= i < 5,
    ensures
        color_index(color_of_index(i)) == i,
{
}

/// Appends one character to a string.
#[verifier::external_body]
pub(crate) fn push_char(s: &mut String, c: char)
    ensures
        final(s)@ == old(s)@.push(c),
{
    s.push(c)
}

impl TileColor {
    /// The color with number `color`; the number must be below 5.
    pub fn from_u8(color: u8) -> (c: TileColor)
        requires
            color < 5,
        ensures
            c == color_of_index(color as int),
            color_index(c) == color,
    {
        match color {
            0 => TileColor::Blue,
            1 => TileColor::Yellow,
            2 => TileColor::Red,
            3 => TileColor::Black,
            _ => TileColor::White,
        }
    }

    /// The color with number `color`; the number must be below 5.
    pub fn from_usize(color: usize) -> (c: TileColor)
        requires
            color < 5,
        ensures
            c == color_of_index(color as int),
            color_index(c) == color,
    {
        match color {
            0 => TileColor::Blue,
            1 => TileColor::Yellow,
            2 => TileColor::Red,
            3 => TileColor::Black,
            _ => TileColor::White,
        }
    }

    /// The number of the color.
    pub fn to_u8(self) -> (n: u8)
        ensures
            n == color_index(self),
            n < 5,
    {
        match self {
            TileColor::Blue => 0,
            TileColor::Yellow => 1,
            TileColor::Red => 2,
            TileColor::Black => 3,
            TileColor::White => 4,
        }
    }

    /// The number of the color.
    pub fn to_usize(self) -> (n: usize)
        ensures
            n == color_index(self),
            n < 5,
    {
        match self {
            TileColor::Blue => 0,
            TileColor::Yellow => 1,
            TileColor::Red => 2,
            TileColor::Black => 3,
            TileColor::White => 4,
        }
    }

    /// The letter of the color: B, Y, R, K or W.
    pub fn to_char(self) -> (ch: char)
        ensures
            ch == color_char(self),
    {
        match self {
            TileColor::Blue => 'B',
            TileColor::Yellow => 'Y',
            TileColor::Red => 'R',
            TileColor::Black => 'K',
            TileColor::White => 'W',
        }
    }

    /// The escape sequences that start and end the color on a terminal.
    pub fn get_color_string(&self) -> (r: (String, String))
        ensures
            r.0@ == color_start(*self),
            r.1@ == color_end(),
    {
        let mut start = String::new();
        push_char(&mut start, '\x1b');
        push_char(&mut start, '[');
        match *self {
            TileColor::Blue => {
                push_char(&mut start, '3');
                push_char(&mut start, '4');
            },
            TileColor::Yellow => {
                push_char(&mut start, '3');
                push_char(&mut start, '3');
            },
            TileColor::Red => {
                push_char(&mut start, '3');
                push_char(&mut start, '1');
            },
            TileColor::Black => {
                push_char(&mut start, '3');
                push_char(&mut start, '2');
            },
            TileColor::White => {
                push_char(&mut start, '9');
                push_char(&mut start, '7');
            },
        }
        push_char(&mut start, 'm');
        let mut end = String::new();
        push_char(&mut end, '\x1b');
        push_char(&mut end, '[');
        push_char(&mut end, '0');
        push_char(&mut end, 'm');
        (start, end)
    }

    /// The color as drawn on a terminal: its letter in its color.
    pub fn to_display_string(&self) -> (s: String)
        ensures
            s@ == color_display(*self),
    {
        let (mut s, end) = self.get_color_string();
        let ch = match *self {
            TileColor::Blue => 'B',
            TileColor::Yellow => 'Y',
            TileColor::Red => 'R',
            TileColor::Black => 'G',
            TileColor::White => 'W',
        };
        push_char(&mut s, ch);
        push_char(&mut s, '\x1b');
        push_char(&mut s, '[');
        push_char(&mut s, '0');
        push_char(&mut s, 'm');
        assert(end@ == color_end());
        s
    }
}

} // verus!
