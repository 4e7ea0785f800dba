use vstd::prelude::*;

verus! {

/// The sixteen colors of the text-mode palette.
#[derive(Debug, Clone, Copy, PartialEq, Eq, Structural)]
pub enum Color {
    Black,
    Blue,
    Green,
    Cyan,
    Red,
    Magenta,
    Brown,
    LightGray,
    DarkGray,
    LightBlue,
    LightGreen,
    LightCyan,
    LightRed,
    Pink,
    Yellow,
    White,
}

/// The hardware palette index of a color. This table is part of the
/// display hardware's contract and never follows declaration order
/// implicitly.
pub open spec fn color_id(c: Color) -> u8 {
    match c {
        Color::Black => 0,
        Color::Blue => 1,
        Color::Green => 2,
        Color::Cyan => 3,
        Color::Red => 4,
        Color::Magenta => 5,
        Color::Brown => 6,
        Color::LightGray => 7,
        Color::DarkGray => 8,
        Color::LightBlue => 9,
        Color::LightGreen => 10,
        Color::LightCyan => 11,
        Color::LightRed => 12,
        Color::Pink => 13,
        Color::Yellow => 14,
        Color::White => 15,
    }
}

impl Color {
    /// The palette index of this color, in `0..16`.
    pub fn id(self) -> (r: u8)
        ensures
            r == color_id(self),
            r < 16,
    {
        match self {
            Color::Black => 0,
            Color::Blue => 1,
            Color::Green => 2,
            Color::Cyan => 3,
            Color::Red => 4,
            Color::Magenta => 5,
            Color::Brown => 6,
            Color::LightGray => 7,
            Color::DarkGray => 8,
            Color::LightBlue => 9,
            Color::LightGreen => 10,
            Color::LightCyan => 11,
            Color::LightRed => 12,
            Color::Pink => 13,
            Color::Yellow => 14,
            Color::White => 15,
        }
    }
}

/// A packed attribute byte: foreground in the low nibble, background in
/// the high nibble.
#[derive(Debug, Clone, Copy, PartialEq, Eq, Structural)]
pub struct ColorCode(pub u8);

/// The attribute byte for a foreground/background pair.
pub open spec fn attribute_of(foreground: Color, background: Color) -> u8 {
    (color_id(background) * 16 + color_id(foreground)) as u8
}

impl ColorCode {
    /// Packs a foreground and a background color into one attribute byte.
    pub fn new(foreground: Color, background: Color) -> (r: ColorCode)
        ensures
            r.0 == attribute_of(foreground, background),
            r.0 == ((color_id(background) << 4u8) | color_id(foreground)),
            r.0 % 16 == color_id(foreground),
            r.0 / 16 == color_id(background),
    {
        let fg = foreground.id();
        let bg = background.id();
        proof {
            assert(((bg << 4u8) | fg) == bg * 16 + fg) by (bit_vector)
                requires
                    bg < 16,
                    fg < 16,
            ;
        }
        ColorCode(bg * 16 + fg)
    }

    /// The packed attribute byte.
    pub fn byte(self) -> (r: u8)
        ensures
            r == self.0,
    {
        self.0
    }
}

} // verus!
