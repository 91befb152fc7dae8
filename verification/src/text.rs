//! The cells of the text screen: the sixteen colours, the pair of colours
//! of a cell, its attributes, and the cell itself, each packed into an
//! integer.

use vstd::prelude::*;
use crate::display::Position;

verus! {

/// The sixteen colours of the text screen.
#[derive(Debug, Clone, Copy, PartialEq, Eq, Structural)]
pub enum TextColor {
    Black,
    Gray,
    Maroon,
    Red,
    Green,
    Lime,
    Olive,
    Yellow,
    Navy,
    Blue,
    Purple,
    Fuchsia,
    Teal,
    Aqua,
    Silver,
    White,
}

impl TextColor {
    /// The number of the colour: the dark colours from 0 to 7, each bright
    /// one eight above its dark one.
    pub open spec fn number(self) -> int {
        match self {
            TextColor::Black => 0,
            TextColor::Maroon => 1,
            TextColor::Green => 2,
            TextColor::Olive => 3,
            TextColor::Navy => 4,
            TextColor::Purple => 5,
            TextColor::Teal => 6,
            TextColor::Silver => 7,
            TextColor::Gray => 8,
            TextColor::Red => 9,
            TextColor::Lime => 10,
            TextColor::Yellow => 11,
            TextColor::Blue => 12,
            TextColor::Fuchsia => 13,
            TextColor::Aqua => 14,
            TextColor::White => 15,
        }
    }

    /// The colour with the given number; black for a number that no
    /// colour has.
    pub open spec fn from_number(number: int) -> TextColor {
        if number == 1 {
            TextColor::Maroon
        } else if number == 2 {
            TextColor::Green
        } else if number == 3 {
            TextColor::Olive
        } else if number == 4 {
            TextColor::Navy
        } else if number == 5 {
            TextColor::Purple
        } else if number == 6 {
            TextColor::Teal
        } else if number == 7 {
            TextColor::Silver
        } else if number == 8 {
            TextColor::Gray
        } else if number == 9 {
            TextColor::Red
        } else if number == 10 {
            TextColor::Lime
        } else if number == 11 {
            TextColor::Yellow
        } else if number == 12 {
            TextColor::Blue
        } else if number == 13 {
            TextColor::Fuchsia
        } else if number == 14 {
            TextColor::Aqua
        } else if number == 15 {
            TextColor::White
        } else {
            TextColor::Black
        }
    }

    /// The colour with the given number, if there is one.
    pub fn from_u8(value: u8) -> (color: Option<Self>)
        ensures
            color.is_some() <==> value <= 15,
            color.is_some() ==> color.unwrap().number() == value,
            color.is_some() ==> color.unwrap() == Self::from_number(value as int),
    {
        match value {
            0 => Some(TextColor::Black),
            8 => Some(TextColor::Gray),
            1 => Some(TextColor::Maroon),
            9 => Some(TextColor::Red),
            2 => Some(TextColor::Green),
            10 => Some(TextColor::Lime),
            3 => Some(TextColor::Olive),
            11 => Some(TextColor::Yellow),
            4 => Some(TextColor::Navy),
            12 => Some(TextColor::Blue),
            5 => Some(TextColor::Purple),
            13 => Some(TextColor::Fuchsia),
            6 => Some(TextColor::Teal),
            14 => Some(TextColor::Aqua),
            7 => Some(TextColor::Silver),
            15 => Some(TextColor::White),
            _ => None,
        }
    }

    /// The number of the colour.
    pub fn as_u8(&self) -> (number: u8)
        ensures
            number == self.number(),
    {
        match self {
            TextColor::Black => 0,
            TextColor::Maroon => 1,
            TextColor::Green => 2,
            TextColor::Olive => 3,
            TextColor::Navy => 4,
            TextColor::Purple => 5,
            TextColor::Teal => 6,
            TextColor::Silver => 7,
            TextColor::Gray => 8,
            TextColor::Red => 9,
            TextColor::Lime => 10,
            TextColor::Yellow => 11,
            TextColor::Blue => 12,
            TextColor::Fuchsia => 13,
            TextColor::Aqua => 14,
            TextColor::White => 15,
        }
    }
}

/// The colours of a cell in one byte: the background in the high four
/// bits, the foreground in the low four.
#[derive(Debug, Clone, Copy, PartialEq, Eq, Structural)]
pub struct ColorCode(u8);

impl ColorCode {
    /// The byte.
    pub closed spec fn code(&self) -> u8 {
        self.0
    }

    /// The code of `foreground` on `background`.
    pub closed spec fn spec_new(foreground: TextColor, background: TextColor) -> ColorCode {
        ColorCode((background.number() * 16 + foreground.number()) as u8)
    }

    /// The code of `foreground` on `background`.
    #[verifier::when_used_as_spec(spec_new)]
    pub fn new(foreground: TextColor, background: TextColor) -> (code: Self)
        ensures
            code == Self::spec_new(foreground, background),
            code.code() == background.number() * 16 + foreground.number(),
    {
        let high: u8 = background.as_u8();
        let low: u8 = foreground.as_u8();
        assert((high << 4 | low) == high * 16 + low) by (bit_vector)
            requires
                high < 16,
                low < 16,
        ;
        Self(high << 4 | low)
    }

    /// The colour of the text.
    pub fn foreground(&self) -> (color: TextColor)
        ensures
            color.number() == self.code() % 16,
            color == TextColor::from_number(self.code() as int % 16),
    {
        let code: u8 = self.0;
        assert(code & 0xF == code % 16) by (bit_vector);
        TextColor::from_u8(self.0 & 0xF).unwrap()
    }

    /// The colour behind the text.
    pub fn background(&self) -> (color: TextColor)
        ensures
            color.number() == self.code() / 16,
            color == TextColor::from_number(self.code() as int / 16),
    {
        let code: u8 = self.0;
        assert((code >> 4) & 0xF == code / 16) by (bit_vector);
        TextColor::from_u8((self.0 >> 4) & 0xF).unwrap()
    }

    /// The code with foreground and background exchanged.
    pub fn invert(&self) -> (inverted: Self)
        ensures
            inverted.code() == (self.code() % 16) * 16 + self.code() / 16,
    {
        let code: u8 = self.0;
        assert(((code >> 4) | (code << 4)) == (code % 16) * 16 + code / 16) by (bit_vector);
        Self((self.0 >> 4) | (self.0 << 4))
    }
}

/// The attributes of a cell in one byte: bit 0 for underline, bit 1 for
/// strikethrough.
#[derive(Debug, Clone, Copy, PartialEq, Eq, Structural)]
pub struct CharacterAttributes(u8);

impl CharacterAttributes {
    /// The byte.
    pub closed spec fn code(&self) -> u8 {
        self.0
    }

    /// The attributes with the two marks set as given.
    pub closed spec fn spec_new(underline: bool, strikethrough: bool) -> CharacterAttributes {
        CharacterAttributes(
            ((if underline {
                1int
            } else {
                0int
            }) + (if strikethrough {
                2int
            } else {
                0int
            })) as u8,
        )
    }

    /// The attributes with the two marks set as given.
    #[verifier::when_used_as_spec(spec_new)]
    pub fn new(underline: bool, strikethrough: bool) -> (attributes: Self)
        ensures
            attributes == Self::spec_new(underline, strikethrough),
            attributes.code() == (if underline { 1int } else { 0int }) + (if strikethrough {
                2int
            } else {
                0int
            }),
    {
        let mut value: u8 = 0;
        if underline {
            value = value | 1;
        }
        if strikethrough {
            assert(0u8 | 2 == 2 && 1u8 | 2 == 3) by (bit_vector);
            value = value | 2;
        }
        assert(0u8 | 1 == 1) by (bit_vector);
        Self(value)
    }

    /// Whether the text is underlined.
    pub fn underline(&self) -> (underline: bool)
        ensures
            underline == (self.code() % 2 == 1),
    {
        let code: u8 = self.0;
        assert((code & 1 != 0) == (code % 2 == 1)) by (bit_vector);
        self.0 & 1 != 0
    }

    /// Whether the text is struck through.
    pub fn strikethrough(&self) -> (strikethrough: bool)
        ensures
            strikethrough == ((self.code() / 2) % 2 == 1),
    {
        let code: u8 = self.0;
        assert((code & 2 != 0) == ((code / 2) % 2 == 1)) by (bit_vector);
        self.0 & 2 != 0
    }
}

/// A cell of the text screen in 32 bits: the character in the low byte,
/// the colours in the next, the attributes in the third.
#[derive(Debug, Clone, Copy, PartialEq, Eq, Structural)]
pub struct ScreenChar(u32);

impl ScreenChar {
    /// The 32 bits.
    pub closed spec fn bits(&self) -> u32 {
        self.0
    }

    /// The cell that shows `character` in the colours `color` with
    /// `attributes`.
    pub closed spec fn spec_new(
        character: char,
        color: ColorCode,
        attributes: CharacterAttributes,
    ) -> ScreenChar {
        ScreenChar((character as u32) | ((color.0 as u32) << 8) | ((attributes.0 as u32) << 16))
    }

    /// The cell that shows `character` in the colours `color` with
    /// `attributes`. The code point of the character is laid in whole: one
    /// beyond 255 reaches into the bits of the colours and attributes.
    #[verifier::when_used_as_spec(spec_new)]
    pub fn new(character: char, color: ColorCode, attributes: CharacterAttributes) -> (cell: Self)
        ensures
            cell == Self::spec_new(character, color, attributes),
            cell.bits() == (character as u32) | ((color.code() as u32) << 8) | ((
            attributes.code() as u32) << 16),
            character as u32 <= 0xFF ==> cell.bits() == character as u32 + 256 * color.code()
                + 65536 * attributes.code(),
    {
        let low: u32 = character as u32;
        let middle: u32 = color.0 as u32;
        let high: u32 = attributes.0 as u32;
        assert(low <= 0xFF ==> (low | (middle << 8) | (high << 16)) == low + 256 * middle + 65536
            * high) by (bit_vector)
            requires
                middle <= 0xFF,
                high <= 0xFF,
        ;
        Self((character as u32) | ((color.0 as u32) << 8) | ((attributes.0 as u32) << 16))
    }

    /// The character that the cell shows: the one whose code point is the
    /// low byte.
    pub open spec fn shown(&self) -> char {
        ((self.bits() % 256) as u8) as char
    }

    /// The colour of the text of the cell.
    pub open spec fn text_color(&self) -> TextColor {
        TextColor::from_number(((self.bits() / 256) % 256) as int % 16)
    }

    /// The colour behind the text of the cell.
    pub open spec fn background_color(&self) -> TextColor {
        TextColor::from_number(((self.bits() / 256) % 256) as int / 16)
    }

    /// Whether the text of the cell is underlined.
    pub open spec fn underlined(&self) -> bool {
        ((self.bits() / 65536) % 256) % 2 == 1
    }

    /// Whether the text of the cell is struck through.
    pub open spec fn struck_through(&self) -> bool {
        (((self.bits() / 65536) % 256) / 2) % 2 == 1
    }

    /// The character of the cell: the one whose code point is the low byte.
    pub fn character(&self) -> (character: char)
        ensures
            character as u32 == self.bits() % 256,
            character == self.shown(),
    {
        let bits: u32 = self.0;
        assert(bits & 0xFF == bits % 256) by (bit_vector);
        (self.0 & 0xFF) as u8 as char
    }

    /// The colours of the cell: the second byte.
    pub fn color(&self) -> (color: ColorCode)
        ensures
            color.code() == (self.bits() / 256) % 256,
    {
        let bits: u32 = self.0;
        assert(((bits >> 8) & 0xFF) == (bits / 256) % 256) by (bit_vector);
        ColorCode(((self.0 >> 8) & 0xFF) as u8)
    }

    /// The attributes of the cell: the third byte.
    pub fn attributes(&self) -> (attributes: CharacterAttributes)
        ensures
            attributes.code() == (self.bits() / 65536) % 256,
    {
        let bits: u32 = self.0;
        assert(((bits >> 16) & 0xFF) == (bits / 65536) % 256) by (bit_vector);
        CharacterAttributes(((self.0 >> 16) & 0xFF) as u8)
    }
}

/// A cell gives back what it was made of, where the character has a code
/// point below 256.
pub proof fn lemma_screen_char_round_trip(
    cell: ScreenChar,
    character: char,
    color: ColorCode,
    attributes: CharacterAttributes,
)
    requires
        character as u32 <= 0xFF,
        cell.bits() == character as u32 + 256 * color.code() + 65536 * attributes.code(),
    ensures
        cell.bits() % 256 == character as u32,
        (cell.bits() / 256) % 256 == color.code(),
        (cell.bits() / 65536) % 256 == attributes.code(),
{
}

/// A colour code gives back the colours it was made of, and a code that
/// is inverted twice is the code itself.
pub proof fn lemma_color_code_round_trip(foreground: TextColor, background: TextColor)
    ensures
        (background.number() * 16 + foreground.number()) % 16 == foreground.number(),
        (background.number() * 16 + foreground.number()) / 16 == background.number(),
        0 <= background.number() * 16 + foreground.number() <= 255,
{
}

/// A run of text of one look at one place of the grid.
#[derive(Debug, Clone, PartialEq, Eq)]
pub struct TextSegment {
    pub text: String,
    pub text_position: Position,
    pub text_color: TextColor,
    pub background_color: TextColor,
    pub underline: bool,
    pub strikethrough: bool,
}

impl TextSegment {
    /// The run of `text` at `text_position` with the given look.
    pub fn new(
        text: String,
        text_position: Position,
        text_color: TextColor,
        background_color: TextColor,
        underline: bool,
        strikethrough: bool,
    ) -> (segment: Self)
        ensures
            segment.text == text,
            segment.text_position == text_position,
            segment.text_color == text_color,
            segment.background_color == background_color,
            segment.underline == underline,
            segment.strikethrough == strikethrough,
    {
        Self { text, text_position, text_color, background_color, underline, strikethrough }
    }
}

/// Which way the lines of the text screen move.
#[derive(Debug, Clone, Copy, PartialEq, Eq, Structural)]
pub enum ScrollDirection {
    Up,
    Down,
}

} // verus!
