//! Colors, pixels, directions and monitor sides: the small data types that the
//! pixel-buffer monitor works with.

use vstd::prelude::*;
use vstd::string::StringExecFns;
use vstd::string::StrSliceExecFns;

verus! {

/// One of the sixteen colors a monitor pixel can take.
#[derive(Clone, Copy, Debug, PartialEq, Eq, Structural)]
pub enum ColorId {
    White,
    Orange,
    Magenta,
    LightBlue,
    Yellow,
    Lime,
    Pink,
    Gray,
    LightGray,
    Cyan,
    Purple,
    Blue,
    Brown,
    Green,
    Red,
    Black,
}

impl ColorId {
    /// The position of the color in the palette, 0 to 15.
    pub open spec fn color_index(self) -> u32 {
        match self {
            ColorId::White => 0,
            ColorId::Orange => 1,
            ColorId::Magenta => 2,
            ColorId::LightBlue => 3,
            ColorId::Yellow => 4,
            ColorId::Lime => 5,
            ColorId::Pink => 6,
            ColorId::Gray => 7,
            ColorId::LightGray => 8,
            ColorId::Cyan => 9,
            ColorId::Purple => 10,
            ColorId::Blue => 11,
            ColorId::Brown => 12,
            ColorId::Green => 13,
            ColorId::Red => 14,
            ColorId::Black => 15,
        }
    }

    /// The host encodes each color as the bit at its palette position.
    pub open spec fn spec_number(self) -> u16 {
        match self {
            ColorId::White => 1,
            ColorId::Orange => 2,
            ColorId::Magenta => 4,
            ColorId::LightBlue => 8,
            ColorId::Yellow => 16,
            ColorId::Lime => 32,
            ColorId::Pink => 64,
            ColorId::Gray => 128,
            ColorId::LightGray => 256,
            ColorId::Cyan => 512,
            ColorId::Purple => 1024,
            ColorId::Blue => 2048,
            ColorId::Brown => 4096,
            ColorId::Green => 8192,
            ColorId::Red => 16384,
            ColorId::Black => 32768,
        }
    }

    /// The color at a palette position.
    pub open spec fn from_index(i: int) -> ColorId {
        if i == 0 {
            ColorId::White
        } else if i == 1 {
            ColorId::Orange
        } else if i == 2 {
            ColorId::Magenta
        } else if i == 3 {
            ColorId::LightBlue
        } else if i == 4 {
            ColorId::Yellow
        } else if i == 5 {
            ColorId::Lime
        } else if i == 6 {
            ColorId::Pink
        } else if i == 7 {
            ColorId::Gray
        } else if i == 8 {
            ColorId::LightGray
        } else if i == 9 {
            ColorId::Cyan
        } else if i == 10 {
            ColorId::Purple
        } else if i == 11 {
            ColorId::Blue
        } else if i == 12 {
            ColorId::Brown
        } else if i == 13 {
            ColorId::Green
        } else if i == 14 {
            ColorId::Red
        } else {
            ColorId::Black
        }
    }

    /// The number the host uses for this color: the bit at the palette position.
    pub fn to_number(self) -> (n: u16)
        ensures
            n == self.spec_number(),
            n == (1u16 << self.color_index()),
    {
        proof {
            lemma_color_number_is_bit(self);
        }
        match self {
            ColorId::White => 1,
            ColorId::Orange => 2,
            ColorId::Magenta => 4,
            ColorId::LightBlue => 8,
            ColorId::Yellow => 16,
            ColorId::Lime => 32,
            ColorId::Pink => 64,
            ColorId::Gray => 128,
            ColorId::LightGray => 256,
            ColorId::Cyan => 512,
            ColorId::Purple => 1024,
            ColorId::Blue => 2048,
            ColorId::Brown => 4096,
            ColorId::Green => 8192,
            ColorId::Red => 16384,
            ColorId::Black => 32768,
        }
    }

    /// The host number written as a hexadecimal literal.
    pub open spec fn spec_hex_str(self) -> Seq<char> {
        match self {
            ColorId::White => "0x1"@,
            ColorId::Orange => "0x2"@,
            ColorId::Magenta => "0x4"@,
            ColorId::LightBlue => "0x8"@,
            ColorId::Yellow => "0x10"@,
            ColorId::Lime => "0x20"@,
            ColorId::Pink => "0x40"@,
            ColorId::Gray => "0x80"@,
            ColorId::LightGray => "0x100"@,
            ColorId::Cyan => "0x200"@,
            ColorId::Purple => "0x400"@,
            ColorId::Blue => "0x800"@,
            ColorId::Brown => "0x1000"@,
            ColorId::Green => "0x2000"@,
            ColorId::Red => "0x4000"@,
            ColorId::Black => "0x8000"@,
        }
    }

    /// The host number written as a hexadecimal literal.
    pub fn to_str(self) -> (s: &'static str)
        ensures
            s@ == self.spec_hex_str(),
    {
        match self {
            ColorId::White => "0x1",
            ColorId::Orange => "0x2",
            ColorId::Magenta => "0x4",
            ColorId::LightBlue => "0x8",
            ColorId::Yellow => "0x10",
            ColorId::Lime => "0x20",
            ColorId::Pink => "0x40",
            ColorId::Gray => "0x80",
            ColorId::LightGray => "0x100",
            ColorId::Cyan => "0x200",
            ColorId::Purple => "0x400",
            ColorId::Blue => "0x800",
            ColorId::Brown => "0x1000",
            ColorId::Green => "0x2000",
            ColorId::Red => "0x4000",
            ColorId::Black => "0x8000",
        }
    }

    /// The color at palette position `num % 16`.
    pub fn from_number_overflow(num: u32) -> (c: ColorId)
        ensures
            c == ColorId::from_index(num as int % 16),
    {
        let num: u32 = num % 16;
        let num: u8 = num as u8;
        ColorId::from_number_or_panic(num)
    }

    /// The color at palette position `num`; positions stop at 15.
    fn from_number_or_panic(num: u8) -> (c: ColorId)
        requires
            num < 16,
        ensures
            c == ColorId::from_index(num as int),
    {
        match num {
            0 => ColorId::White,
            1 => ColorId::Orange,
            2 => ColorId::Magenta,
            3 => ColorId::LightBlue,
            4 => ColorId::Yellow,
            5 => ColorId::Lime,
            6 => ColorId::Pink,
            7 => ColorId::Gray,
            8 => ColorId::LightGray,
            9 => ColorId::Cyan,
            10 => ColorId::Purple,
            11 => ColorId::Blue,
            12 => ColorId::Brown,
            13 => ColorId::Green,
            14 => ColorId::Red,
            _ => ColorId::Black,
        }
    }
}

/// The palette number is exactly the bit at the palette position.
pub proof fn lemma_color_number_is_bit(c: ColorId)
    ensures
        c.spec_number() == (1u16 << c.color_index()),
{
    assert((1u16 << 0) == 1 && (1u16 << 1) == 2 && (1u16 << 2) == 4 && (1u16 << 3) == 8 && (1u16
        << 4) == 16 && (1u16 << 5) == 32 && (1u16 << 6) == 64 && (1u16 << 7) == 128 && (1u16 << 8)
        == 256 && (1u16 << 9) == 512 && (1u16 << 10) == 1024 && (1u16 << 11) == 2048 && (1u16
        << 12) == 4096 && (1u16 << 13) == 8192 && (1u16 << 14) == 16384 && (1u16 << 15) == 32768)
        by (bit_vector);
}

/// A direction across the monitor grid.
#[derive(Clone, Copy, Debug, PartialEq, Eq, Structural)]
pub enum Direction {
    PosX,
    PosY,
    NegX,
    NegY,
}

impl Direction {
    /// The unit step this direction takes, as an `(x, y)` delta.
    pub open spec fn spec_dxdy(self) -> (isize, isize) {
        match self {
            Direction::PosX => (1isize, 0isize),
            Direction::PosY => (0isize, 1isize),
            Direction::NegX => ((-1) as isize, 0isize),
            Direction::NegY => (0isize, (-1) as isize),
        }
    }

    /// The unit step this direction takes, as an `(x, y)` delta.
    pub fn to_dxdy(self) -> (d: (isize, isize))
        ensures
            d == self.spec_dxdy(),
    {
        match self {
            Direction::PosX => (1, 0),
            Direction::PosY => (0, 1),
            Direction::NegX => (-1, 0),
            Direction::NegY => (0, -1),
        }
    }
}

/// Whether a character lies in the ASCII range.
pub open spec fn is_ascii_char(c: char) -> bool {
    (c as u32) < 128
}

/// Whether an ASCII character counts as whitespace.
pub open spec fn is_whitespace_char(c: char) -> bool {
    c == ' ' || c == '\t' || c == '\n' || c == '\r' || c == '\u{b}' || c == '\u{c}'
}

/// One cell of a monitor: a character drawn in a text color over a background
/// color.
#[derive(Clone, Copy, Debug, PartialEq, Eq, Structural)]
pub struct AsIfPixel {
    pub text: char,
    pub background_color: ColorId,
    pub text_color: ColorId,
}

impl AsIfPixel {
    /// The character drawn in this cell.
    pub open spec fn spec_text(self) -> char {
        self.text
    }

    /// Every pixel holds an ASCII character.
    pub open spec fn wf(self) -> bool {
        is_ascii_char(self.spec_text())
    }

    /// The pixel drawing `text`, or `None` if `text` is not ASCII.
    pub fn new(text: char, background_color: ColorId, text_color: ColorId) -> (p: Option<AsIfPixel>)
        ensures
            p is Some <==> is_ascii_char(text),
            p matches Some(pix) ==> pix.spec_text() == text && pix.background_color
                == background_color && pix.text_color == text_color && pix.wf(),
    {
        if (text as u32) >= 128 {
            None
        } else {
            Some(AsIfPixel { text, background_color, text_color })
        }
    }

    /// A blank pixel: a space drawn in `color` over `color`.
    pub open spec fn colored_whitespace_spec(color: ColorId) -> AsIfPixel {
        AsIfPixel { text: ' ', background_color: color, text_color: color }
    }

    /// A blank pixel: a space drawn in `color` over `color`.
    pub fn colored_whitespace(color: ColorId) -> (p: AsIfPixel)
        ensures
            p == AsIfPixel::colored_whitespace_spec(color),
            p.spec_text() == ' ',
            p.background_color == color,
            p.text_color == color,
            p.wf(),
            p.spec_is_whitespace(),
    {
        AsIfPixel { text: ' ', background_color: color, text_color: color }
    }

    /// The character drawn in this cell.
    pub fn text(&self) -> (c: char)
        ensures
            c == self.spec_text(),
    {
        self.text
    }

    /// A pixel shows as blank when its colors coincide or its character is
    /// whitespace.
    pub open spec fn spec_is_whitespace(self) -> bool {
        self.background_color == self.text_color || is_whitespace_char(self.spec_text())
    }

    /// Whether the pixel shows as blank.
    pub fn is_whitespace(&self) -> (b: bool)
        ensures
            b == self.spec_is_whitespace(),
    {
        if self.background_color == self.text_color {
            true
        } else {
            let c = self.text;
            c == ' ' || c == '\t' || c == '\n' || c == '\r' || c == '\u{b}' || c == '\u{c}'
        }
    }
}

impl Default for AsIfPixel {
    /// A blank black pixel.
    fn default() -> (p: Self)
        ensures
            p.spec_text() == ' ',
            p.background_color == ColorId::Black,
            p.text_color == ColorId::Black,
            p.wf(),
    {
        AsIfPixel::colored_whitespace(ColorId::Black)
    }
}

/// A face of the computer a peripheral can be attached to.
#[derive(Clone, Copy, Debug, PartialEq, Eq, Structural)]
pub enum Side {
    Top,
    Bottom,
    Left,
    Right,
    Front,
    Back,
}

impl Side {
    /// The name the host knows this side by.
    pub open spec fn spec_name(self) -> Seq<char> {
        match self {
            Side::Top => "top"@,
            Side::Bottom => "bottom"@,
            Side::Left => "left"@,
            Side::Right => "right"@,
            Side::Front => "front"@,
            Side::Back => "back"@,
        }
    }

    /// The name the host knows this side by.
    pub fn name(&self) -> (s: &'static str)
        ensures
            s@ == self.spec_name(),
    {
        match self {
            Side::Top => "top",
            Side::Bottom => "bottom",
            Side::Left => "left",
            Side::Right => "right",
            Side::Front => "front",
            Side::Back => "back",
        }
    }
}

/// Whether two pieces of text hold the same characters.
fn str_eq_chars(a: &str, b: &str) -> (r: bool)
    ensures
        r == (a@ == b@),
{
    let n = a.unicode_len();
    if n != b.unicode_len() {
        return false;
    }
    let mut i: usize = 0;
    while i < n
        invariant
            n == a@.len(),
            n == b@.len(),
            i <= n,
            forall|k: int| 0 <= k < i ==> a@[k] == b@[k],
        decreases n - i,
    {
        if a.get_char(i) != b.get_char(i) {
            return false;
        }
        i = i + 1;
    }
    proof {
        assert(a@ =~= b@);
    }
    true
}

impl Side {
    /// The side bearing this name; any other text is refused with a message
    /// naming it.
    pub fn from_name(value: &str) -> (r: Result<Side, String>)
        ensures
            r matches Ok(s) ==> value@ == s.spec_name(),
            r matches Err(e) ==> e@ == "invalid side:"@ + value@,
            r is Err ==> forall|s: Side| value@ != #[trigger] s.spec_name(),
    {
        if str_eq_chars(value, "top") {
            Ok(Side::Top)
        } else if str_eq_chars(value, "bottom") {
            Ok(Side::Bottom)
        } else if str_eq_chars(value, "left") {
            Ok(Side::Left)
        } else if str_eq_chars(value, "right") {
            Ok(Side::Right)
        } else if str_eq_chars(value, "front") {
            Ok(Side::Front)
        } else if str_eq_chars(value, "back") {
            Ok(Side::Back)
        } else {
            proof {
                assert forall|s: Side| value@ != #[trigger] s.spec_name() by {
                    match s {
                        Side::Top => assert(value@ != "top"@),
                        Side::Bottom => assert(value@ != "bottom"@),
                        Side::Left => assert(value@ != "left"@),
                        Side::Right => assert(value@ != "right"@),
                        Side::Front => assert(value@ != "front"@),
                        Side::Back => assert(value@ != "back"@),
                    }
                }
            }
            let mut msg = String::new();
            msg.append("invalid side:");
            msg.append(value);
            proof {
                assert(msg@ =~= "invalid side:"@ + value@);
            }
            Err(msg)
        }
    }
}

} // verus!
