//! The RGB colour value type, its canonical hex text and its ANSI escape text.

use vstd::prelude::*;
use vstd::string::StringExecFns;

verus! {

/// One colour: three unsigned 8-bit channels.
#[derive(Clone, Copy, PartialEq, Eq, Structural, Debug)]
pub struct Colour {
    pub r: u8,
    pub g: u8,
    pub b: u8,
}

impl Colour {
    pub fn new(r: u8, g: u8, b: u8) -> (c: Colour)
        ensures
            c == (Colour { r, g, b }),
    {
        Colour { r, g, b }
    }
}

/// The lowercase hex digit for a value below 16.
pub open spec fn hex_char_of(v: int) -> char {
    if v == 0 {
        '0'
    } else if v == 1 {
        '1'
    } else if v == 2 {
        '2'
    } else if v == 3 {
        '3'
    } else if v == 4 {
        '4'
    } else if v == 5 {
        '5'
    } else if v == 6 {
        '6'
    } else if v == 7 {
        '7'
    } else if v == 8 {
        '8'
    } else if v == 9 {
        '9'
    } else if v == 10 {
        'a'
    } else if v == 11 {
        'b'
    } else if v == 12 {
        'c'
    } else if v == 13 {
        'd'
    } else if v == 14 {
        'e'
    } else {
        'f'
    }
}

/// Two lowercase hex digits for one channel, high digit first.
pub open spec fn hex_of_byte(b: u8) -> Seq<char> {
    seq![hex_char_of(b as int / 16), hex_char_of(b as int % 16)]
}

/// The canonical hex text of a colour: six lowercase digits, red first,
/// no separator and no `#`.
pub open spec fn hex_of(c: Colour) -> Seq<char> {
    hex_of_byte(c.r) + hex_of_byte(c.g) + hex_of_byte(c.b)
}

/// The decimal digit for a value below 10.
pub open spec fn dec_char_of(v: int) -> char {
    if v == 0 {
        '0'
    } else if v == 1 {
        '1'
    } else if v == 2 {
        '2'
    } else if v == 3 {
        '3'
    } else if v == 4 {
        '4'
    } else if v == 5 {
        '5'
    } else if v == 6 {
        '6'
    } else if v == 7 {
        '7'
    } else if v == 8 {
        '8'
    } else {
        '9'
    }
}

/// The decimal text of a channel value, without leading zeros.
pub open spec fn dec_of(n: int) -> Seq<char> {
    if n < 10 {
        seq![dec_char_of(n)]
    } else if n < 100 {
        seq![dec_char_of(n / 10), dec_char_of(n % 10)]
    } else {
        seq![dec_char_of(n / 100), dec_char_of((n / 10) % 10), dec_char_of(n % 10)]
    }
}

/// The ANSI escape sequence that sets a terminal's background to a colour.
pub open spec fn ansi_of(c: Colour) -> Seq<char> {
    "\x1b[48;2;"@ + dec_of(c.r as int) + ";"@ + dec_of(c.g as int) + ";"@ + dec_of(c.b as int)
        + "m"@
}

/// The one-character string for a hex digit value.
fn hex_digit_str(v: u8) -> (r: &'static str)
    requires
        v < 16,
    ensures
        r@ == seq![hex_char_of(v as int)],
{
    let r: &'static str = if v == 0 {
        "0"
    } else if v == 1 {
        "1"
    } else if v == 2 {
        "2"
    } else if v == 3 {
        "3"
    } else if v == 4 {
        "4"
    } else if v == 5 {
        "5"
    } else if v == 6 {
        "6"
    } else if v == 7 {
        "7"
    } else if v == 8 {
        "8"
    } else if v == 9 {
        "9"
    } else if v == 10 {
        "a"
    } else if v == 11 {
        "b"
    } else if v == 12 {
        "c"
    } else if v == 13 {
        "d"
    } else if v == 14 {
        "e"
    } else {
        "f"
    };
    proof {
        reveal_strlit("0");
        reveal_strlit("1");
        reveal_strlit("2");
        reveal_strlit("3");
        reveal_strlit("4");
        reveal_strlit("5");
        reveal_strlit("6");
        reveal_strlit("7");
        reveal_strlit("8");
        reveal_strlit("9");
        reveal_strlit("a");
        reveal_strlit("b");
        reveal_strlit("c");
        reveal_strlit("d");
        reveal_strlit("e");
        reveal_strlit("f");
        assert(r@ =~= seq![hex_char_of(v as int)]);
    }
    r
}

/// The one-character string for a decimal digit value.
fn dec_digit_str(v: u8) -> (r: &'static str)
    requires
        v < 10,
    ensures
        r@ == seq![dec_char_of(v as int)],
{
    let r: &'static str = if v == 0 {
        "0"
    } else if v == 1 {
        "1"
    } else if v == 2 {
        "2"
    } else if v == 3 {
        "3"
    } else if v == 4 {
        "4"
    } else if v == 5 {
        "5"
    } else if v == 6 {
        "6"
    } else if v == 7 {
        "7"
    } else if v == 8 {
        "8"
    } else {
        "9"
    };
    proof {
        reveal_strlit("0");
        reveal_strlit("1");
        reveal_strlit("2");
        reveal_strlit("3");
        reveal_strlit("4");
        reveal_strlit("5");
        reveal_strlit("6");
        reveal_strlit("7");
        reveal_strlit("8");
        reveal_strlit("9");
        assert(r@ =~= seq![dec_char_of(v as int)]);
    }
    r
}

/// Formats a colour as its canonical hex text: six lowercase digits,
/// red first, no `#`.
pub fn colour_to_hexadecimal(c: &Colour) -> (r: String)
    ensures
        r@ == hex_of(*c),
{
    let mut s = String::new();
    s.append(hex_digit_str(c.r / 16));
    s.append(hex_digit_str(c.r % 16));
    s.append(hex_digit_str(c.g / 16));
    s.append(hex_digit_str(c.g % 16));
    s.append(hex_digit_str(c.b / 16));
    s.append(hex_digit_str(c.b % 16));
    proof {
        assert(s@ =~= hex_of(*c));
    }
    s
}

/// Formats a channel value in decimal, without leading zeros.
fn dec_string_of(n: u8) -> (r: String)
    ensures
        r@ == dec_of(n as int),
{
    let mut s = String::new();
    if n >= 100 {
        s.append(dec_digit_str(n / 100));
    }
    if n >= 10 {
        s.append(dec_digit_str((n / 10) % 10));
    }
    s.append(dec_digit_str(n % 10));
    proof {
        assert(s@ =~= dec_of(n as int));
    }
    s
}

/// A colour paired with its canonical lowercase six-digit hex text.
#[derive(Clone, Debug)]
pub struct ColourInfo {
    pub colour: Colour,
    pub hex: String,
}

impl ColourInfo {
    /// The stored hex text matches the stored colour.
    pub open spec fn wf(&self) -> bool {
        self.hex@ == hex_of(self.colour)
    }

    pub fn new(colour: Colour) -> (r: ColourInfo)
        ensures
            r.colour == colour,
            r.wf(),
    {
        let hex = colour_to_hexadecimal(&colour);
        ColourInfo { colour, hex }
    }

    /// The hex text with a `#` prefix, as the renderers display it.
    pub fn hex(&self) -> (r: String)
        ensures
            r@ == "#"@ + self.hex@,
    {
        let mut s = String::from_str("#");
        s.append(self.hex.as_str());
        s
    }

    pub fn colour(&self) -> (r: &Colour)
        ensures
            *r == self.colour,
    {
        &self.colour
    }

    /// The ANSI escape sequence that sets the terminal background to
    /// this colour.
    pub fn ansi_block(&self) -> (r: String)
        ensures
            r@ == ansi_of(self.colour),
    {
        let mut s = String::from_str("\x1b[48;2;");
        let red = dec_string_of(self.colour.r);
        s.append(red.as_str());
        s.append(";");
        let green = dec_string_of(self.colour.g);
        s.append(green.as_str());
        s.append(";");
        let blue = dec_string_of(self.colour.b);
        s.append(blue.as_str());
        s.append("m");
        proof {
            assert(s@ =~= ansi_of(self.colour));
        }
        s
    }
}

} // verus!
