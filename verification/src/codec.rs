//! The hex codec: six hex digits, with one optional leading `#`, to a
//! colour and back, and the whitespace trimming the stdin generator uses.

use vstd::prelude::*;
use vstd::arithmetic::div_mod::lemma_fundamental_div_mod;
use vstd::string::StrSliceExecFns;

use crate::colour::Colour;
use crate::colour::ColourInfo;
use crate::colour::hex_char_of;
use crate::colour::hex_of;
use crate::errors::PaletteError;

verus! {

/// Whether a character is a hex digit, either case.
pub open spec fn is_hex_digit(c: char) -> bool {
    ('0' as u32 <= c as u32 && c as u32 <= '9' as u32) || ('a' as u32 <= c as u32 && c as u32
        <= 'f' as u32) || ('A' as u32 <= c as u32 && c as u32 <= 'F' as u32)
}

/// The value of a hex digit; zero on any other character.
pub open spec fn hex_val(c: char) -> int {
    if '0' as u32 <= c as u32 && c as u32 <= '9' as u32 {
        c as u32 - '0' as u32
    } else if 'a' as u32 <= c as u32 && c as u32 <= 'f' as u32 {
        c as u32 - 'a' as u32 + 10
    } else if 'A' as u32 <= c as u32 && c as u32 <= 'F' as u32 {
        c as u32 - 'A' as u32 + 10
    } else {
        0
    }
}

/// The text with one leading `#` removed, if it has one.
pub open spec fn strip_hash(s: Seq<char>) -> Seq<char> {
    if s.len() > 0 && s[0] == '#' {
        s.subrange(1, s.len() as int)
    } else {
        s
    }
}

/// Exactly six hex digits.
pub open spec fn valid_hex6(s: Seq<char>) -> bool {
    s.len() == 6 && (forall|i: int| 0 <= i < 6 ==> is_hex_digit(#[trigger] s[i]))
}

/// The channel value of one digit pair, high digit first.
pub open spec fn byte_val(hi: char, lo: char) -> int {
    16 * hex_val(hi) + hex_val(lo)
}

/// The colour that six hex digits name: first pair red, then green, then blue.
pub open spec fn colour_of_hex(s: Seq<char>) -> Colour {
    Colour {
        r: byte_val(s[0], s[1]) as u8,
        g: byte_val(s[2], s[3]) as u8,
        b: byte_val(s[4], s[5]) as u8,
    }
}

/// What decoding a piece of text yields: a colour exactly when the text is
/// six hex digits after one optional leading `#`, and nothing otherwise.
pub open spec fn spec_decode(s: Seq<char>) -> Option<Colour> {
    let t = strip_hash(s);
    if valid_hex6(t) {
        Some(colour_of_hex(t))
    } else {
        None
    }
}

/// The value of a hex digit character, or nothing on any other character.
fn hex_val_of(c: char) -> (r: Option<u8>)
    ensures
        match r {
            Some(v) => is_hex_digit(c) && v as int == hex_val(c) && v < 16,
            None => !is_hex_digit(c),
        },
{
    let u = c as u32;
    if 48 <= u && u <= 57 {
        Some((u - 48) as u8)
    } else if 97 <= u && u <= 102 {
        Some((u - 87) as u8)
    } else if 65 <= u && u <= 70 {
        Some((u - 55) as u8)
    } else {
        None
    }
}

/// Decodes a hex string to a colour, with its canonical hex text.
///
/// The policy on digits is strict: after stripping one optional leading `#`,
/// the text must be exactly six hex digits, and anything else is rejected as
/// malformed; no part of the text is ever discarded silently.
pub fn hexadecimal_to_colour(hex: &str) -> (res: Result<ColourInfo, PaletteError>)
    ensures
        match res {
            Ok(ci) => ci.wf() && spec_decode(hex@) == Some(ci.colour),
            Err(e) => spec_decode(hex@) is None && (e matches PaletteError::MalformedHex(t)
                && t@ == hex@),
        },
{
    let ghost t = strip_hash(hex@);
    let n = hex.unicode_len();
    let start: usize = if n >= 1 && hex.get_char(0) == '#' {
        1
    } else {
        0
    };
    if n - start != 6 {
        proof {
            assert(t.len() != 6);
        }
        return Err(PaletteError::MalformedHex(hex.to_owned()));
    }
    let mut vals: Vec<u8> = Vec::new();
    let mut i: usize = 0;
    while i < 6
        invariant
            i <= 6,
            vals@.len() == i,
            t == strip_hash(hex@),
            n == hex@.len(),
            start <= 1,
            n - start == 6,
            start == 1 ==> n >= 1 && hex@[0] == '#',
            start == 0 ==> !(n >= 1 && hex@[0] == '#'),
            forall|j: int| 0 <= j < 6 ==> t[j] == hex@[start + j],
            forall|j: int|
                0 <= j < i ==> is_hex_digit(#[trigger] t[j]) && vals@[j] as int == hex_val(t[j])
                    && vals@[j] < 16,
        decreases 6 - i,
    {
        let c = hex.get_char(start + i);
        match hex_val_of(c) {
            Some(v) => {
                vals.push(v);
            },
            None => {
                proof {
                    assert(!is_hex_digit(t[i as int]));
                }
                return Err(PaletteError::MalformedHex(hex.to_owned()));
            },
        }
        i += 1;
    }
    let r = vals[0] * 16 + vals[1];
    let g = vals[2] * 16 + vals[3];
    let b = vals[4] * 16 + vals[5];
    let c = Colour::new(r, g, b);
    proof {
        assert(valid_hex6(t));
        assert(colour_of_hex(t) == c);
    }
    Ok(ColourInfo::new(c))
}

/// Whether a character counts as whitespace: the characters with the
/// Unicode `White_Space` property.
pub open spec fn is_space_char(c: char) -> bool {
    let u = c as u32;
    (9 <= u && u <= 13) || u == 32 || u == 0x85 || u == 0xa0 || u == 0x1680 || (0x2000 <= u && u
        <= 0x200a) || u == 0x2028 || u == 0x2029 || u == 0x202f || u == 0x205f || u == 0x3000
}

/// The text with its leading whitespace removed.
pub open spec fn trim_front(s: Seq<char>) -> Seq<char>
    decreases s.len(),
{
    if s.len() > 0 && is_space_char(s[0]) {
        trim_front(s.subrange(1, s.len() as int))
    } else {
        s
    }
}

/// The text with its trailing whitespace removed.
pub open spec fn trim_back(s: Seq<char>) -> Seq<char>
    decreases s.len(),
{
    if s.len() > 0 && is_space_char(s[s.len() - 1]) {
        trim_back(s.subrange(0, s.len() - 1))
    } else {
        s
    }
}

/// The text with its surrounding whitespace removed.
pub open spec fn spec_trim(s: Seq<char>) -> Seq<char> {
    trim_back(trim_front(s))
}

proof fn lemma_trim_front_range(s: Seq<char>, lo: int)
    requires
        0 <= lo <= s.len(),
        forall|j: int| 0 <= j < lo ==> is_space_char(#[trigger] s[j]),
        lo == s.len() || !is_space_char(s[lo]),
    ensures
        trim_front(s) == s.subrange(lo, s.len() as int),
    decreases lo,
{
    if lo == 0 {
        assert(s.subrange(0, s.len() as int) =~= s);
    } else {
        let s1 = s.subrange(1, s.len() as int);
        lemma_trim_front_range(s1, lo - 1);
        assert(s1.subrange(lo - 1, s1.len() as int) =~= s.subrange(lo, s.len() as int));
    }
}

proof fn lemma_trim_back_range(s: Seq<char>, hi: int)
    requires
        0 <= hi <= s.len(),
        forall|j: int| hi <= j < s.len() ==> is_space_char(#[trigger] s[j]),
        hi == 0 || !is_space_char(s[hi - 1]),
    ensures
        trim_back(s) == s.subrange(0, hi),
    decreases s.len(),
{
    if hi == s.len() {
        if s.len() > 0 && is_space_char(s[s.len() - 1]) {
            let s1 = s.subrange(0, s.len() - 1);
            lemma_trim_back_range(s1, hi - 1);
            assert(s1.subrange(0, hi - 1) =~= s.subrange(0, hi - 1));
        } else {
            assert(s.subrange(0, s.len() as int) =~= s);
        }
    } else {
        let s1 = s.subrange(0, s.len() - 1);
        lemma_trim_back_range(s1, hi);
        assert(s1.subrange(0, hi) =~= s.subrange(0, hi));
    }
}

/// Whether a character counts as whitespace.
fn is_space(c: char) -> (b: bool)
    ensures
        b == is_space_char(c),
{
    let u = c as u32;
    (9 <= u && u <= 13) || u == 32 || u == 0x85 || u == 0xa0 || u == 0x1680 || (0x2000 <= u && u
        <= 0x200a) || u == 0x2028 || u == 0x2029 || u == 0x202f || u == 0x205f || u == 0x3000
}

/// Removes the whitespace around a piece of text.
pub fn trim(s: &str) -> (r: String)
    ensures
        r@ == spec_trim(s@),
{
    let n = s.unicode_len();
    let mut lo: usize = 0;
    while lo < n && is_space(s.get_char(lo))
        invariant
            lo <= n,
            n == s@.len(),
            forall|j: int| 0 <= j < lo ==> is_space_char(#[trigger] s@[j]),
        decreases n - lo,
    {
        lo += 1;
    }
    let mut hi: usize = n;
    while hi > lo && is_space(s.get_char(hi - 1))
        invariant
            lo <= hi <= n,
            n == s@.len(),
            forall|j: int| 0 <= j < lo ==> is_space_char(#[trigger] s@[j]),
            lo == n || !is_space_char(s@[lo as int]),
            forall|j: int| hi <= j < n ==> is_space_char(#[trigger] s@[j]),
        decreases hi,
    {
        hi -= 1;
    }
    let cut = s.substring_char(lo, hi);
    proof {
        lemma_trim_front_range(s@, lo as int);
        let front = s@.subrange(lo as int, n as int);
        assert forall|j: int| hi - lo <= j < front.len() implies is_space_char(
            #[trigger] front[j],
        ) by {
            assert(front[j] == s@[lo + j]);
        }
        lemma_trim_back_range(front, hi - lo);
        assert(front.subrange(0, hi - lo) =~= s@.subrange(lo as int, hi as int));
    }
    cut.to_owned()
}

/// Law: the codec round-trips. Decoding the canonical hex text of any
/// colour gives back exactly that colour.
pub proof fn lemma_decode_of_encode(c: Colour)
    ensures
        spec_decode(hex_of(c)) == Some(c),
{
    let s = hex_of(c);
    assert(s.len() == 6);
    assert forall|v: int| 0 <= v < 16 implies is_hex_digit(hex_char_of(v)) && hex_val(
        hex_char_of(v),
    ) == v && hex_char_of(v) != '#' by {
        assert(is_hex_digit(hex_char_of(v)) && hex_val(hex_char_of(v)) == v && hex_char_of(v)
            != '#');
    }
    lemma_fundamental_div_mod(c.r as int, 16);
    lemma_fundamental_div_mod(c.g as int, 16);
    lemma_fundamental_div_mod(c.b as int, 16);
    assert(strip_hash(s) =~= s);
    assert(valid_hex6(s));
    assert(colour_of_hex(s) == c);
}

} // verus!
