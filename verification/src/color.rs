//! Colors: sRGB triples, hex notation, the preset table, theme color
//! schemes and the color map from document names to scheme slots.
use vstd::prelude::*;
use vstd::utf8::{encode_scalar, encode_utf8};

use crate::strs::{push_char, str_chars, str_eq, str_to_string};

verus! {

/// 24-bit sRGB color.
#[derive(Copy, Clone, Debug, PartialEq, Eq, Hash, Structural)]
pub struct Rgb {
    /// Red channel.
    pub r: u8,
    /// Green channel.
    pub g: u8,
    /// Blue channel.
    pub b: u8,
}

/// A channel pair that is not a base-16 number.
#[derive(Copy, Clone, Debug, PartialEq, Eq, Structural)]
pub struct ParseHexError;

/// Failure when parsing a hex color string.
#[derive(Copy, Clone, Debug, PartialEq, Eq, Structural)]
pub enum ColorParseError {
    /// The body (after an optional `#`) was not 6 ASCII characters.
    WrongLength {
        /// The body's length in bytes.
        got: usize,
    },
    /// One of the three channel pairs was not base-16.
    InvalidDigit(ParseHexError),
}

/// The value of a hex digit, in either case.
pub open spec fn hex_digit_value(c: char) -> Option<u8> {
    if '0' <= c && c <= '9' {
        Some(((c as u32) - 48) as u8)
    } else if 'a' <= c && c <= 'f' {
        Some(((c as u32) - 87) as u8)
    } else if 'A' <= c && c <= 'F' {
        Some(((c as u32) - 55) as u8)
    } else {
        None
    }
}

/// The byte two hex digits denote; `None` unless both are hex digits.
pub open spec fn hex_pair_value(a: char, b: char) -> Option<u8> {
    match (hex_digit_value(a), hex_digit_value(b)) {
        (Some(x), Some(y)) => Some((x * 16 + y) as u8),
        _ => None,
    }
}

/// The text after an optional leading `#`.
pub open spec fn hex_body(s: Seq<char>) -> Seq<char> {
    if s.len() > 0 && s[0] == '#' {
        s.drop_first()
    } else {
        s
    }
}

/// Every character is ASCII.
pub open spec fn all_ascii(s: Seq<char>) -> bool {
    forall|i: int| 0 <= i < s.len() ==> (#[trigger] s[i] as u32) < 0x80
}

/// What [`Rgb::from_hex`] gives for `s`.
pub open spec fn parse_hex_rgb(s: Seq<char>) -> Result<Rgb, ColorParseError> {
    let body = hex_body(s);
    let n = encode_utf8(body).len();
    if n != 6 || !all_ascii(body) {
        Err(ColorParseError::WrongLength { got: n as usize })
    } else {
        match (
            hex_pair_value(body[0], body[1]),
            hex_pair_value(body[2], body[3]),
            hex_pair_value(body[4], body[5]),
        ) {
            (Some(r), Some(g), Some(b)) => Ok(Rgb { r, g, b }),
            _ => Err(ColorParseError::InvalidDigit(ParseHexError)),
        }
    }
}

/// The hex digit for `n < 16`, in lower or upper case.
pub open spec fn hex_digit_char(n: u8, upper: bool) -> char {
    if n < 10 {
        ((48 + n) as u8) as char
    } else if upper {
        ((55 + n) as u8) as char
    } else {
        ((87 + n) as u8) as char
    }
}

/// `#rrggbb` in lower or upper case.
pub open spec fn hex_text(c: Rgb, upper: bool) -> Seq<char> {
    seq![
        '#',
        hex_digit_char(c.r / 16, upper),
        hex_digit_char(c.r % 16, upper),
        hex_digit_char(c.g / 16, upper),
        hex_digit_char(c.g % 16, upper),
        hex_digit_char(c.b / 16, upper),
        hex_digit_char(c.b % 16, upper),
    ]
}

fn hex_digit(c: char) -> (r: Option<u8>)
    ensures
        r == hex_digit_value(c),
{
    let cp = c as u32;
    if '0' <= c && c <= '9' {
        Some((cp - 48) as u8)
    } else if 'a' <= c && c <= 'f' {
        Some((cp - 87) as u8)
    } else if 'A' <= c && c <= 'F' {
        Some((cp - 55) as u8)
    } else {
        None
    }
}

fn hex_pair(a: char, b: char) -> (r: Option<u8>)
    ensures
        r == hex_pair_value(a, b),
{
    match (hex_digit(a), hex_digit(b)) {
        (Some(x), Some(y)) => Some(x * 16 + y),
        _ => None,
    }
}

fn digit_char(n: u8, upper: bool) -> (r: char)
    requires
        n < 16,
    ensures
        r == hex_digit_char(n, upper),
{
    if n < 10 {
        (48 + n) as char
    } else if upper {
        (55 + n) as char
    } else {
        (87 + n) as char
    }
}

proof fn lemma_ascii_utf8_len(s: Seq<char>)
    requires
        all_ascii(s),
    ensures
        encode_utf8(s).len() == s.len(),
    decreases s.len(),
{
    if s.len() > 0 {
        assert(all_ascii(s.drop_first())) by {
            assert forall|i: int| 0 <= i < s.drop_first().len() implies (#[trigger] s.drop_first()[i]
                as u32) < 0x80 by {
                assert(s.drop_first()[i] == s[i + 1]);
            }
        }
        lemma_ascii_utf8_len(s.drop_first());
        assert((s[0] as u32) < 0x80);
        assert(encode_scalar(s[0] as u32).len() == 1);
    }
}

impl Rgb {
    /// An `Rgb` from raw channel values.
    pub fn new(r: u8, g: u8, b: u8) -> (c: Self)
        ensures
            c == (Rgb { r, g, b }),
    {
        Rgb { r, g, b }
    }

    /// Parses `#RRGGBB` or `RRGGBB`, in any case.
    pub fn from_hex(hex: &str) -> (res: Result<Self, ColorParseError>)
        ensures
            res == parse_hex_rgb(hex@),
    {
        let cs = str_chars(hex);
        let stripped = cs.len() > 0 && cs[0] == '#';
        let start: usize = if stripped { 1 } else { 0 };
        proof {
            if cs.len() > 0 {
                assert(encode_utf8(hex@) == encode_scalar(hex@[0] as u32) + encode_utf8(
                    hex@.drop_first(),
                ));
            }
            if stripped {
                assert(encode_scalar('#' as u32).len() == 1);
                assert(hex@.drop_first() == hex_body(hex@));
            }
        }
        let total = hex.as_bytes().len();
        let nbytes: usize = total - start;
        let body = &cs[start..cs.len()];
        assert(body@ =~= hex_body(hex@));
        if nbytes != 6 {
            return Err(ColorParseError::WrongLength { got: nbytes });
        }
        let mut i: usize = 0;
        while i < body.len()
            invariant
                i <= body.len(),
                forall|j: int| 0 <= j < i ==> (#[trigger] body@[j] as u32) < 0x80,
                body@ == hex_body(hex@),
                nbytes == encode_utf8(body@).len(),
            decreases body.len() - i,
        {
            if body[i] as u32 >= 0x80 {
                return Err(ColorParseError::WrongLength { got: nbytes });
            }
            i = i + 1;
        }
        proof {
            lemma_ascii_utf8_len(body@);
        }
        let r = match hex_pair(body[0], body[1]) {
            Some(v) => v,
            None => {
                return Err(ColorParseError::InvalidDigit(ParseHexError));
            },
        };
        let g = match hex_pair(body[2], body[3]) {
            Some(v) => v,
            None => {
                return Err(ColorParseError::InvalidDigit(ParseHexError));
            },
        };
        let b = match hex_pair(body[4], body[5]) {
            Some(v) => v,
            None => {
                return Err(ColorParseError::InvalidDigit(ParseHexError));
            },
        };
        Ok(Rgb { r, g, b })
    }

    fn hex_string(self, upper: bool) -> (s: String)
        ensures
            s@ == hex_text(self, upper),
    {
        let mut s = String::new();
        push_char(&mut s, '#');
        push_char(&mut s, digit_char(self.r / 16, upper));
        push_char(&mut s, digit_char(self.r % 16, upper));
        push_char(&mut s, digit_char(self.g / 16, upper));
        push_char(&mut s, digit_char(self.g % 16, upper));
        push_char(&mut s, digit_char(self.b / 16, upper));
        push_char(&mut s, digit_char(self.b % 16, upper));
        assert(s@ =~= hex_text(self, upper));
        s
    }

    /// `#rrggbb` in lowercase.
    pub fn to_hex_lower(self) -> (s: String)
        ensures
            s@ == hex_text(self, false),
    {
        self.hex_string(false)
    }

    /// `#RRGGBB` in uppercase.
    pub fn to_hex_upper(self) -> (s: String)
        ensures
            s@ == hex_text(self, true),
    {
        self.hex_string(true)
    }
}

proof fn lemma_digit_roundtrip(n: u8, upper: bool)
    requires
        n < 16,
    ensures
        hex_digit_value(hex_digit_char(n, upper)) == Some(n),
        hex_digit_char(n, upper) != '+',
        (hex_digit_char(n, upper) as u32) < 0x80,
{
    let c = hex_digit_char(n, upper);
    if n < 10 {
        assert(((48 + n) as u8) as u32 == 48 + n);
        assert(c as u32 == 48 + n);
    } else if upper {
        assert(((55 + n) as u8) as u32 == 55 + n);
        assert(c as u32 == 55 + n);
    } else {
        assert(((87 + n) as u8) as u32 == 87 + n);
        assert(c as u32 == 87 + n);
    }
}

proof fn lemma_byte_roundtrip(v: u8, upper: bool)
    ensures
        hex_pair_value(hex_digit_char(v / 16, upper), hex_digit_char(v % 16, upper)) == Some(v),
{
    lemma_digit_roundtrip(v / 16, upper);
    lemma_digit_roundtrip(v % 16, upper);
    assert((v / 16) * 16 + v % 16 == v);
}

/// Parsing the hex text of a color, in either case, gives the color back.
pub proof fn law_hex_roundtrip(c: Rgb, upper: bool)
    ensures
        parse_hex_rgb(hex_text(c, upper)) == Ok::<Rgb, ColorParseError>(c),
{
    let t = hex_text(c, upper);
    let body = hex_body(t);
    assert(body =~= t.drop_first());
    lemma_byte_roundtrip(c.r, upper);
    lemma_byte_roundtrip(c.g, upper);
    lemma_byte_roundtrip(c.b, upper);
    lemma_digit_roundtrip(c.r / 16, upper);
    lemma_digit_roundtrip(c.r % 16, upper);
    lemma_digit_roundtrip(c.g / 16, upper);
    lemma_digit_roundtrip(c.g % 16, upper);
    lemma_digit_roundtrip(c.b / 16, upper);
    lemma_digit_roundtrip(c.b % 16, upper);
    assert(all_ascii(body));
    lemma_ascii_utf8_len(body);
}

} // verus!
