use vstd::prelude::*;
use crate::text::{
    chars_of, fields, hex_digit, hex_value, i32_text, is_hex, parse_i32_text, parse_u8_text,
    split_fields, u8_text,
};
use crate::types::{IDMClockMode, IDMColor, IDMPixel};

verus! {

/// Why a command-line value was refused.
#[derive(Clone, Copy, Debug, PartialEq, Eq, Structural)]
pub enum ParseError {
    /// A color is not exactly six characters after the optional `#`.
    ColorLength,
    /// A color holds a character that is no hexadecimal digit.
    ColorDigit,
    /// The value does not have the expected number of comma-separated fields.
    FieldCount,
    /// A field is not an integer of the expected type.
    Number,
}

/// `s` without one leading `#`, if it has one.
pub open spec fn strip_hash(s: Seq<char>) -> Seq<char> {
    if s.len() > 0 && s[0] == '#' {
        s.drop_first()
    } else {
        s
    }
}

/// The byte that two hexadecimal digits denote, high digit first.
pub open spec fn hex_pair(hi: char, lo: char) -> int {
    16 * hex_value(hi) + hex_value(lo)
}

pub open spec fn all_hex(h: Seq<char>) -> bool {
    forall|i: int| 0 <= i < h.len() ==> is_hex(#[trigger] h[i])
}

/// What a color string denotes: six hexadecimal digits after an optional `#`,
/// read as three bytes for red, green and blue.
pub open spec fn color_of(s: Seq<char>) -> Result<IDMColor, ParseError> {
    let h = strip_hash(s);
    if h.len() != 6 {
        Err(ParseError::ColorLength)
    } else if !all_hex(h) {
        Err(ParseError::ColorDigit)
    } else {
        Ok(
            IDMColor {
                r: hex_pair(h[0], h[1]) as u8,
                g: hex_pair(h[2], h[3]) as u8,
                b: hex_pair(h[4], h[5]) as u8,
            },
        )
    }
}

/// What a pixel string `x,y,color` denotes.
pub open spec fn pixel_of(s: Seq<char>) -> Result<IDMPixel, ParseError> {
    let f = fields(s);
    if f.len() != 3 {
        Err(ParseError::FieldCount)
    } else if u8_text(f[0]) is None || u8_text(f[1]) is None {
        Err(ParseError::Number)
    } else {
        match color_of(f[2]) {
            Ok(c) => Ok(IDMPixel { x: u8_text(f[0])->0, y: u8_text(f[1])->0, color: c }),
            Err(e) => Err(e),
        }
    }
}

/// What a clock-mode string `style,r,g,b` denotes. The hour format is always
/// 24-hour and the date is always hidden.
pub open spec fn clock_mode_of(s: Seq<char>) -> Result<IDMClockMode, ParseError> {
    let f = fields(s);
    if f.len() != 4 {
        Err(ParseError::FieldCount)
    } else if u8_text(f[0]) is None || i32_text(f[1]) is None || i32_text(f[2]) is None
        || i32_text(f[3]) is None {
        Err(ParseError::Number)
    } else {
        Ok(
            IDMClockMode {
                style: u8_text(f[0])->0,
                hour24: true,
                visible_date: false,
                r: i32_text(f[1]),
                g: i32_text(f[2]),
                b: i32_text(f[3]),
            },
        )
    }
}

fn hex_byte(hi: char, lo: char) -> (r: Option<u8>)
    ensures
        r == (if is_hex(hi) && is_hex(lo) { Some(hex_pair(hi, lo) as u8) } else { None::<u8> }),
        r matches Some(v) ==> v == hex_pair(hi, lo),
{
    match (hex_digit(hi), hex_digit(lo)) {
        (Some(h), Some(l)) => Some(h * 16 + l),
        _ => None,
    }
}

fn color_of_chars(s: &Vec<char>) -> (r: Result<IDMColor, ParseError>)
    ensures
        r == color_of(s@),
{
    let start: usize = if s.len() > 0 && s[0] == '#' {
        1
    } else {
        0
    };
    let ghost h = strip_hash(s@);
    assert(h =~= s@.skip(start as int));
    if s.len() - start != 6 {
        return Err(ParseError::ColorLength);
    }
    let r = hex_byte(s[start], s[start + 1]);
    let g = hex_byte(s[start + 2], s[start + 3]);
    let b = hex_byte(s[start + 4], s[start + 5]);
    assert(h[0] == s@[start as int] && h[1] == s@[start + 1] && h[2] == s@[start + 2]);
    assert(h[3] == s@[start + 3] && h[4] == s@[start + 4] && h[5] == s@[start + 5]);
    match (r, g, b) {
        (Some(r), Some(g), Some(b)) => {
            assert(all_hex(h)) by {
                assert forall|i: int| 0 <= i < h.len() implies is_hex(#[trigger] h[i]) by {
                    assert(i == 0 || i == 1 || i == 2 || i == 3 || i == 4 || i == 5);
                }
            }
            Ok(IDMColor { r, g, b })
        },
        _ => {
            assert(!all_hex(h)) by {
                if all_hex(h) {
                    assert(is_hex(h[0]) && is_hex(h[1]) && is_hex(h[2]));
                    assert(is_hex(h[3]) && is_hex(h[4]) && is_hex(h[5]));
                }
            }
            Err(ParseError::ColorDigit)
        },
    }
}

/// Parses a color written as six hexadecimal digits, with or without a leading `#`.
pub fn parse_color_string(color: &str) -> (r: Result<IDMColor, ParseError>)
    ensures
        r == color_of(color@),
{
    let s = chars_of(color);
    color_of_chars(&s)
}

/// Parses a pixel written as `x,y,color`, with `x` and `y` as `u8`.
pub fn parse_pixel_string(pixel: &str) -> (r: Result<IDMPixel, ParseError>)
    ensures
        r == pixel_of(pixel@),
{
    let s = chars_of(pixel);
    let f = split_fields(&s);
    if f.len() != 3 {
        return Err(ParseError::FieldCount);
    }
    let x = parse_u8_text(&f[0]);
    let y = parse_u8_text(&f[1]);
    match (x, y) {
        (Some(x), Some(y)) => match color_of_chars(&f[2]) {
            Ok(color) => Ok(IDMPixel { x, y, color }),
            Err(e) => Err(e),
        },
        _ => Err(ParseError::Number),
    }
}

/// Parses a clock mode written as `style,r,g,b`: `style` as `u8`, the channels as
/// `i32`. The result always shows 24-hour time and hides the date.
pub fn parse_clock_mode_string(clock_mode: &str) -> (r: Result<IDMClockMode, ParseError>)
    ensures
        r == clock_mode_of(clock_mode@),
{
    let s = chars_of(clock_mode);
    let f = split_fields(&s);
    if f.len() != 4 {
        return Err(ParseError::FieldCount);
    }
    let style = parse_u8_text(&f[0]);
    let r = parse_i32_text(&f[1]);
    let g = parse_i32_text(&f[2]);
    let b = parse_i32_text(&f[3]);
    match (style, r, g, b) {
        (Some(style), Some(_), Some(_), Some(_)) => Ok(
            IDMClockMode { style, hour24: true, visible_date: false, r, g, b },
        ),
        _ => Err(ParseError::Number),
    }
}

/// The sixteen hexadecimal digits, in lower case.
pub open spec fn hex_digits() -> Seq<char> {
    seq!['0', '1', '2', '3', '4', '5', '6', '7', '8', '9', 'a', 'b', 'c', 'd', 'e', 'f']
}

/// A byte written as two lower-case hexadecimal digits.
pub open spec fn byte_text(v: u8) -> Seq<char> {
    seq![hex_digits()[v as int / 16], hex_digits()[v as int % 16]]
}

/// A color written as six lower-case hexadecimal digits, red first.
pub open spec fn color_text(c: IDMColor) -> Seq<char> {
    byte_text(c.r) + byte_text(c.g) + byte_text(c.b)
}

proof fn lemma_hex_digit_value(n: int)
    requires
        0 <= n < 16,
    ensures
        is_hex(hex_digits()[n]),
        hex_value(hex_digits()[n]) == n,
{
    let d = hex_digits();
    assert(d[0] == '0' && d[1] == '1' && d[2] == '2' && d[3] == '3' && d[4] == '4');
    assert(d[5] == '5' && d[6] == '6' && d[7] == '7' && d[8] == '8' && d[9] == '9');
    assert(d[10] == 'a' && d[11] == 'b' && d[12] == 'c' && d[13] == 'd' && d[14] == 'e');
    assert(d[15] == 'f');
}

proof fn lemma_byte_text(v: u8)
    ensures
        is_hex(byte_text(v)[0]),
        is_hex(byte_text(v)[1]),
        hex_pair(byte_text(v)[0], byte_text(v)[1]) == v,
{
    lemma_hex_digit_value(v as int / 16);
    lemma_hex_digit_value(v as int % 16);
}

/// Every color, written as six hexadecimal digits with or without a leading `#`,
/// parses back to the same three channels.
pub proof fn lemma_color_round_trip(c: IDMColor)
    ensures
        color_of(color_text(c)) == Ok::<IDMColor, ParseError>(c),
        color_of(seq!['#'] + color_text(c)) == Ok::<IDMColor, ParseError>(c),
{
    lemma_byte_text(c.r);
    lemma_byte_text(c.g);
    lemma_byte_text(c.b);
    let t = color_text(c);
    let h = seq!['#'] + t;
    assert(strip_hash(h) =~= t);
    assert(t[0] != '#');
    assert(strip_hash(t) == t);
    assert(all_hex(t)) by {
        assert forall|i: int| 0 <= i < t.len() implies is_hex(#[trigger] t[i]) by {
            assert(i == 0 || i == 1 || i == 2 || i == 3 || i == 4 || i == 5);
        }
    }
}

/// A color string is refused when it is not six characters long after the
/// optional `#`, and when one of those six is not a hexadecimal digit.
pub proof fn lemma_color_rejects(s: Seq<char>)
    ensures
        strip_hash(s).len() != 6 ==> color_of(s) == Err::<IDMColor, ParseError>(
            ParseError::ColorLength,
        ),
        (exists|i: int| 0 <= i < strip_hash(s).len() && !is_hex(#[trigger] strip_hash(s)[i]))
            ==> color_of(s) is Err,
{
}

/// A pixel string is refused unless it has exactly three comma-separated fields.
pub proof fn lemma_pixel_field_count(s: Seq<char>)
    ensures
        fields(s).len() != 3 <==> pixel_of(s) == Err::<IDMPixel, ParseError>(
            ParseError::FieldCount,
        ),
{
}

/// A clock-mode string with four fields is refused when one of them is not an
/// integer of its type; every one that is accepted shows 24-hour time and hides the date.
pub proof fn lemma_clock_mode_fields(s: Seq<char>)
    ensures
        fields(s).len() == 4 && (u8_text(fields(s)[0]) is None || i32_text(fields(s)[1]) is None
            || i32_text(fields(s)[2]) is None || i32_text(fields(s)[3]) is None)
            ==> clock_mode_of(s) == Err::<IDMClockMode, ParseError>(ParseError::Number),
        clock_mode_of(s) matches Ok(m) ==> m.hour24 && !m.visible_date,
{
}

} // verus!
