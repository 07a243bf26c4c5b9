//! Colour values and the conversions between their textual forms.
//!
//! Colours are carried as plain bytes per channel. The conversions to and
//! from hexadecimal notation, and the decimal rendering used inside CSS
//! colour functions, are specified character by character.

use vstd::prelude::*;
use vstd::string::StrSliceExecFns;
use vstd::string::StringExecFns;

verus! {

/// A red-green-blue colour with one byte per channel.
#[derive(Debug, Clone, Copy, PartialEq, Eq, Structural, Hash)]
pub struct Rgb8 {
    pub r: u8,
    pub g: u8,
    pub b: u8,
}

impl Rgb8 {
    pub fn new(r: u8, g: u8, b: u8) -> (c: Rgb8)
        ensures
            c == (Rgb8 { r, g, b }),
    {
        Rgb8 { r, g, b }
    }
}

/// A red-green-blue colour with an alpha channel, one byte each.
#[derive(Debug, Clone, Copy, PartialEq, Eq, Structural, Hash)]
pub struct Rgba8 {
    pub r: u8,
    pub g: u8,
    pub b: u8,
    pub a: u8,
}

impl Rgba8 {
    pub fn new(r: u8, g: u8, b: u8, a: u8) -> (c: Rgba8)
        ensures
            c == (Rgba8 { r, g, b, a }),
    {
        Rgba8 { r, g, b, a }
    }
}

/// One uppercase hexadecimal digit as text.
pub open spec fn hex_digit_seq(d: int) -> Seq<char> {
    if d == 0 { "0"@ }
    else if d == 1 { "1"@ }
    else if d == 2 { "2"@ }
    else if d == 3 { "3"@ }
    else if d == 4 { "4"@ }
    else if d == 5 { "5"@ }
    else if d == 6 { "6"@ }
    else if d == 7 { "7"@ }
    else if d == 8 { "8"@ }
    else if d == 9 { "9"@ }
    else if d == 10 { "A"@ }
    else if d == 11 { "B"@ }
    else if d == 12 { "C"@ }
    else if d == 13 { "D"@ }
    else if d == 14 { "E"@ }
    else { "F"@ }
}

/// One byte as two uppercase hexadecimal digits.
pub open spec fn byte_hex_seq(b: int) -> Seq<char> {
    hex_digit_seq(b / 16) + hex_digit_seq(b % 16)
}

/// The `#RRGGBB` text of a colour.
pub open spec fn rgb_hex_seq(r: int, g: int, b: int) -> Seq<char> {
    "#"@ + byte_hex_seq(r) + byte_hex_seq(g) + byte_hex_seq(b)
}

fn hex_digit_str(d: u8) -> (r: &'static str)
    requires
        d < 16,
    ensures
        r@ == hex_digit_seq(d as int),
{
    match d {
        0 => "0",
        1 => "1",
        2 => "2",
        3 => "3",
        4 => "4",
        5 => "5",
        6 => "6",
        7 => "7",
        8 => "8",
        9 => "9",
        10 => "A",
        11 => "B",
        12 => "C",
        13 => "D",
        14 => "E",
        _ => "F",
    }
}

/// One decimal digit as text.
pub open spec fn dec_digit_seq(d: int) -> Seq<char> {
    if d == 0 { "0"@ }
    else if d == 1 { "1"@ }
    else if d == 2 { "2"@ }
    else if d == 3 { "3"@ }
    else if d == 4 { "4"@ }
    else if d == 5 { "5"@ }
    else if d == 6 { "6"@ }
    else if d == 7 { "7"@ }
    else if d == 8 { "8"@ }
    else { "9"@ }
}

/// A non-negative number in decimal, without leading zeros.
pub open spec fn dec_seq(n: int) -> Seq<char>
    decreases n,
{
    if n < 10 {
        dec_digit_seq(n)
    } else {
        dec_seq(n / 10) + dec_digit_seq(n % 10)
    }
}

fn dec_digit_str(d: u32) -> (r: &'static str)
    requires
        d < 10,
    ensures
        r@ == dec_digit_seq(d as int),
{
    match d {
        0 => "0",
        1 => "1",
        2 => "2",
        3 => "3",
        4 => "4",
        5 => "5",
        6 => "6",
        7 => "7",
        8 => "8",
        _ => "9",
    }
}

/// Renders a number in decimal.
pub fn u32_dec_string(n: u32) -> (s: String)
    ensures
        s@ == dec_seq(n as int),
    decreases n,
{
    if n < 10 {
        String::from_str(dec_digit_str(n))
    } else {
        let prefix = u32_dec_string(n / 10);
        prefix.concat(dec_digit_str(n % 10))
    }
}

/// A signed number in decimal: a minus sign before the digits when negative.
pub open spec fn dec_seq_signed(n: int) -> Seq<char> {
    if n < 0 {
        "-"@ + dec_seq(-n)
    } else {
        dec_seq(n)
    }
}

/// Renders a signed number in decimal.
pub fn i32_dec_string(n: i32) -> (s: String)
    ensures
        s@ == dec_seq_signed(n as int),
{
    if n < 0 {
        let magnitude: u32 = (-(n as i64)) as u32;
        let s = String::from_str("-");
        s.concat(u32_dec_string(magnitude).as_str())
    } else {
        u32_dec_string(n as u32)
    }
}

fn byte_hex_string(b: u8) -> (s: String)
    ensures
        s@ == byte_hex_seq(b as int),
{
    let hi = b / 16;
    let lo = b % 16;
    String::from_str(hex_digit_str(hi)).concat(hex_digit_str(lo))
}

/// Builds the `#RRGGBB` text of a colour.
pub fn rgb_hex_string(r: u8, g: u8, b: u8) -> (s: String)
    ensures
        s@ == rgb_hex_seq(r as int, g as int, b as int),
{
    let mut out = String::from_str("#");
    out.append(byte_hex_string(r).as_str());
    out.append(byte_hex_string(g).as_str());
    out.append(byte_hex_string(b).as_str());
    proof {
        assert(out@ =~= rgb_hex_seq(r as int, g as int, b as int));
    }
    out
}

/// Converts a colour to its hexadecimal text form.
pub trait ToHexString {
    fn to_hex(&self) -> String;
}

impl ToHexString for Rgb8 {
    /// The `#RRGGBB` form of the colour, with uppercase digits.
    fn to_hex(&self) -> (s: String)
        ensures
            s@ == rgb_hex_seq(self.r as int, self.g as int, self.b as int),
    {
        rgb_hex_string(self.r, self.g, self.b)
    }
}

impl ToHexString for Rgba8 {
    /// The `#RRGGBB` form of the colour; the alpha channel is not rendered.
    fn to_hex(&self) -> (s: String)
        ensures
            s@ == rgb_hex_seq(self.r as int, self.g as int, self.b as int),
    {
        rgb_hex_string(self.r, self.g, self.b)
    }
}

/// Whether a character is a hexadecimal digit, in either case.
pub open spec fn is_hex_digit_char(c: char) -> bool {
    ||| ('0' as u32) <= (c as u32) <= ('9' as u32)
    ||| ('a' as u32) <= (c as u32) <= ('f' as u32)
    ||| ('A' as u32) <= (c as u32) <= ('F' as u32)
}

/// The numeric value of a hexadecimal digit character.
pub open spec fn hex_char_val(c: char) -> int {
    if ('0' as u32) <= (c as u32) <= ('9' as u32) {
        (c as u32) - ('0' as u32)
    } else if ('a' as u32) <= (c as u32) <= ('f' as u32) {
        (c as u32) - ('a' as u32) + 10
    } else {
        (c as u32) - ('A' as u32) + 10
    }
}

/// The text with every leading `#` removed.
pub open spec fn strip_leading_hashes(s: Seq<char>) -> Seq<char>
    decreases s.len(),
{
    if s.len() > 0 && s[0] == '#' {
        strip_leading_hashes(s.drop_first())
    } else {
        s
    }
}

/// Whether the text is a six-digit hexadecimal colour once leading `#` signs
/// are removed.
pub open spec fn is_hex_color(s: Seq<char>) -> bool {
    let t = strip_leading_hashes(s);
    t.len() == 6 && (forall|i: int| 0 <= i < 6 ==> is_hex_digit_char(#[trigger] t[i]))
}

/// The colour a six-digit hexadecimal text denotes.
pub open spec fn hex_color_value(s: Seq<char>) -> Rgb8 {
    let t = strip_leading_hashes(s);
    Rgb8 {
        r: (16 * hex_char_val(t[0]) + hex_char_val(t[1])) as u8,
        g: (16 * hex_char_val(t[2]) + hex_char_val(t[3])) as u8,
        b: (16 * hex_char_val(t[4]) + hex_char_val(t[5])) as u8,
    }
}

fn hex_char_value_exec(c: char) -> (r: Option<u8>)
    ensures
        r is Some <==> is_hex_digit_char(c),
        r matches Some(v) ==> v == hex_char_val(c) && v < 16,
{
    let u = c as u32;
    if 48 <= u && u <= 57 {
        Some((u - 48) as u8)
    } else if 97 <= u && u <= 102 {
        Some((u - 97 + 10) as u8)
    } else if 65 <= u && u <= 70 {
        Some((u - 65 + 10) as u8)
    } else {
        None
    }
}

/// Parses a hexadecimal colour such as `#FF0080`, with or without the
/// leading `#` and in either letter case.
pub fn parse_hex_color(s: &str) -> (r: Option<Rgb8>)
    ensures
        r is Some <==> is_hex_color(s@),
        r matches Some(c) ==> c == hex_color_value(s@),
{
    let n = s.unicode_len();
    let mut start: usize = 0;
    proof {
        assert(s@.skip(0) =~= s@);
    }
    while start < n && s.get_char(start) == '#'
        invariant
            start <= n,
            n == s@.len(),
            strip_leading_hashes(s@) == strip_leading_hashes(s@.skip(start as int)),
        decreases n - start,
    {
        proof {
            assert(s@.skip(start as int).drop_first() =~= s@.skip(start + 1));
        }
        start = start + 1;
    }
    proof {
        if start < n {
            assert(s@.skip(start as int)[0] == s@[start as int]);
        }
        assert(strip_leading_hashes(s@) =~= s@.skip(start as int));
    }
    if n - start != 6 {
        return None;
    }
    let ghost t = strip_leading_hashes(s@);
    let mut vals: Vec<u8> = Vec::new();
    let mut i: usize = 0;
    while i < 6
        invariant
            i <= 6,
            n - start == 6,
            n == s@.len(),
            t == strip_leading_hashes(s@),
            t =~= s@.skip(start as int),
            vals@.len() == i,
            forall|j: int| 0 <= j < i ==> is_hex_digit_char(#[trigger] t[j]),
            forall|j: int| 0 <= j < i ==> #[trigger] vals@[j] == hex_char_val(t[j]) && vals@[j] < 16,
        decreases 6 - i,
    {
        let c = s.get_char(start + i);
        proof {
            assert(t[i as int] == s@[start + i]);
        }
        match hex_char_value_exec(c) {
            Some(v) => vals.push(v),
            None => {
                return None;
            },
        }
        i = i + 1;
    }
    let red: u8 = 16 * vals[0] + vals[1];
    let green: u8 = 16 * vals[2] + vals[3];
    let blue: u8 = 16 * vals[4] + vals[5];
    Some(Rgb8 { r: red, g: green, b: blue })
}

/// Conversion of a hexadecimal colour text to a colour value.
pub trait ToRgb8 {
    fn to_rgb8(&self) -> Option<Rgb8>;
}

impl ToRgb8 for String {
    /// Parses `#RRGGBB` (the `#` may be left out, letters in either case);
    /// any other text gives `None`.
    fn to_rgb8(&self) -> (r: Option<Rgb8>)
        ensures
            r is Some <==> is_hex_color(self@),
            r matches Some(c) ==> c == hex_color_value(self@),
    {
        parse_hex_color(self.as_str())
    }
}

} // verus!
