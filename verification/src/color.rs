//! The colour value, its Win32 `COLORREF` packing and its hex text forms.

use vstd::prelude::*;

use crate::text::{hex_digit, hex_digit_char, push_char};

verus! {

/// An 8-bit sRGB color with alpha.
///
/// The picker edits RGB and can optionally edit alpha. When alpha editing is
/// disabled, the incoming alpha component is preserved.
#[derive(Clone, Copy, Debug, Default, PartialEq, Eq, Hash, Structural)]
pub struct Color {
    pub r: u8,
    pub g: u8,
    pub b: u8,
    pub a: u8,
}

/// The error of [`Color::parse_hex`]: the text is none of the accepted forms.
#[derive(Clone, Copy, Debug, PartialEq, Eq, Structural)]
pub struct ParseColorError;

/// The two upper-case hex digits of a byte.
pub open spec fn hex_byte(v: u8) -> Seq<char> {
    seq![hex_digit((v / 16) as int), hex_digit((v % 16) as int)]
}

/// `#RRGGBB`.
pub open spec fn hex_rgb_text(c: Color) -> Seq<char> {
    seq!['#'] + hex_byte(c.r) + hex_byte(c.g) + hex_byte(c.b)
}

/// `#RRGGBBAA`.
pub open spec fn hex_rgba_text(c: Color) -> Seq<char> {
    hex_rgb_text(c) + hex_byte(c.a)
}

/// The display form: alpha is left out exactly when the color is opaque.
pub open spec fn display_text(c: Color) -> Seq<char> {
    if c.a == 255 {
        hex_rgb_text(c)
    } else {
        hex_rgba_text(c)
    }
}

/// The `COLORREF` value `0x00BBGGRR` of a color.
pub open spec fn colorref_of(c: Color) -> u32 {
    (c.r + c.g * 256 + c.b * 65536) as u32
}

/// The color with the red, green and blue bytes of a `COLORREF` and the given alpha.
pub open spec fn color_of_colorref(value: u32, alpha: u8) -> Color {
    Color {
        r: (value % 256) as u8,
        g: ((value / 256) % 256) as u8,
        b: ((value / 65536) % 256) as u8,
        a: alpha,
    }
}

/// Value of one hexadecimal digit, either case.
pub open spec fn hex_digit_value(c: char) -> Option<u8> {
    if '0' <= c && c <= '9' {
        Some((c as int - '0' as int) as u8)
    } else if 'a' <= c && c <= 'f' {
        Some((c as int - 'a' as int + 10) as u8)
    } else if 'A' <= c && c <= 'F' {
        Some((c as int - 'A' as int + 10) as u8)
    } else {
        None
    }
}

/// `0xN` widened to `0xNN`.
pub open spec fn expand_nibble_value(v: u8) -> u8 {
    (v * 17) as u8
}

/// The text after an optional leading `#`.
pub open spec fn hex_body(s: Seq<char>) -> Seq<char> {
    if s.len() > 0 && s[0] == '#' {
        s.drop_first()
    } else {
        s
    }
}

/// The one-digit field at `i`, widened.
pub open spec fn nibble_field(h: Seq<char>, i: int) -> Option<u8> {
    match hex_digit_value(h[i]) {
        Some(v) => Some(expand_nibble_value(v)),
        None => None,
    }
}

/// The two-digit field at `i`, high digit first.
pub open spec fn byte_field(h: Seq<char>, i: int) -> Option<u8> {
    match (hex_digit_value(h[i]), hex_digit_value(h[i + 1])) {
        (Some(hi), Some(lo)) => Some((hi * 16 + lo) as u8),
        _ => None,
    }
}

/// The color that `text` denotes in one of the forms `RGB`, `RGBA`, `RRGGBB`,
/// `RRGGBBAA` (each with an optional leading `#`, every field made of hex
/// digits of either case), if any. Forms without an alpha field are opaque.
pub open spec fn parsed_color(text: Seq<char>) -> Option<Color> {
    let h = hex_body(text);
    if h.len() == 3 {
        match (nibble_field(h, 0), nibble_field(h, 1), nibble_field(h, 2)) {
            (Some(r), Some(g), Some(b)) => Some(Color { r, g, b, a: 255 }),
            _ => None,
        }
    } else if h.len() == 4 {
        match (nibble_field(h, 0), nibble_field(h, 1), nibble_field(h, 2), nibble_field(h, 3)) {
            (Some(r), Some(g), Some(b), Some(a)) => Some(Color { r, g, b, a }),
            _ => None,
        }
    } else if h.len() == 6 {
        match (byte_field(h, 0), byte_field(h, 2), byte_field(h, 4)) {
            (Some(r), Some(g), Some(b)) => Some(Color { r, g, b, a: 255 }),
            _ => None,
        }
    } else if h.len() == 8 {
        match (byte_field(h, 0), byte_field(h, 2), byte_field(h, 4), byte_field(h, 6)) {
            (Some(r), Some(g), Some(b), Some(a)) => Some(Color { r, g, b, a }),
            _ => None,
        }
    } else {
        None
    }
}

/// The parse result as `Color::parse_hex` returns it.
pub open spec fn parse_hex_result(text: Seq<char>) -> Result<Color, ParseColorError> {
    match parsed_color(text) {
        Some(c) => Ok(c),
        None => Err(ParseColorError),
    }
}

/// The text after an optional leading `#`.
fn strip_hash(value: &str) -> (h: &str)
    ensures
        h@ == hex_body(value@),
{
    let n = value.unicode_len();
    if n > 0 && value.get_char(0) == '#' {
        value.substring_char(1, n)
    } else {
        value
    }
}

/// The characters of a string, in order.
fn chars_of(s: &str) -> (v: Vec<char>)
    ensures
        v@ == s@,
{
    let n = s.unicode_len();
    let mut v: Vec<char> = Vec::new();
    let mut i: usize = 0;
    while i < n
        invariant
            n == s@.len(),
            i <= n,
            v@ == s@.subrange(0, i as int),
        decreases n - i,
    {
        v.push(s.get_char(i));
        i = i + 1;
    }
    v
}

fn hex_digit_value_of(c: char) -> (r: Option<u8>)
    ensures
        r == hex_digit_value(c),
{
    if '0' <= c && c <= '9' {
        Some(((c as u32) - 48) as u8)
    } else if 'a' <= c && c <= 'f' {
        Some(((c as u32) - 87) as u8)
    } else if 'A' <= c && c <= 'F' {
        Some(((c as u32) - 55) as u8)
    } else {
        None
    }
}

fn expand_nibble(value: u8) -> (r: u8)
    requires
        value < 16,
    ensures
        r == expand_nibble_value(value),
{
    assert(value < 16 ==> (value << 4u8) | value == value * 17) by (bit_vector);
    (value << 4u8) | value
}

proof fn lemma_digit_below_16(c: char)
    ensures
        hex_digit_value(c) matches Some(v) ==> v < 16,
{
}

fn parse_nibble(h: &Vec<char>, i: usize) -> (r: Result<u8, ParseColorError>)
    requires
        i < h.len(),
    ensures
        r == (match nibble_field(h@, i as int) {
            Some(v) => Ok(v),
            None => Err(ParseColorError),
        }),
{
    proof {
        lemma_digit_below_16(h@[i as int]);
    }
    match hex_digit_value_of(h[i]) {
        Some(v) => Ok(expand_nibble(v)),
        None => Err(ParseColorError),
    }
}

fn parse_byte(h: &Vec<char>, i: usize) -> (r: Result<u8, ParseColorError>)
    requires
        i + 2 <= h.len(),
    ensures
        r == (match byte_field(h@, i as int) {
            Some(v) => Ok(v),
            None => Err(ParseColorError),
        }),
{
    proof {
        lemma_digit_below_16(h@[i as int]);
        lemma_digit_below_16(h@[i + 1]);
    }
    match (hex_digit_value_of(h[i]), hex_digit_value_of(h[i + 1])) {
        (Some(hi), Some(lo)) => Ok(hi * 16 + lo),
        _ => Err(ParseColorError),
    }
}

impl Color {
    #[must_use]
    pub fn rgb(r: u8, g: u8, b: u8) -> (c: Self)
        ensures
            c == (Color { r, g, b, a: 255 }),
    {
        Color { r, g, b, a: 255 }
    }

    #[must_use]
    pub fn rgba(r: u8, g: u8, b: u8, a: u8) -> (c: Self)
        ensures
            c == (Color { r, g, b, a }),
    {
        Color { r, g, b, a }
    }

    /// Returns `#RRGGBB`.
    #[must_use]
    pub fn to_hex_rgb(self) -> (s: String)
        ensures
            s@ == hex_rgb_text(self),
    {
        let mut s = String::new();
        push_char(&mut s, '#');
        push_hex_byte(&mut s, self.r);
        push_hex_byte(&mut s, self.g);
        push_hex_byte(&mut s, self.b);
        s
    }

    /// Returns `#RRGGBBAA`.
    #[must_use]
    pub fn to_hex_rgba(self) -> (s: String)
        ensures
            s@ == hex_rgba_text(self),
    {
        let mut s = self.to_hex_rgb();
        push_hex_byte(&mut s, self.a);
        s
    }

    /// The display form: `#RRGGBB` for an opaque color, `#RRGGBBAA` otherwise.
    #[must_use]
    pub fn to_string(&self) -> (s: String)
        ensures
            s@ == display_text(*self),
    {
        if self.a == 255 {
            self.to_hex_rgb()
        } else {
            self.to_hex_rgba()
        }
    }

    /// Converts to Win32 `COLORREF` layout (`0x00BBGGRR`).
    #[must_use]
    pub fn to_colorref(self) -> (v: u32)
        ensures
            v == colorref_of(self),
            v == self.r + self.g * 256 + self.b * 65536,
    {
        let r = self.r;
        let g = self.g;
        let b = self.b;
        assert((r as u32) | ((g as u32) << 8u32) | ((b as u32) << 16u32) == r + g * 256 + b
            * 65536) by (bit_vector);
        (r as u32) | ((g as u32) << 8u32) | ((b as u32) << 16u32)
    }

    /// Converts a Win32 `COLORREF` (`0x00BBGGRR`) to an opaque color.
    #[must_use]
    pub fn from_colorref(value: u32) -> (c: Self)
        ensures
            c == color_of_colorref(value, 255),
    {
        Self::from_colorref_with_alpha(value, 255)
    }

    /// Converts a Win32 `COLORREF` while retaining a caller-supplied alpha.
    #[must_use]
    pub fn from_colorref_with_alpha(value: u32, alpha: u8) -> (c: Self)
        ensures
            c == color_of_colorref(value, alpha),
    {
        assert((value & 0xFF) == value % 256) by (bit_vector);
        assert(((value >> 8u32) & 0xFF) == (value / 256) % 256) by (bit_vector);
        assert(((value >> 16u32) & 0xFF) == (value / 65536) % 256) by (bit_vector);
        Self::rgba(
            (value & 0xFF) as u8,
            ((value >> 8u32) & 0xFF) as u8,
            ((value >> 16u32) & 0xFF) as u8,
            alpha,
        )
    }

    /// Parses `#RGB`, `#RGBA`, `#RRGGBB` or `#RRGGBBAA`, the `#` being optional
    /// and the digits of either case. The short forms widen each digit
    /// (`#123` is `#112233`); forms without alpha give an opaque color. Any
    /// other text, one holding a character that is no hex digit among them,
    /// is an error.
    pub fn parse_hex(value: &str) -> (r: Result<Self, ParseColorError>)
        ensures
            r == parse_hex_result(value@),
    {
        let hex = strip_hash(value);
        let n = hex.unicode_len();
        if n != 3 && n != 4 && n != 6 && n != 8 {
            return Err(ParseColorError);
        }
        let h = chars_of(hex);
        if n == 3 {
            let r = match parse_nibble(&h, 0) { Ok(v) => v, Err(e) => return Err(e) };
            let g = match parse_nibble(&h, 1) { Ok(v) => v, Err(e) => return Err(e) };
            let b = match parse_nibble(&h, 2) { Ok(v) => v, Err(e) => return Err(e) };
            Ok(Self::rgb(r, g, b))
        } else if n == 4 {
            let r = match parse_nibble(&h, 0) { Ok(v) => v, Err(e) => return Err(e) };
            let g = match parse_nibble(&h, 1) { Ok(v) => v, Err(e) => return Err(e) };
            let b = match parse_nibble(&h, 2) { Ok(v) => v, Err(e) => return Err(e) };
            let a = match parse_nibble(&h, 3) { Ok(v) => v, Err(e) => return Err(e) };
            Ok(Self::rgba(r, g, b, a))
        } else if n == 6 {
            let r = match parse_byte(&h, 0) { Ok(v) => v, Err(e) => return Err(e) };
            let g = match parse_byte(&h, 2) { Ok(v) => v, Err(e) => return Err(e) };
            let b = match parse_byte(&h, 4) { Ok(v) => v, Err(e) => return Err(e) };
            Ok(Self::rgb(r, g, b))
        } else {
            let r = match parse_byte(&h, 0) { Ok(v) => v, Err(e) => return Err(e) };
            let g = match parse_byte(&h, 2) { Ok(v) => v, Err(e) => return Err(e) };
            let b = match parse_byte(&h, 4) { Ok(v) => v, Err(e) => return Err(e) };
            let a = match parse_byte(&h, 6) { Ok(v) => v, Err(e) => return Err(e) };
            Ok(Self::rgba(r, g, b, a))
        }
    }
}

impl core::str::FromStr for Color {
    type Err = ParseColorError;

    /// The same as [`Color::parse_hex`].
    fn from_str(s: &str) -> Result<Self, ParseColorError> {
        Self::parse_hex(s)
    }
}

impl ParseColorError {
    /// The message of this error.
    pub fn to_string(&self) -> (s: String)
        ensures
            s@ == "invalid hex color; expected RGB, RGBA, RRGGBB, or RRGGBBAA"@,
    {
        "invalid hex color; expected RGB, RGBA, RRGGBB, or RRGGBBAA".to_owned()
    }
}

/// Appends the two hex digits of a byte.
fn push_hex_byte(s: &mut String, v: u8)
    ensures
        final(s)@ == old(s)@ + hex_byte(v),
{
    assert(v >> 4u8 == v / 16 && v >> 4u8 < 16) by (bit_vector);
    assert(v & 15u8 == v % 16) by (bit_vector);
    push_char(s, hex_digit_char(v >> 4u8));
    push_char(s, hex_digit_char(v & 15u8));
}

proof fn lemma_hex_digit_value(n: int)
    requires
        0 <= n < 16,
    ensures
        hex_digit_value(hex_digit(n)) == Some(n as u8),
{
}

proof fn lemma_hex_byte_parses(h: Seq<char>, i: int, v: u8)
    requires
        0 <= i,
        i + 2 <= h.len(),
        h.subrange(i, i + 2) == hex_byte(v),
    ensures
        byte_field(h, i) == Some(v),
{
    assert(h[i] == hex_byte(v)[0]);
    assert(h[i + 1] == hex_byte(v)[1]);
    lemma_hex_digit_value((v / 16) as int);
    lemma_hex_digit_value((v % 16) as int);
}

/// A color survives its trip through `COLORREF`: unpacking what
/// [`Color::to_colorref`] packs, with the color's own alpha, gives the color back.
pub proof fn lemma_colorref_round_trip(c: Color)
    ensures
        color_of_colorref(colorref_of(c), c.a) == c,
        color_of_colorref(colorref_of(c), 255) == (Color { r: c.r, g: c.g, b: c.b, a: 255 }),
{
    let v = colorref_of(c);
    assert(v == c.r + c.g * 256 + c.b * 65536);
    assert(v % 256 == c.r) by (nonlinear_arith)
        requires v == c.r + c.g * 256 + c.b * 65536, c.r < 256, c.g < 256, c.b < 256;
    assert(v / 256 == c.g + c.b * 256) by (nonlinear_arith)
        requires v == c.r + c.g * 256 + c.b * 65536, c.r < 256, c.g < 256, c.b < 256;
    assert((c.g + c.b * 256) % 256 == c.g) by (nonlinear_arith)
        requires c.g < 256, c.b < 256;
    assert(v / 65536 == c.b) by (nonlinear_arith)
        requires v == c.r + c.g * 256 + c.b * 65536, c.r < 256, c.g < 256, c.b < 256;
}

/// Packing an unpacked `COLORREF` keeps its low three bytes and clears the
/// unused high byte.
pub proof fn lemma_colorref_repack(value: u32, alpha: u8)
    ensures
        colorref_of(color_of_colorref(value, alpha)) == value % 0x1000000,
{
    let r = value % 256;
    let g = (value / 256) % 256;
    let b = (value / 65536) % 256;
    assert(r + g * 256 + b * 65536 == value % 0x1000000) by (nonlinear_arith)
        requires r == value % 256, g == (value / 256) % 256, b == (value / 65536) % 256;
}

/// The `#RRGGBBAA` text of a color parses back to the color.
pub proof fn lemma_hex_rgba_round_trip(c: Color)
    ensures
        parse_hex_result(hex_rgba_text(c)) == Ok::<Color, ParseColorError>(c),
{
    let h = hex_body(hex_rgba_text(c));
    assert(h =~= hex_byte(c.r) + hex_byte(c.g) + hex_byte(c.b) + hex_byte(c.a));
    assert(h.subrange(0, 2) =~= hex_byte(c.r));
    assert(h.subrange(2, 4) =~= hex_byte(c.g));
    assert(h.subrange(4, 6) =~= hex_byte(c.b));
    assert(h.subrange(6, 8) =~= hex_byte(c.a));
    lemma_hex_byte_parses(h, 0, c.r);
    lemma_hex_byte_parses(h, 2, c.g);
    lemma_hex_byte_parses(h, 4, c.b);
    lemma_hex_byte_parses(h, 6, c.a);
}

/// The `#RRGGBB` text of a color parses back to the opaque color with the
/// same red, green and blue.
pub proof fn lemma_hex_rgb_round_trip(c: Color)
    ensures
        parse_hex_result(hex_rgb_text(c)) == Ok::<Color, ParseColorError>(
            Color { r: c.r, g: c.g, b: c.b, a: 255 },
        ),
{
    let h = hex_body(hex_rgb_text(c));
    assert(h =~= hex_byte(c.r) + hex_byte(c.g) + hex_byte(c.b));
    assert(h.subrange(0, 2) =~= hex_byte(c.r));
    assert(h.subrange(2, 4) =~= hex_byte(c.g));
    assert(h.subrange(4, 6) =~= hex_byte(c.b));
    lemma_hex_byte_parses(h, 0, c.r);
    lemma_hex_byte_parses(h, 2, c.g);
    lemma_hex_byte_parses(h, 4, c.b);
}

/// The display text of a color parses back to exactly that color: leaving
/// the alpha out of an opaque color loses nothing.
pub proof fn lemma_display_round_trip(c: Color)
    ensures
        parse_hex_result(display_text(c)) == Ok::<Color, ParseColorError>(c),
{
    if c.a == 255 {
        lemma_hex_rgb_round_trip(c);
    } else {
        lemma_hex_rgba_round_trip(c);
    }
}

/// A text holding a character that is no hex digit, `#` aside in front,
/// never parses.
pub proof fn lemma_non_hex_text_is_rejected(text: Seq<char>, k: int)
    requires
        0 <= k < hex_body(text).len(),
        hex_digit_value(hex_body(text)[k]) is None,
    ensures
        parse_hex_result(text) == Err::<Color, ParseColorError>(ParseColorError),
{
}

/// The leading `#` is optional for every form: a text without it parses
/// exactly as the same text with it.
pub proof fn lemma_hash_is_optional(t: Seq<char>)
    requires
        t.len() == 0 || t[0] != '#',
    ensures
        parse_hex_result(t) == parse_hex_result(seq!['#'] + t),
{
    assert(hex_body(t) =~= t);
    assert((seq!['#'] + t).drop_first() =~= t);
    assert(hex_body(seq!['#'] + t) =~= t);
}

/// The digits 0-9, a-f and A-F have the values 0 to 15, either case alike,
/// and no other character is a hex digit.
pub proof fn lemma_hex_digit_values(c: char)
    ensures
        '0' <= c <= '9' ==> hex_digit_value(c) == Some((c as int - 48) as u8),
        'a' <= c <= 'f' ==> hex_digit_value(c) == Some((c as int - 87) as u8),
        'A' <= c <= 'F' ==> hex_digit_value(c) == Some((c as int - 55) as u8),
        hex_digit_value(c) is Some <==> ('0' <= c <= '9' || 'a' <= c <= 'f' || 'A' <= c <= 'F'),
        hex_digit_value(c) matches Some(v) ==> v < 16,
{
}

/// Every three-digit text, with or without `#`, is the opaque color whose
/// channels are its digits widened by repetition (`0xN` to `0xNN`, that is
/// N × 17).
pub proof fn lemma_short_rgb_form(d0: int, d1: int, d2: int)
    requires
        0 <= d0 < 16,
        0 <= d1 < 16,
        0 <= d2 < 16,
    ensures
        parse_hex_result(seq![hex_digit(d0), hex_digit(d1), hex_digit(d2)]) == Ok::<
            Color,
            ParseColorError,
        >(Color { r: (d0 * 17) as u8, g: (d1 * 17) as u8, b: (d2 * 17) as u8, a: 255 }),
        parse_hex_result(seq!['#', hex_digit(d0), hex_digit(d1), hex_digit(d2)]) == Ok::<
            Color,
            ParseColorError,
        >(Color { r: (d0 * 17) as u8, g: (d1 * 17) as u8, b: (d2 * 17) as u8, a: 255 }),
{
    lemma_hex_digit_value(d0);
    lemma_hex_digit_value(d1);
    lemma_hex_digit_value(d2);
    let t = seq![hex_digit(d0), hex_digit(d1), hex_digit(d2)];
    assert(hex_body(t) =~= t);
    let u = seq!['#', hex_digit(d0), hex_digit(d1), hex_digit(d2)];
    assert(hex_body(u) =~= t);
}

/// Every four-digit text is the color whose four channels, alpha last, are
/// its digits widened by repetition.
pub proof fn lemma_short_rgba_form(d0: int, d1: int, d2: int, d3: int)
    requires
        0 <= d0 < 16,
        0 <= d1 < 16,
        0 <= d2 < 16,
        0 <= d3 < 16,
    ensures
        parse_hex_result(seq![hex_digit(d0), hex_digit(d1), hex_digit(d2), hex_digit(d3)]) == Ok::<
            Color,
            ParseColorError,
        >(
            Color {
                r: (d0 * 17) as u8,
                g: (d1 * 17) as u8,
                b: (d2 * 17) as u8,
                a: (d3 * 17) as u8,
            },
        ),
{
    lemma_hex_digit_value(d0);
    lemma_hex_digit_value(d1);
    lemma_hex_digit_value(d2);
    lemma_hex_digit_value(d3);
    let t = seq![hex_digit(d0), hex_digit(d1), hex_digit(d2), hex_digit(d3)];
    assert(hex_body(t) =~= t);
}

/// A text of any length other than 3, 4, 6 or 8 after the optional `#` never
/// parses.
pub proof fn lemma_other_lengths_rejected(t: Seq<char>)
    requires
        hex_body(t).len() != 3 && hex_body(t).len() != 4 && hex_body(t).len() != 6 && hex_body(
            t,
        ).len() != 8,
    ensures
        parse_hex_result(t) == Err::<Color, ParseColorError>(ParseColorError),
{
}

/// Upper- and lower-case digits denote the same color.
pub proof fn lemma_case_does_not_matter(t: Seq<char>, u: Seq<char>)
    requires
        t.len() == u.len(),
        forall|i: int|
            0 <= i < t.len() ==> (t[i] == u[i] || ('a' <= t[i] <= 'f' && u[i] as int == t[i] as int
                - 32) || ('A' <= t[i] <= 'F' && u[i] as int == t[i] as int + 32)),
    ensures
        parse_hex_result(t) == parse_hex_result(u),
{
    let h = hex_body(t);
    let k = hex_body(u);
    assert(h.len() == k.len());
    assert forall|i: int| 0 <= i < h.len() implies hex_digit_value(h[i]) == hex_digit_value(k[i]) by {
        if t.len() > 0 && t[0] == '#' {
            assert(u[0] == '#');
            assert(h[i] == t[i + 1] && k[i] == u[i + 1]);
        } else {
            if u.len() > 0 && u[0] == '#' {
                assert(t[0] == '#' || ('a' <= t[0] <= 'f') || ('A' <= t[0] <= 'F'));
            }
            assert(h[i] == t[i] && k[i] == u[i]);
        }
    }
    if h.len() == 3 || h.len() == 4 {
        assert(nibble_field(h, 0) == nibble_field(k, 0));
        assert(nibble_field(h, 1) == nibble_field(k, 1));
        assert(nibble_field(h, 2) == nibble_field(k, 2));
        if h.len() == 4 {
            assert(nibble_field(h, 3) == nibble_field(k, 3));
        }
    } else if h.len() == 6 || h.len() == 8 {
        assert(byte_field(h, 0) == byte_field(k, 0));
        assert(byte_field(h, 2) == byte_field(k, 2));
        assert(byte_field(h, 4) == byte_field(k, 4));
        if h.len() == 8 {
            assert(byte_field(h, 6) == byte_field(k, 6));
        }
    }
}

/// The hex text of a color is `#` and upper-case hex digits, two per
/// channel, high digit first: `#RRGGBB` has 7 characters, `#RRGGBBAA` 9,
/// and the display text omits the alpha digits exactly for opaque colors.
pub proof fn lemma_hex_text_shape(c: Color)
    ensures
        hex_rgb_text(c).len() == 7,
        hex_rgba_text(c).len() == 9,
        hex_rgb_text(c)[0] == '#',
        hex_rgba_text(c).subrange(0, 7) == hex_rgb_text(c),
        forall|i: int|
            1 <= i < 9 ==> ('0' <= #[trigger] hex_rgba_text(c)[i] <= '9' || 'A' <= hex_rgba_text(
                c,
            )[i] <= 'F'),
        hex_digit_value(hex_rgba_text(c)[1]) == Some(c.r / 16),
        hex_digit_value(hex_rgba_text(c)[2]) == Some(c.r % 16),
        hex_digit_value(hex_rgba_text(c)[3]) == Some(c.g / 16),
        hex_digit_value(hex_rgba_text(c)[4]) == Some(c.g % 16),
        hex_digit_value(hex_rgba_text(c)[5]) == Some(c.b / 16),
        hex_digit_value(hex_rgba_text(c)[6]) == Some(c.b % 16),
        hex_digit_value(hex_rgba_text(c)[7]) == Some(c.a / 16),
        hex_digit_value(hex_rgba_text(c)[8]) == Some(c.a % 16),
        display_text(c).len() == if c.a == 255 {
            7int
        } else {
            9int
        },
        display_text(c).subrange(0, 7) == hex_rgb_text(c),
{
    lemma_hex_digit_value((c.r / 16) as int);
    lemma_hex_digit_value((c.r % 16) as int);
    lemma_hex_digit_value((c.g / 16) as int);
    lemma_hex_digit_value((c.g % 16) as int);
    lemma_hex_digit_value((c.b / 16) as int);
    lemma_hex_digit_value((c.b % 16) as int);
    lemma_hex_digit_value((c.a / 16) as int);
    lemma_hex_digit_value((c.a % 16) as int);
    let t = hex_rgba_text(c);
    assert(t =~= seq![
        '#',
        hex_digit((c.r / 16) as int),
        hex_digit((c.r % 16) as int),
        hex_digit((c.g / 16) as int),
        hex_digit((c.g % 16) as int),
        hex_digit((c.b / 16) as int),
        hex_digit((c.b % 16) as int),
        hex_digit((c.a / 16) as int),
        hex_digit((c.a % 16) as int),
    ]);
    assert(t.subrange(0, 7) =~= hex_rgb_text(c));
    if c.a == 255 {
        assert(display_text(c).subrange(0, 7) =~= hex_rgb_text(c));
    }
}

/// A `COLORREF` holds red in its low byte, green in the next and blue in
/// the third; its top byte is zero.
pub proof fn lemma_colorref_channels(c: Color)
    ensures
        colorref_of(c) % 256 == c.r,
        (colorref_of(c) / 256) % 256 == c.g,
        colorref_of(c) / 65536 == c.b,
{
    let v = colorref_of(c) as int;
    assert(v == c.r + c.g * 256 + c.b * 65536);
    assert(v % 256 == c.r && (v / 256) % 256 == c.g && v / 65536 == c.b) by (nonlinear_arith)
        requires v == c.r + c.g * 256 + c.b * 65536, c.r < 256, c.g < 256, c.b < 256;
}

/// Unpacking a `COLORREF` takes red from its low byte, green from the next
/// and blue from the third, and ignores the top byte.
pub proof fn lemma_colorref_unpack_channels(value: u32, alpha: u8)
    ensures
        color_of_colorref(value, alpha).r as int == value as int % 256,
        color_of_colorref(value, alpha).g as int == (value as int / 256) % 256,
        color_of_colorref(value, alpha).b as int == (value as int / 65536) % 256,
        color_of_colorref(value, alpha).a == alpha,
        color_of_colorref((value % 0x1000000) as u32, alpha) == color_of_colorref(value, alpha),
{
    let v = value as int;
    assert((v % 0x1000000) % 256 == v % 256 && ((v % 0x1000000) / 256) % 256 == (v / 256) % 256
        && ((v % 0x1000000) / 65536) % 256 == (v / 65536) % 256) by (nonlinear_arith)
        requires v >= 0;
}

/// Every six-digit text is the opaque color whose channels are its digit
/// pairs read as two-digit hex numbers, high digit first.
pub proof fn lemma_long_rgb_form(d: Seq<int>)
    requires
        d.len() == 6,
        forall|i: int| 0 <= i < 6 ==> 0 <= #[trigger] d[i] < 16,
    ensures
        parse_hex_result(d.map_values(|n: int| hex_digit(n))) == Ok::<Color, ParseColorError>(
            Color {
                r: (d[0] * 16 + d[1]) as u8,
                g: (d[2] * 16 + d[3]) as u8,
                b: (d[4] * 16 + d[5]) as u8,
                a: 255,
            },
        ),
{
    let t = d.map_values(|n: int| hex_digit(n));
    assert forall|i: int| 0 <= i < 6 implies hex_digit_value(t[i]) == Some(d[i] as u8) by {
        lemma_hex_digit_value(d[i]);
    }
    assert(hex_digit(d[0]) != '#') by {
        lemma_hex_digit_value(d[0]);
    }
    assert(hex_body(t) =~= t);
}

} // verus!
