//! Packing and unpacking of window-message parameters, window placement and
//! the other small decisions around the popup's and the field's windows.

use vstd::prelude::*;

verus! {

/// Control identifier of the popup's hex field.
pub const HEX_FIELD_ID: u16 = 100;

/// Notification code of an edit control whose text changed.
pub const EDIT_CHANGED: u16 = 0x0300;

/// Notification code placed in the high word of `WM_COMMAND` after the user
/// accepts a different color in a color field.
pub const COLOR_FIELD_CHANGED: u16 = 0x0100;

/// The error code of registering a window class that already exists.
pub const CLASS_ALREADY_EXISTS: u32 = 1410;

/// The position value that leaves the choice to the window manager.
pub const USE_DEFAULT_POSITION: i32 = -2147483648i32;

/// The low 16 bits of a message parameter.
pub open spec fn low_word(v: int) -> int {
    v % 0x10000
}

/// Bits 16 to 31 of a message parameter.
pub open spec fn high_word(v: int) -> int {
    (v / 0x10000) % 0x10000
}

/// A 16-bit pattern read as a signed number.
pub open spec fn signed_16(v: int) -> int {
    if v >= 0x8000 {
        v - 0x10000
    } else {
        v
    }
}

/// The client coordinates a mouse message carries in its `LPARAM`: the
/// signed low and high words of its low 32 bits.
pub fn point_from_lparam(lparam: isize) -> (p: (i32, i32))
    ensures
        p.0 == signed_16(low_word(lparam as u32 as int)),
        p.1 == signed_16(high_word(lparam as u32 as int)),
{
    let raw = lparam as u32;
    let x = raw as i16 as i32;
    let y = (raw >> 16u32) as i16 as i32;
    assert(raw % 0x10000 >= 0x8000 ==> raw as i16 as i32 == raw % 0x10000 - 0x10000)
        by (bit_vector);
    assert(raw % 0x10000 < 0x8000 ==> raw as i16 as i32 == raw % 0x10000) by (bit_vector);
    assert((raw / 0x10000) % 0x10000 >= 0x8000 ==> (raw >> 16u32) as i16 as i32 == (raw
        / 0x10000) % 0x10000 - 0x10000) by (bit_vector);
    assert((raw / 0x10000) % 0x10000 < 0x8000 ==> (raw >> 16u32) as i16 as i32 == (raw
        / 0x10000) % 0x10000) by (bit_vector);
    (x, y)
}

/// Whether a `WM_COMMAND` parameter reports an edit of the hex field.
pub fn is_hex_field_change(wparam: usize) -> (b: bool)
    ensures
        b == (low_word(wparam as int) == HEX_FIELD_ID && high_word(wparam as int) == EDIT_CHANGED),
{
    let id = (wparam & 0xFFFF) as u16;
    let notification = ((wparam >> 16usize) & 0xFFFF) as u16;
    assert(wparam & 0xFFFF == wparam % 0x10000) by (bit_vector);
    assert((wparam >> 16usize) & 0xFFFF == (wparam / 0x10000) % 0x10000) by (bit_vector);
    id == HEX_FIELD_ID && notification == EDIT_CHANGED
}

/// The `WM_COMMAND` parameter a color field sends its parent after a changed
/// selection: the control identifier in the low word, [`COLOR_FIELD_CHANGED`]
/// in the high word.
pub fn field_changed_wparam(control_id: u16) -> (w: usize)
    ensures
        w == control_id + COLOR_FIELD_CHANGED * 0x10000,
{
    let id = control_id as usize;
    let code = COLOR_FIELD_CHANGED as usize;
    assert(id < 0x10000 ==> id | (256usize << 16usize) == id + 256 * 0x10000) by (bit_vector);
    id | (code << 16usize)
}

/// A parent reading the notification of a color field finds the field's
/// identifier in the low word and the change code in the high word.
pub proof fn lemma_field_notification_decodes(control_id: u16)
    ensures
        low_word(control_id + COLOR_FIELD_CHANGED * 0x10000) == control_id,
        high_word(control_id + COLOR_FIELD_CHANGED * 0x10000) == COLOR_FIELD_CHANGED,
{
}

/// Registering the popup's window class succeeds when it registers, and also
/// when the class is already there; any other failure reports its code.
pub fn class_registration_result(registered: bool, last_error: u32) -> (r: Result<(), u32>)
    ensures
        r == if registered || last_error == CLASS_ALREADY_EXISTS {
            Ok::<(), u32>(())
        } else {
            Err(last_error)
        },
{
    if registered {
        Ok(())
    } else if last_error == CLASS_ALREADY_EXISTS {
        Ok(())
    } else {
        Err(last_error)
    }
}

/// A window rectangle in screen coordinates.
#[derive(Clone, Copy, Debug, PartialEq, Eq, Structural)]
pub struct WindowRect {
    pub left: i32,
    pub top: i32,
    pub right: i32,
    pub bottom: i32,
}

/// Division by two rounding toward zero, as integer division does.
pub open spec fn half_toward_zero(v: int) -> int {
    if v >= 0 {
        v / 2
    } else {
        -((-v) / 2)
    }
}

/// The offset that centers `size` in the span from `start` to `end`.
pub open spec fn centered(start: int, end: int, size: int) -> int {
    start + half_toward_zero(end - start - size)
}

/// The centering arithmetic stays within `i32`.
pub open spec fn centering_fits(start: int, end: int, size: int) -> bool {
    &&& i32::MIN <= end - start <= i32::MAX
    &&& i32::MIN <= end - start - size <= i32::MAX
    &&& i32::MIN <= centered(start, end, size) <= i32::MAX
}

/// What placing the popup needs to stay within `i32`.
pub open spec fn placement_fits(
    owner: Option<WindowRect>,
    screen_width: i32,
    screen_height: i32,
    width: i32,
    height: i32,
) -> bool {
    match owner {
        Some(r) => centering_fits(r.left as int, r.right as int, width as int) && centering_fits(
            r.top as int,
            r.bottom as int,
            height as int,
        ),
        None => screen_width > 0 && screen_height > 0 ==> centering_fits(
            0,
            screen_width as int,
            width as int,
        ) && centering_fits(0, screen_height as int, height as int),
    }
}

/// Where the popup opens: centered on its owner's window rectangle when one
/// is known, else centered on a screen of known size, else wherever the
/// window manager chooses.
pub fn initial_position(
    owner: Option<WindowRect>,
    screen_width: i32,
    screen_height: i32,
    width: i32,
    height: i32,
) -> (p: (i32, i32))
    requires
        placement_fits(owner, screen_width, screen_height, width, height),
    ensures
        p == match owner {
            Some(r) => (
                centered(r.left as int, r.right as int, width as int) as i32,
                centered(r.top as int, r.bottom as int, height as int) as i32,
            ),
            None => if screen_width > 0 && screen_height > 0 {
                (
                    centered(0, screen_width as int, width as int) as i32,
                    centered(0, screen_height as int, height as int) as i32,
                )
            } else {
                (USE_DEFAULT_POSITION, USE_DEFAULT_POSITION)
            },
        },
{
    match owner {
        Some(r) => (
            r.left + ((r.right - r.left - width) / 2),
            r.top + ((r.bottom - r.top - height) / 2),
        ),
        None => {
            if screen_width > 0 && screen_height > 0 {
                ((screen_width - width) / 2, (screen_height - height) / 2)
            } else {
                (USE_DEFAULT_POSITION, USE_DEFAULT_POSITION)
            }
        },
    }
}

/// The UTF-16 code units of one character: the code itself below U+10000,
/// otherwise a high and a low surrogate.
pub open spec fn utf16_of_char(c: char) -> Seq<u16> {
    let v = c as u32;
    if v < 0x10000 {
        seq![v as u16]
    } else {
        let w = v - 0x10000;
        seq![(0xD800 + w / 0x400) as u16, (0xDC00 + w % 0x400) as u16]
    }
}

/// The UTF-16 code units of a text.
pub open spec fn utf16_units(text: Seq<char>) -> Seq<u16>
    decreases text.len(),
{
    if text.len() == 0 {
        Seq::empty()
    } else {
        utf16_units(text.drop_last()) + utf16_of_char(text.last())
    }
}

/// A text as a zero-terminated UTF-16 string for the window system.
pub fn wide(text: &str) -> (w: Vec<u16>)
    ensures
        w@ == utf16_units(text@).push(0),
{
    let n = text.unicode_len();
    let mut units: Vec<u16> = Vec::new();
    let mut i: usize = 0;
    assert(text@.subrange(0, 0) =~= Seq::<char>::empty());
    while i < n
        invariant
            n == text@.len(),
            i <= n,
            units@ == utf16_units(text@.subrange(0, i as int)),
        decreases n - i,
    {
        let c = text.get_char(i);
        let v = c as u32;
        assert(text@.subrange(0, i + 1).drop_last() =~= text@.subrange(0, i as int));
        assert(text@.subrange(0, i + 1).last() == c);
        if v < 0x10000 {
            units.push(v as u16);
            assert(units@ =~= utf16_units(text@.subrange(0, i + 1)));
        } else {
            assert(v <= 0x10FFFF);
            let w = v - 0x10000;
            units.push((0xD800 + w / 0x400) as u16);
            units.push((0xDC00 + w % 0x400) as u16);
            assert(units@ =~= utf16_units(text@.subrange(0, i + 1)));
        }
        i = i + 1;
    }
    assert(text@.subrange(0, n as int) =~= text@);
    units.push(0);
    units
}

/// Whether placing the popup stays within `i32`, so that
/// [`initial_position`] may be called.
pub fn placement_in_range(
    owner: Option<WindowRect>,
    screen_width: i32,
    screen_height: i32,
    width: i32,
    height: i32,
) -> (b: bool)
    ensures
        b == placement_fits(owner, screen_width, screen_height, width, height),
{
    match owner {
        Some(r) => centering_in_range(r.left, r.right, width) && centering_in_range(
            r.top,
            r.bottom,
            height,
        ),
        None => !(screen_width > 0 && screen_height > 0) || (centering_in_range(
            0,
            screen_width,
            width,
        ) && centering_in_range(0, screen_height, height)),
    }
}

fn centering_in_range(start: i32, end: i32, size: i32) -> (b: bool)
    ensures
        b == centering_fits(start as int, end as int, size as int),
{
    let span = end as i64 - start as i64;
    let rest = span - size as i64;
    let mid = start as i64 + rest / 2;
    let lo = i32::MIN as i64;
    let hi = i32::MAX as i64;
    lo <= span && span <= hi && lo <= rest && rest <= hi && lo <= mid && mid <= hi
}

/// A point with coordinates in the signed 16-bit range, packed as a mouse
/// message packs it (x in the low word, y in the high word, each as its
/// 16-bit two's complement), is read back unchanged.
pub proof fn lemma_point_round_trip(x: int, y: int)
    requires
        -0x8000 <= x < 0x8000,
        -0x8000 <= y < 0x8000,
    ensures
        ({
            let lo = if x < 0 {
                x + 0x10000
            } else {
                x
            };
            let hi = if y < 0 {
                y + 0x10000
            } else {
                y
            };
            let raw = lo + hi * 0x10000;
            signed_16(low_word(raw)) == x && signed_16(high_word(raw)) == y
        }),
{
    let lo = if x < 0 {
        x + 0x10000
    } else {
        x
    };
    let hi = if y < 0 {
        y + 0x10000
    } else {
        y
    };
    let raw = lo + hi * 0x10000;
    assert(raw % 0x10000 == lo && (raw / 0x10000) % 0x10000 == hi) by (nonlinear_arith)
        requires raw == lo + hi * 0x10000, 0 <= lo < 0x10000, 0 <= hi < 0x10000;
}

/// The low and high words of a 32-bit parameter put back together give the
/// parameter.
pub proof fn lemma_words_recompose(v: int)
    requires
        0 <= v < 0x1_0000_0000,
    ensures
        0 <= low_word(v) < 0x10000,
        0 <= high_word(v) < 0x10000,
        low_word(v) + high_word(v) * 0x10000 == v,
{
    assert(v % 0x10000 + ((v / 0x10000) % 0x10000) * 0x10000 == v) by (nonlinear_arith)
        requires 0 <= v < 0x1_0000_0000;
}

/// A centered window leaves margins on its two sides that differ by at most
/// one pixel, for any span and window size.
pub proof fn lemma_centered_margins(start: int, end: int, size: int)
    ensures
        ({
            let p = centered(start, end, size);
            let before = p - start;
            let after = end - (p + size);
            -1 <= before - after <= 1
        }),
{
}

/// The UTF-16 units of a character below U+10000 are that one code; any
/// other character becomes a high surrogate (D800-DBFF) and a low surrogate
/// (DC00-DFFF) from which the code is recovered.
pub proof fn lemma_utf16_of_char(c: char)
    ensures
        (c as u32) < 0x10000 ==> utf16_of_char(c) == seq![c as u32 as u16] && (c as u32 as u16)
            as int == c as u32 as int,
        (c as u32) >= 0x10000 ==> ({
            let u = utf16_of_char(c);
            &&& u.len() == 2
            &&& 0xD800 <= u[0] < 0xDC00
            &&& 0xDC00 <= u[1] < 0xE000
            &&& (u[0] - 0xD800) * 0x400 + (u[1] - 0xDC00) + 0x10000 == c as u32 as int
        }),
{
    let v = c as u32;
    assert(v <= 0x10FFFF);
    if v >= 0x10000 {
        let w = v - 0x10000;
        assert(w / 0x400 < 0x400 && (w / 0x400) * 0x400 + w % 0x400 == w) by (nonlinear_arith)
            requires 0 <= w <= 0xFFFFF;
    }
}

/// A text's UTF-16 form is the concatenation of its characters' forms.
pub proof fn lemma_utf16_concat(s: Seq<char>, t: Seq<char>)
    ensures
        utf16_units(s + t) == utf16_units(s) + utf16_units(t),
    decreases t.len(),
{
    if t.len() == 0 {
        assert(s + t =~= s);
        assert(utf16_units(s) + utf16_units(t) =~= utf16_units(s));
    } else {
        assert((s + t).drop_last() =~= s + t.drop_last());
        assert((s + t).last() == t.last());
        lemma_utf16_concat(s, t.drop_last());
        assert(utf16_units(s + t) =~= utf16_units(s) + utf16_units(t));
    }
}

} // verus!
