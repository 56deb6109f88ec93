//! Pixel arithmetic of the popup: the checkerboard behind translucent
//! colors, alpha blending, and 32-bit device-independent bitmap pixels.

use vstd::prelude::*;

use crate::color::Color;

verus! {

/// The light square of the transparency checkerboard.
pub open spec fn checker_light() -> Color {
    Color { r: 246, g: 246, b: 247, a: 255 }
}

/// The dark square of the transparency checkerboard.
pub open spec fn checker_dark() -> Color {
    Color { r: 216, g: 218, b: 221, a: 255 }
}

/// The checkerboard has 8×8 squares, light where the square's column and
/// row numbers add up to an even number.
pub open spec fn checker_at(x: int, y: int) -> Color {
    if (x / 8 + y / 8) % 2 == 0 {
        checker_light()
    } else {
        checker_dark()
    }
}

/// One channel of `fg` drawn with alpha `a` over `bg`, rounded.
pub open spec fn blend_channel(fg: u8, bg: u8, a: u8) -> u8 {
    ((fg * a + bg * (255 - a) + 127) / 255) as u8
}

/// `fg` drawn over `bg` with `fg`'s alpha; the result is opaque.
pub open spec fn blended(fg: Color, bg: Color) -> Color {
    Color {
        r: blend_channel(fg.r, bg.r, fg.a),
        g: blend_channel(fg.g, bg.g, fg.a),
        b: blend_channel(fg.b, bg.b, fg.a),
        a: 255,
    }
}

/// A 32-bit DIB pixel `0x00RRGGBB`.
pub open spec fn dib_value(c: Color) -> u32 {
    (c.b + c.g * 256 + c.r * 65536) as u32
}

/// The checkerboard color of a pixel.
pub fn checker_color(x: usize, y: usize) -> (c: Color)
    ensures
        c == checker_at(x as int, y as int),
{
    if (x / 8 + y / 8) % 2 == 0 {
        Color::rgb(246, 246, 247)
    } else {
        Color::rgb(216, 218, 221)
    }
}

/// `foreground` drawn over `background` with `foreground`'s alpha.
pub fn blend_over(foreground: Color, background: Color) -> (c: Color)
    ensures
        c == blended(foreground, background),
{
    let a = foreground.a as u32;
    let inv = 255 - a;
    proof {
        lemma_blend_bound(foreground.r, background.r, foreground.a);
        lemma_blend_bound(foreground.g, background.g, foreground.a);
        lemma_blend_bound(foreground.b, background.b, foreground.a);
    }
    Color::rgb(
        ((foreground.r as u32 * a + background.r as u32 * inv + 127) / 255) as u8,
        ((foreground.g as u32 * a + background.g as u32 * inv + 127) / 255) as u8,
        ((foreground.b as u32 * a + background.b as u32 * inv + 127) / 255) as u8,
    )
}

/// A blended channel never leaves the range of a byte.
proof fn lemma_blend_bound(fg: u8, bg: u8, a: u8)
    ensures
        fg * a + bg * (255 - a) + 127 <= 65152,
        (fg * a + bg * (255 - a) + 127) / 255 <= 255,
{
    assert(fg * a + bg * (255 - a) <= 255 * 255) by (nonlinear_arith)
        requires fg <= 255, bg <= 255, a <= 255;
}

/// The 32-bit DIB pixel of a color (alpha dropped).
pub fn dib_pixel(color: Color) -> (v: u32)
    ensures
        v == dib_value(color),
{
    let r = color.r;
    let g = color.g;
    let b = color.b;
    assert((b as u32) | ((g as u32) << 8u32) | ((r as u32) << 16u32) == b + g * 256 + r
        * 65536) by (bit_vector);
    (b as u32) | ((g as u32) << 8u32) | ((r as u32) << 16u32)
}

/// Row-major pixels of a `width`×`height` box whose column `x` shows the
/// color `columns[x]` over the checkerboard.
pub open spec fn checkered_pixels(width: int, height: int, columns: Seq<Color>) -> Seq<u32> {
    Seq::new(
        (width * height) as nat,
        |i: int| dib_value(blended(columns[i % width], checker_at(i % width, i / width))),
    )
}

/// The pixels of a `width`×`height` box: column `x` shows `columns[x]`
/// drawn over the checkerboard.
fn checkered(width: usize, height: usize, columns: &Vec<Color>) -> (v: Vec<u32>)
    requires
        columns.len() == width,
        width * height <= usize::MAX,
    ensures
        v@ == checkered_pixels(width as int, height as int, columns@),
{
    let mut pixels: Vec<u32> = Vec::new();
    let mut y: usize = 0;
    while y < height
        invariant
            columns.len() == width,
            width * height <= usize::MAX,
            y <= height,
            pixels@.len() == y * width,
            forall|i: int|
                0 <= i < pixels@.len() ==> #[trigger] pixels@[i] == dib_value(
                    blended(columns@[i % width as int], checker_at(i % width as int, i / width as int)),
                ),
        decreases height - y,
    {
        assert(y * width + width <= width * height) by (nonlinear_arith)
            requires y < height;
        let mut x: usize = 0;
        while x < width
            invariant
                columns.len() == width,
                width * height <= usize::MAX,
                y < height,
                x <= width,
                y * width + width <= width * height,
                pixels@.len() == y * width + x,
                forall|i: int|
                    0 <= i < pixels@.len() ==> #[trigger] pixels@[i] == dib_value(
                        blended(
                            columns@[i % width as int],
                            checker_at(i % width as int, i / width as int),
                        ),
                    ),
            decreases width - x,
        {
            let ghost i = y * width + x;
            assert(i % width as int == x && i / width as int == y) by (nonlinear_arith)
                requires i == y * width + x, x < width;
            let p = dib_pixel(blend_over(columns[x], checker_color(x, y)));
            let ghost before = pixels@;
            pixels.push(p);
            assert forall|j: int|
                0 <= j < pixels@.len() implies #[trigger] pixels@[j] == dib_value(
                blended(columns@[j % width as int], checker_at(j % width as int, j / width as int)),
            ) by {
                if j < before.len() {
                    assert(pixels@[j] == before[j]);
                } else {
                    assert(j == i);
                    assert(pixels@[j] == p);
                }
            }
            x = x + 1;
        }
        assert((y + 1) * width == y * width + width) by (nonlinear_arith);
        y = y + 1;
    }
    assert(height * width == width * height) by (nonlinear_arith);
    assert(pixels@ =~= checkered_pixels(width as int, height as int, columns@));
    pixels
}

/// The pixels of a color preview: the color over the checkerboard.
pub fn preview_pixels(width: usize, height: usize, color: Color) -> (v: Vec<u32>)
    requires
        width * height <= usize::MAX,
    ensures
        v@ == checkered_pixels(width as int, height as int, Seq::new(width as nat, |x: int| color)),
{
    let mut columns: Vec<Color> = Vec::new();
    let mut x: usize = 0;
    while x < width
        invariant
            x <= width,
            columns@ == Seq::new(x as nat, |i: int| color),
        decreases width - x,
    {
        columns.push(color);
        assert(columns@ =~= Seq::new((x + 1) as nat, |i: int| color));
        x = x + 1;
    }
    checkered(width, height, &columns)
}

/// The pixels of the alpha strip: column `x` shows the color's red, green
/// and blue at alpha `alphas[x]` over the checkerboard.
pub fn alpha_strip_pixels(width: usize, height: usize, color: Color, alphas: &Vec<u8>) -> (v:
    Vec<u32>)
    requires
        alphas.len() == width,
        width * height <= usize::MAX,
    ensures
        v@ == checkered_pixels(
            width as int,
            height as int,
            alphas@.map_values(|a: u8| Color { r: color.r, g: color.g, b: color.b, a }),
        ),
{
    let ghost wanted = alphas@.map_values(|a: u8| Color { r: color.r, g: color.g, b: color.b, a });
    let mut columns: Vec<Color> = Vec::new();
    let mut x: usize = 0;
    while x < width
        invariant
            x <= width,
            alphas.len() == width,
            wanted == alphas@.map_values(|a: u8| Color { r: color.r, g: color.g, b: color.b, a }),
            columns@ == wanted.subrange(0, x as int),
        decreases width - x,
    {
        columns.push(Color::rgba(color.r, color.g, color.b, alphas[x]));
        assert(columns@ =~= wanted.subrange(0, x + 1));
        x = x + 1;
    }
    assert(columns@ =~= wanted);
    checkered(width, height, &columns)
}

proof fn lemma_full_weight(c: u8)
    ensures
        (c * 255 + 127) / 255 == c,
{
    assert((c * 255 + 127) / 255 == c) by (nonlinear_arith)
        requires c <= 255;
}

/// A fully opaque color hides the checkerboard: blending gives it back.
pub proof fn lemma_opaque_blend_is_identity(fg: Color, bg: Color)
    requires
        fg.a == 255,
    ensures
        blended(fg, bg) == fg,
{
    lemma_full_weight(fg.r);
    lemma_full_weight(fg.g);
    lemma_full_weight(fg.b);
}

/// A fully transparent color leaves the background visible, made opaque.
pub proof fn lemma_transparent_blend_shows_background(fg: Color, bg: Color)
    requires
        fg.a == 0,
    ensures
        blended(fg, bg) == (Color { r: bg.r, g: bg.g, b: bg.b, a: 255 }),
{
    lemma_full_weight(bg.r);
    lemma_full_weight(bg.g);
    lemma_full_weight(bg.b);
}

/// Every pixel of a checkered box is its column's color drawn over the
/// checkerboard at that pixel's own column and row: light (246, 246, 247)
/// where `x / 8 + y / 8` is even, dark (216, 218, 221) where it is odd.
pub proof fn lemma_checkered_pixel(width: int, height: int, columns: Seq<Color>, x: int, y: int)
    requires
        columns.len() == width,
        0 <= x < width,
        0 <= y < height,
    ensures
        checkered_pixels(width, height, columns).len() == width * height,
        0 <= y * width + x < width * height,
        checkered_pixels(width, height, columns)[y * width + x] == dib_value(
            blended(
                columns[x],
                if (x / 8 + y / 8) % 2 == 0 {
                    Color { r: 246, g: 246, b: 247, a: 255 }
                } else {
                    Color { r: 216, g: 218, b: 221, a: 255 }
                },
            ),
        ),
{
    let i = y * width + x;
    assert(0 <= i < width * height && i % width == x && i / width == y) by (nonlinear_arith)
        requires i == y * width + x, 0 <= x < width, 0 <= y < height;
}

/// A DIB pixel holds blue in its low byte, green in the next and red in the
/// third; the top byte is zero.
pub proof fn lemma_dib_channels(c: Color)
    ensures
        dib_value(c) % 256 == c.b,
        (dib_value(c) / 256) % 256 == c.g,
        dib_value(c) / 65536 == c.r,
{
    let v = dib_value(c) as int;
    assert(v == c.b + c.g * 256 + c.r * 65536);
    assert(v % 256 == c.b && (v / 256) % 256 == c.g && v / 65536 == c.r) by (nonlinear_arith)
        requires v == c.b + c.g * 256 + c.r * 65536, c.r < 256, c.g < 256, c.b < 256;
}

/// A blended channel lies between the foreground's and the background's,
/// and the result is opaque.
pub proof fn lemma_blend_between(fg: Color, bg: Color)
    ensures
        blended(fg, bg).a == 255,
        fg.r <= bg.r ==> fg.r <= blended(fg, bg).r <= bg.r,
        bg.r <= fg.r ==> bg.r <= blended(fg, bg).r <= fg.r,
        fg.g <= bg.g ==> fg.g <= blended(fg, bg).g <= bg.g,
        bg.g <= fg.g ==> bg.g <= blended(fg, bg).g <= fg.g,
        fg.b <= bg.b ==> fg.b <= blended(fg, bg).b <= bg.b,
        bg.b <= fg.b ==> bg.b <= blended(fg, bg).b <= fg.b,
{
    lemma_channel_between(fg.r, bg.r, fg.a);
    lemma_channel_between(fg.g, bg.g, fg.a);
    lemma_channel_between(fg.b, bg.b, fg.a);
}

proof fn lemma_channel_between(f: u8, b: u8, a: u8)
    ensures
        f <= b ==> f <= blend_channel(f, b, a) <= b,
        b <= f ==> b <= blend_channel(f, b, a) <= f,
{
    let n = f * a + b * (255 - a) + 127;
    let q = n / 255;
    assert(q * 255 <= n < q * 255 + 255) by (nonlinear_arith)
        requires q == n / 255, n >= 0;
    assert(f <= b ==> f * 255 <= f * a + b * (255 - a) <= b * 255) by (nonlinear_arith)
        requires a <= 255, f >= 0;
    assert(b <= f ==> b * 255 <= f * a + b * (255 - a) <= f * 255) by (nonlinear_arith)
        requires a <= 255, b >= 0;
    lemma_blend_bound(f, b, a);
}

/// Each blended channel is the weighted mean `(f·a + b·(255 − a)) / 255`
/// rounded to the nearest integer.
pub proof fn lemma_blend_rounds_to_nearest(fg: Color, bg: Color)
    ensures
        ({
            let a = fg.a as int;
            let nr = fg.r * a + bg.r * (255 - a);
            let ng = fg.g * a + bg.g * (255 - a);
            let nb = fg.b * a + bg.b * (255 - a);
            &&& -255 < 2 * (255 * blended(fg, bg).r - nr) <= 255
            &&& -255 < 2 * (255 * blended(fg, bg).g - ng) <= 255
            &&& -255 < 2 * (255 * blended(fg, bg).b - nb) <= 255
        }),
{
    lemma_channel_nearest(fg.r, bg.r, fg.a);
    lemma_channel_nearest(fg.g, bg.g, fg.a);
    lemma_channel_nearest(fg.b, bg.b, fg.a);
}

proof fn lemma_channel_nearest(f: u8, b: u8, a: u8)
    ensures
        -255 < 2 * (255 * blend_channel(f, b, a) - (f * a + b * (255 - a))) <= 255,
{
    lemma_blend_bound(f, b, a);
    let n = f * a + b * (255 - a);
    let q = (n + 127) / 255;
    assert(q * 255 <= n + 127 < q * 255 + 255) by (nonlinear_arith)
        requires q == (n + 127) / 255, n >= 0;
}

} // verus!
