use rust_colorpicker::render::{alpha_strip_pixels, blend_over, checker_color, dib_pixel, preview_pixels};
use rust_colorpicker::Color;

#[test]
fn checkerboard_squares_are_eight_pixels() {
    let light = Color::rgb(246, 246, 247);
    let dark = Color::rgb(216, 218, 221);
    assert_eq!(checker_color(0, 0), light);
    assert_eq!(checker_color(7, 7), light);
    assert_eq!(checker_color(8, 0), dark);
    assert_eq!(checker_color(0, 8), dark);
    assert_eq!(checker_color(8, 8), light);
    assert_eq!(checker_color(23, 17), light);
    assert_eq!(checker_color(23, 9), dark);
}

#[test]
fn blending() {
    let bg = Color::rgb(200, 100, 0);
    assert_eq!(blend_over(Color::rgba(10, 20, 30, 255), bg), Color::rgb(10, 20, 30));
    assert_eq!(blend_over(Color::rgba(10, 20, 30, 0), bg), bg);
    // (0 * 128 + 200 * 127 + 127) / 255 = 100
    assert_eq!(blend_over(Color::rgba(0, 0, 0, 128), bg).r, 100);
    assert_eq!(blend_over(Color::rgba(255, 255, 255, 128), Color::rgb(0, 0, 0)), Color::rgb(128, 128, 128));
}

#[test]
fn dib_pixels_are_rgb_with_blue_lowest() {
    assert_eq!(dib_pixel(Color::rgba(0x12, 0x34, 0x56, 0x78)), 0x0012_3456);
}

#[test]
fn preview_and_alpha_strip_pixels() {
    let c = Color::rgba(255, 0, 0, 255);
    let p = preview_pixels(16, 2, c);
    assert_eq!(p.len(), 32);
    assert!(p.iter().all(|&v| v == 0x00FF_0000));

    let t = preview_pixels(9, 1, Color::rgba(0, 0, 0, 0));
    assert_eq!(t[0], dib_pixel(Color::rgb(246, 246, 247)));
    assert_eq!(t[8], dib_pixel(Color::rgb(216, 218, 221)));

    let alphas = vec![0u8, 255, 255];
    let s = alpha_strip_pixels(3, 2, Color::rgb(0, 0, 255), &alphas);
    assert_eq!(s.len(), 6);
    assert_eq!(s[0], dib_pixel(Color::rgb(246, 246, 247)));
    assert_eq!(s[1], 0x0000_00FF);
    assert_eq!(s[3], dib_pixel(Color::rgb(246, 246, 247)));
    assert_eq!(s[5], 0x0000_00FF);
    assert!(preview_pixels(0, 5, c).is_empty());
}
