use rust_colorpicker::{Color, PickerFont, PickerLabels, PickerTheme};

#[test]
fn light_and_dark_palettes() {
    let light = PickerTheme::light();
    assert_eq!(light.background, Color::rgb(231, 233, 236));
    assert_eq!(light.accent, Color::rgb(230, 181, 43));
    assert!(!light.is_dark());
    let dark = PickerTheme::dark();
    assert_eq!(dark.background, Color::rgb(30, 31, 33));
    assert_eq!(dark.checker_dark, Color::rgb(52, 54, 58));
    assert!(dark.is_dark());
    assert_eq!(PickerTheme::default(), light);
}

#[test]
fn darkness_threshold() {
    let mut theme = PickerTheme::light();
    // 128 * 299 + 128 * 587 + 128 * 114 = 128_000: not below the threshold.
    theme.background = Color::rgb(128, 128, 128);
    assert!(!theme.is_dark());
    theme.background = Color::rgb(127, 128, 128);
    assert!(theme.is_dark());
}

#[test]
fn labels() {
    let en = PickerLabels::english();
    assert_eq!(en.title, "Color");
    assert_eq!(en.hex, "Hex");
    assert_eq!(en.confirm, "OK");
    assert_eq!(en.cancel, "Cancel");
    assert_eq!(PickerLabels::default(), en);
    let fa = PickerLabels::persian();
    assert_eq!(fa.title, "انتخاب رنگ");
    assert_eq!(fa.hex, "هگز");
    assert_eq!(fa.confirm, "تأیید");
    assert_eq!(fa.cancel, "انصراف");
}

#[test]
fn font_sizes_are_at_least_eight() {
    let f = PickerFont::new("Vazirmatn", 7, -3);
    assert_eq!(f.family, "Vazirmatn");
    assert_eq!(f.regular_size, 8);
    assert_eq!(f.button_size, 8);
    let g = PickerFont::new("X", 8, 30);
    assert_eq!((g.regular_size, g.button_size), (8, 30));
    let d = PickerFont::default();
    assert_eq!(d.family, "Segoe UI");
    assert_eq!((d.regular_size, d.button_size), (14, 14));
}
