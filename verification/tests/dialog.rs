use rust_colorpicker::{Color, ColorPicker, PickerChrome, PickerError, PickerEvent, PickerFont, PickerLabels, PickerTheme};

#[test]
fn scale_percent_round_trip_is_close() {
    let mut picker = ColorPicker::new();
    for scale in [80, 90, 100, 110, 125, 150, 200] {
        picker.set_scale_percent(scale);
        assert!(picker.scale_percent().abs_diff(scale) <= 1);
    }
}

#[test]
fn configurable_state_clamps_safely() {
    let mut picker = ColorPicker::new();
    picker.set_dpi(1);
    picker.set_corner_radius(999);
    assert_eq!(picker.dpi(), 48);
    assert_eq!(picker.corner_radius(), 32);
}

#[test]
fn scale_percent_is_clamped_and_rounded() {
    let mut picker = ColorPicker::new();
    picker.set_scale_percent(0);
    assert_eq!(picker.dpi(), 48);
    assert_eq!(picker.scale_percent(), 50);
    picker.set_scale_percent(10_000);
    assert_eq!(picker.dpi(), 480);
    assert_eq!(picker.scale_percent(), 500);
    picker.set_scale_percent(125);
    assert_eq!(picker.dpi(), 120);
    for p in 0..=600u32 {
        picker.set_scale_percent(p);
        let expected = p.clamp(50, 500);
        assert!(picker.scale_percent().abs_diff(expected) <= 1, "{p}");
    }
}

#[test]
fn dpi_and_radius_clamp_from_above_and_below() {
    let mut picker = ColorPicker::new();
    picker.set_dpi(10_000);
    assert_eq!(picker.dpi(), 480);
    picker.set_dpi(144);
    assert_eq!(picker.dpi(), 144);
    picker.set_corner_radius(-5);
    assert_eq!(picker.corner_radius(), 0);
    picker.set_corner_radius(7);
    assert_eq!(picker.corner_radius(), 7);
}

#[test]
fn defaults() {
    let picker = ColorPicker::new();
    assert!(picker.show_alpha());
    assert_eq!(picker.dpi(), 96);
    assert_eq!(picker.scale_percent(), 100);
    assert_eq!(picker.theme(), PickerTheme::light());
    assert_eq!(picker.chrome(), PickerChrome::Native);
    assert_eq!(picker.labels(), &PickerLabels::english());
    assert_eq!(picker.font(), &PickerFont::new("Segoe UI", 14, 14));
    assert!(!picker.rtl());
    assert_eq!(picker.corner_radius(), 10);
}

#[test]
fn setters_change_only_their_setting() {
    let mut picker = ColorPicker::new();
    picker.set_show_alpha(false);
    picker.set_theme(PickerTheme::dark());
    picker.set_chrome(PickerChrome::Borderless);
    picker.set_labels(PickerLabels::persian());
    picker.set_font(PickerFont::new("Vazirmatn", 3, 20));
    picker.set_rtl(true);
    assert!(!picker.show_alpha());
    assert_eq!(picker.theme(), PickerTheme::dark());
    assert_eq!(picker.chrome(), PickerChrome::Borderless);
    assert_eq!(picker.labels().title, "انتخاب رنگ");
    assert_eq!(picker.font().family, "Vazirmatn");
    assert_eq!(picker.font().regular_size, 8);
    assert_eq!(picker.font().button_size, 20);
    assert!(picker.rtl());
    assert_eq!(picker.dpi(), 96);
    let copy = picker.clone();
    assert_eq!(copy.labels(), picker.labels());
    assert_eq!(copy.dpi(), 96);
}

#[test]
fn event_color() {
    let c = Color::rgba(9, 8, 7, 6);
    assert_eq!(PickerEvent::Preview(c).color(), c);
    assert_eq!(PickerEvent::Accepted(c).color(), c);
    assert_eq!(PickerEvent::Cancelled(c).color(), c);
}

#[test]
fn picker_error_messages() {
    assert_eq!(
        PickerError::UnsupportedPlatform.to_string(),
        "no native color-picker backend is available on this platform"
    );
    assert_eq!(PickerError::Windows(1410).to_string(), "Win32 color-picker error 1410");
    assert_eq!(PickerError::Windows(0).to_string(), "Win32 color-picker error 0");
    assert_eq!(
        PickerError::Windows(u32::MAX).to_string(),
        "Win32 color-picker error 4294967295"
    );
    assert_eq!(
        PickerError::CallbackPanicked.to_string(),
        "color-picker realtime callback panicked"
    );
}
