use rust_colorpicker::message::{
    class_registration_result, field_changed_wparam, initial_position, is_hex_field_change,
    placement_in_range, point_from_lparam, wide, WindowRect, COLOR_FIELD_CHANGED,
};

#[test]
fn points_are_signed_words() {
    assert_eq!(point_from_lparam(0x0020_0010), (16, 32));
    assert_eq!(point_from_lparam(0xFFFF_FFFEu32 as isize), (-2, -1));
    assert_eq!(point_from_lparam(0x8000_7FFFu32 as isize), (32767, -32768));
}

#[test]
fn hex_field_change_commands() {
    assert!(is_hex_field_change(0x0300_0064));
    assert!(!is_hex_field_change(0x0300_0065));
    assert!(!is_hex_field_change(0x0400_0064));
    assert!(!is_hex_field_change(0x0064));
}

#[test]
fn field_notification_words() {
    let w = field_changed_wparam(1001);
    assert_eq!(w & 0xFFFF, 1001);
    assert_eq!((w >> 16) & 0xFFFF, COLOR_FIELD_CHANGED as usize);
    assert_eq!(field_changed_wparam(0xFFFF), 0x0100_FFFF);
}

#[test]
fn class_registration() {
    assert_eq!(class_registration_result(true, 5), Ok(()));
    assert_eq!(class_registration_result(false, 1410), Ok(()));
    assert_eq!(class_registration_result(false, 87), Err(87));
}

#[test]
fn placement() {
    let owner = WindowRect { left: 100, top: 50, right: 900, bottom: 650 };
    assert_eq!(initial_position(Some(owner), 1920, 1080, 400, 500), (300, 100));
    assert_eq!(initial_position(None, 1920, 1080, 400, 500), (760, 290));
    // Rounds toward zero when the window is larger than the screen.
    assert_eq!(initial_position(None, 300, 300, 401, 401), (-50, -50));
    assert_eq!(initial_position(None, 0, 1080, 400, 500), (i32::MIN, i32::MIN));
}

#[test]
fn wide_text_is_zero_terminated_utf16() {
    assert_eq!(wide("#0A"), vec![0x23, 0x30, 0x41, 0]);
    assert_eq!(wide(""), vec![0]);
    assert_eq!(wide("€"), vec![0x20AC, 0]);
    assert_eq!(wide("😀"), vec![0xD83D, 0xDE00, 0]);
}

#[test]
fn placement_range() {
    let owner = WindowRect { left: 100, top: 50, right: 900, bottom: 650 };
    assert!(placement_in_range(Some(owner), 1920, 1080, 400, 500));
    assert!(placement_in_range(None, 0, 0, i32::MAX, i32::MAX));
    assert!(!placement_in_range(None, 1920, 1080, i32::MIN, 500));
    let wide_owner = WindowRect { left: i32::MIN, top: 0, right: i32::MAX, bottom: 10 };
    assert!(!placement_in_range(Some(wide_owner), 1920, 1080, 400, 5));
}
