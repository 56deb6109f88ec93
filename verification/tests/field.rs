use rust_colorpicker::field::{ColorFieldBounds, FieldError, FieldState};
use rust_colorpicker::{Color, ColorPicker, PickerError};

#[test]
fn bounds() {
    let b = ColorFieldBounds::new(20, 20, 80, 28);
    assert_eq!((b.x, b.y, b.width, b.height), (20, 20, 80, 28));
}

#[test]
fn activation_notifies_only_on_a_changed_color() {
    let start = Color::rgb(40, 140, 220);
    let mut f = FieldState::new(start);
    let (initial, mut picker) = f.activation();
    assert_eq!(initial, start);
    picker.set_dpi(120);
    assert!(!f.complete_activation(picker.clone(), initial, None));
    assert_eq!(f.color(), start);
    assert!(!f.complete_activation(picker.clone(), initial, Some(start)));
    assert_eq!(f.color(), start);
    assert!(f.complete_activation(picker, initial, Some(Color::rgb(1, 2, 3))));
    assert_eq!(f.color(), Color::rgb(1, 2, 3));
    assert_eq!(f.activation().1.dpi(), 120);
    f.set_color(start);
    assert_eq!(f.color(), start);
    let _ = ColorPicker::new();
}

#[test]
fn a_color_set_during_the_activation_survives_an_unchanged_selection() {
    let a = Color::rgb(10, 20, 30);
    let b = Color::rgb(40, 50, 60);
    let mut f = FieldState::new(a);
    let (initial, picker) = f.activation();
    f.set_color(b);
    assert!(!f.complete_activation(picker, initial, Some(a)));
    assert_eq!(f.color(), b);
}

#[test]
fn field_error_messages() {
    assert_eq!(FieldError::InvalidParent.to_string(), "parent HWND is invalid");
    assert_eq!(FieldError::Destroyed.to_string(), "color field HWND has been destroyed");
    assert_eq!(FieldError::Windows(5).to_string(), "Win32 error 5");
    assert_eq!(
        FieldError::Picker(PickerError::CallbackPanicked).to_string(),
        "color picker failed: color-picker realtime callback panicked"
    );
    assert_eq!(FieldError::Picker(PickerError::Windows(2)).source(), Some(PickerError::Windows(2)));
    assert_eq!(FieldError::Destroyed.source(), None);
}
