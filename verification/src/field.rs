//! The state behind a color-field control: the color it shows and the picker
//! it opens, and what an activation of the field does to them.

use vstd::prelude::*;

use crate::color::Color;
use crate::dialog::{is_default_settings, picker_error_text, ColorPicker, PickerError, PickerSettings};
use crate::text::{decimal_text, push_decimal};

verus! {

/// Position and size of a color field in its parent's client area.
#[derive(Clone, Copy, Debug, PartialEq, Eq, Structural)]
pub struct ColorFieldBounds {
    pub x: i32,
    pub y: i32,
    pub width: i32,
    pub height: i32,
}

impl ColorFieldBounds {
    #[must_use]
    pub fn new(x: i32, y: i32, width: i32, height: i32) -> (b: Self)
        ensures
            b == (ColorFieldBounds { x, y, width, height }),
    {
        ColorFieldBounds { x, y, width, height }
    }
}

/// What a color field holds: the color it shows and the picker it opens.
pub struct FieldState {
    color: Color,
    picker: ColorPicker,
}

/// The state of a color field, as the contracts see it.
pub struct FieldModel {
    pub color: Color,
    pub picker: PickerSettings,
}

impl View for FieldState {
    type V = FieldModel;

    closed spec fn view(&self) -> FieldModel {
        FieldModel { color: self.color, picker: self.picker@ }
    }
}

impl FieldState {
    /// A field showing `initial`, opening a picker with the default settings.
    pub fn new(initial: Color) -> (s: Self)
        ensures
            s@.color == initial,
            is_default_settings(s@.picker),
    {
        FieldState { color: initial, picker: ColorPicker::new() }
    }

    pub fn color(&self) -> (c: Color)
        ensures
            c == self@.color,
    {
        self.color
    }

    pub fn set_color(&mut self, color: Color)
        ensures
            final(self)@ == (FieldModel { color, ..old(self)@ }),
    {
        self.color = color;
    }

    /// What an activation starts from: the shown color and a copy of the
    /// picker, taken out before the picker runs.
    pub fn activation(&self) -> (r: (Color, ColorPicker))
        ensures
            r.0 == self@.color,
            r.1@ == self@.picker,
    {
        (self.color, self.picker.clone())
    }

    /// An activation that started from the color `initial` ended with the
    /// picker `picker` returning `selected`. The picker is kept. A selected
    /// color that differs from `initial` is shown from now on, and only then
    /// is the parent to be notified; otherwise the field keeps whatever color
    /// it shows now, which the host may have set while the picker was open.
    pub fn complete_activation(
        &mut self,
        picker: ColorPicker,
        initial: Color,
        selected: Option<Color>,
    ) -> (notify: bool)
        ensures
            notify == (selected is Some && selected->0 != initial),
            final(self)@.picker == picker@,
            final(self)@.color == if notify {
                selected->0
            } else {
                old(self)@.color
            },
    {
        self.picker = picker;
        match selected {
            Some(color) => {
                if color != initial {
                    self.color = color;
                    true
                } else {
                    false
                }
            },
            None => false,
        }
    }
}

/// Why a color-field operation failed.
#[derive(Debug)]
pub enum FieldError {
    InvalidParent,
    Destroyed,
    Windows(u32),
    Picker(PickerError),
}

/// The message of a field error.
pub open spec fn field_error_text(e: FieldError) -> Seq<char> {
    match e {
        FieldError::InvalidParent => "parent HWND is invalid"@,
        FieldError::Destroyed => "color field HWND has been destroyed"@,
        FieldError::Windows(code) => "Win32 error "@ + decimal_text(code as nat),
        FieldError::Picker(p) => "color picker failed: "@ + picker_error_text(p),
    }
}

impl FieldError {
    /// The message of this error.
    pub fn to_string(&self) -> (s: String)
        ensures
            s@ == field_error_text(*self),
    {
        match self {
            FieldError::InvalidParent => "parent HWND is invalid".to_owned(),
            FieldError::Destroyed => "color field HWND has been destroyed".to_owned(),
            FieldError::Windows(code) => {
                let mut s = "Win32 error ".to_owned();
                push_decimal(&mut s, *code);
                s
            },
            FieldError::Picker(error) => {
                let mut s = "color picker failed: ".to_owned();
                let inner = error.to_string();
                s.append(inner.as_str());
                s
            },
        }
    }

    /// The picker error this one wraps, if any.
    pub fn source(&self) -> (r: Option<PickerError>)
        ensures
            r == match *self {
                FieldError::Picker(p) => Some(p),
                _ => None::<PickerError>,
            },
    {
        match self {
            FieldError::Picker(error) => Some(*error),
            _ => None,
        }
    }
}

} // verus!
