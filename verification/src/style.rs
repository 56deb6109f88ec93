//! Appearance settings of the picker: window chrome, palette, labels, font.

use vstd::prelude::*;

use crate::color::Color;

verus! {

/// Top-level window chrome a picker is configured with.
#[derive(Clone, Copy, Debug, Default, PartialEq, Eq, Structural)]
pub enum PickerChrome {
    /// A normal tool window with the native caption and close button.
    #[default]
    Native,
    /// A frameless popup. Confirmation/cancellation are provided by the
    /// picker's own Enter/Escape handling.
    Borderless,
}

/// A palette a picker is configured with.
///
/// Applications can map their existing palette directly into this structure
/// to present the picker as part of the host application. The popup of the
/// Windows backend is drawn in fixed colors and does not read it.
#[derive(Clone, Copy, Debug, PartialEq, Eq, Structural)]
pub struct PickerTheme {
    pub background: Color,
    pub surface: Color,
    pub surface_alt: Color,
    pub text: Color,
    pub muted: Color,
    pub border: Color,
    pub accent: Color,
    pub accent_text: Color,
    pub checker_light: Color,
    pub checker_dark: Color,
}

/// An opaque color in specifications.
pub open spec fn opaque(r: u8, g: u8, b: u8) -> Color {
    Color { r, g, b, a: 255 }
}

/// The neutral light palette.
pub open spec fn light_theme() -> PickerTheme {
    PickerTheme {
        background: opaque(231, 233, 236),
        surface: opaque(250, 250, 250),
        surface_alt: opaque(241, 243, 246),
        text: opaque(27, 31, 36),
        muted: opaque(91, 98, 107),
        border: opaque(211, 214, 219),
        accent: opaque(230, 181, 43),
        accent_text: opaque(29, 25, 12),
        checker_light: opaque(245, 246, 248),
        checker_dark: opaque(220, 222, 226),
    }
}

/// The neutral dark palette.
pub open spec fn dark_theme() -> PickerTheme {
    PickerTheme {
        background: opaque(30, 31, 33),
        surface: opaque(43, 45, 48),
        surface_alt: opaque(53, 56, 60),
        text: opaque(240, 241, 243),
        muted: opaque(176, 183, 192),
        border: opaque(70, 70, 70),
        accent: opaque(248, 211, 88),
        accent_text: opaque(24, 24, 24),
        checker_light: opaque(70, 72, 76),
        checker_dark: opaque(52, 54, 58),
    }
}

/// Perceived luminance of a color, scaled by 1000 (weights 299, 587, 114).
pub open spec fn weighted_luminance(c: Color) -> int {
    c.r * 299 + c.g * 587 + c.b * 114
}

/// A palette counts as dark when its background's weighted luminance is
/// below half of the full scale.
pub open spec fn theme_is_dark(t: PickerTheme) -> bool {
    weighted_luminance(t.background) < 128_000
}

impl PickerTheme {
    /// Neutral light palette.
    #[must_use]
    pub fn light() -> (t: Self)
        ensures
            t == light_theme(),
    {
        PickerTheme {
            background: Color::rgb(231, 233, 236),
            surface: Color::rgb(250, 250, 250),
            surface_alt: Color::rgb(241, 243, 246),
            text: Color::rgb(27, 31, 36),
            muted: Color::rgb(91, 98, 107),
            border: Color::rgb(211, 214, 219),
            accent: Color::rgb(230, 181, 43),
            accent_text: Color::rgb(29, 25, 12),
            checker_light: Color::rgb(245, 246, 248),
            checker_dark: Color::rgb(220, 222, 226),
        }
    }

    /// Neutral dark palette.
    #[must_use]
    pub fn dark() -> (t: Self)
        ensures
            t == dark_theme(),
    {
        PickerTheme {
            background: Color::rgb(30, 31, 33),
            surface: Color::rgb(43, 45, 48),
            surface_alt: Color::rgb(53, 56, 60),
            text: Color::rgb(240, 241, 243),
            muted: Color::rgb(176, 183, 192),
            border: Color::rgb(70, 70, 70),
            accent: Color::rgb(248, 211, 88),
            accent_text: Color::rgb(24, 24, 24),
            checker_light: Color::rgb(70, 72, 76),
            checker_dark: Color::rgb(52, 54, 58),
        }
    }

    /// Binary light/dark decision from a fast perceived-luminance approximation.
    #[must_use]
    pub fn is_dark(self) -> (d: bool)
        ensures
            d == theme_is_dark(self),
    {
        let weighted = self.background.r as u32 * 299 + self.background.g as u32 * 587
            + self.background.b as u32 * 114;
        weighted < 128_000
    }
}

impl Default for PickerTheme {
    fn default() -> (t: Self)
        ensures
            t == light_theme(),
    {
        Self::light()
    }
}

/// Texts a picker is configured with. The popup of the Windows backend shows
/// fixed texts and does not read them.
#[derive(Debug, PartialEq, Eq)]
pub struct PickerLabels {
    pub title: String,
    pub hex: String,
    pub confirm: String,
    pub cancel: String,
}

impl Clone for PickerLabels {
    fn clone(&self) -> (l: Self)
        ensures
            l == *self,
    {
        PickerLabels {
            title: self.title.clone(),
            hex: self.hex.clone(),
            confirm: self.confirm.clone(),
            cancel: self.cancel.clone(),
        }
    }
}

impl PickerLabels {
    #[must_use]
    pub fn english() -> (l: Self)
        ensures
            l.title@ == "Color"@,
            l.hex@ == "Hex"@,
            l.confirm@ == "OK"@,
            l.cancel@ == "Cancel"@,
    {
        PickerLabels {
            title: "Color".to_owned(),
            hex: "Hex".to_owned(),
            confirm: "OK".to_owned(),
            cancel: "Cancel".to_owned(),
        }
    }

    #[must_use]
    pub fn persian() -> (l: Self)
        ensures
            l.title@ == "انتخاب رنگ"@,
            l.hex@ == "هگز"@,
            l.confirm@ == "تأیید"@,
            l.cancel@ == "انصراف"@,
    {
        PickerLabels {
            title: "انتخاب رنگ".to_owned(),
            hex: "هگز".to_owned(),
            confirm: "تأیید".to_owned(),
            cancel: "انصراف".to_owned(),
        }
    }
}

impl Default for PickerLabels {
    fn default() -> (l: Self)
        ensures
            l.title@ == "Color"@,
            l.hex@ == "Hex"@,
            l.confirm@ == "OK"@,
            l.cancel@ == "Cancel"@,
    {
        Self::english()
    }
}

/// Font family and logical pixel sizes at 96 DPI a picker is configured
/// with. A host that loads a private font resource can pass that family name
/// here. The popup of the Windows backend uses the system's default GUI font
/// and does not read it.
#[derive(Debug, PartialEq, Eq)]
pub struct PickerFont {
    pub family: String,
    pub regular_size: i32,
    pub button_size: i32,
}

/// The larger of a requested font size and 8, the smallest size kept.
pub open spec fn font_size_at_least_8(size: i32) -> i32 {
    if size < 8 {
        8
    } else {
        size
    }
}

impl Clone for PickerFont {
    fn clone(&self) -> (f: Self)
        ensures
            f == *self,
    {
        PickerFont {
            family: self.family.clone(),
            regular_size: self.regular_size,
            button_size: self.button_size,
        }
    }
}

impl PickerFont {
    /// A font description; sizes below 8 are raised to 8.
    #[must_use]
    pub fn new(family: &str, regular_size: i32, button_size: i32) -> (f: Self)
        ensures
            f.family@ == family@,
            f.regular_size == font_size_at_least_8(regular_size),
            f.button_size == font_size_at_least_8(button_size),
    {
        PickerFont {
            family: family.to_owned(),
            regular_size: if regular_size < 8 {
                8
            } else {
                regular_size
            },
            button_size: if button_size < 8 {
                8
            } else {
                button_size
            },
        }
    }
}

impl Default for PickerFont {
    fn default() -> (f: Self)
        ensures
            f.family@ == "Segoe UI"@,
            f.regular_size == 14,
            f.button_size == 14,
    {
        Self::new("Segoe UI", 14, 14)
    }
}

/// A palette is dark exactly when the Rec. 601 luma of its background,
/// 0.299 R + 0.587 G + 0.114 B, lies below 128 on the 0..255 scale.
pub proof fn lemma_darkness_rule(t: PickerTheme)
    ensures
        theme_is_dark(t) == (299 * (t.background.r as int) + 587 * (t.background.g as int) + 114
            * (t.background.b as int) < 128_000),
        !theme_is_dark(light_theme()),
        theme_is_dark(dark_theme()),
{
}

/// Red weighs more than blue in the darkness decision: a pure red background
/// is 255 × (299 − 114) above a pure blue one.
pub proof fn lemma_red_outweighs_blue()
    ensures
        weighted_luminance(opaque(255, 0, 0)) - weighted_luminance(opaque(0, 0, 255)) == 255 * (
        299 - 114),
        weighted_luminance(opaque(0, 255, 0)) == 255 * 587,
        weighted_luminance(opaque(255, 255, 255)) == 255_000,
{
}

/// A requested font size of 8 or more is kept; a smaller one becomes 8.
pub proof fn lemma_font_size_floor(size: i32)
    ensures
        size >= 8 ==> font_size_at_least_8(size) == size,
        size < 8 ==> font_size_at_least_8(size) == 8,
{
}

} // verus!
