//! The picker's configuration and its entry points.

use vstd::prelude::*;

use crate::color::Color;
use crate::style::{light_theme, PickerChrome, PickerFont, PickerLabels, PickerTheme};
use crate::text::{decimal_text, push_decimal};

verus! {

/// Realtime events of a live picking session.
///
/// A host can apply [`PickerEvent::Preview`] immediately to its in-memory UI.
/// If the user cancels, presses Escape, or closes the picker without
/// confirmation, [`PickerEvent::Cancelled`] carries the incoming color so the
/// host can restore it. [`PickerEvent::Accepted`] is the final committed color.
#[derive(Clone, Copy, Debug, PartialEq, Eq, Structural)]
pub enum PickerEvent {
    Preview(Color),
    Accepted(Color),
    Cancelled(Color),
}

/// The color an event carries.
pub open spec fn event_color(e: PickerEvent) -> Color {
    match e {
        PickerEvent::Preview(c) => c,
        PickerEvent::Accepted(c) => c,
        PickerEvent::Cancelled(c) => c,
    }
}

impl PickerEvent {
    #[must_use]
    pub fn color(self) -> (c: Color)
        ensures
            c == event_color(self),
    {
        match self {
            PickerEvent::Preview(color) => color,
            PickerEvent::Accepted(color) => color,
            PickerEvent::Cancelled(color) => color,
        }
    }
}

/// Everything a [`ColorPicker`] is configured with. Of these, the popup of
/// the Windows backend reads whether alpha is edited and the DPI its layout
/// is scaled to; the others are carried for hosts and backends that present
/// the picker themselves.
pub struct PickerSettings {
    pub show_alpha: bool,
    pub dpi: u32,
    pub theme: PickerTheme,
    pub chrome: PickerChrome,
    pub labels: PickerLabels,
    pub font: PickerFont,
    pub rtl: bool,
    pub corner_radius: i32,
}

/// Smallest and largest effective DPI a picker records.
pub open spec fn clamp_dpi(dpi: u32) -> u32 {
    if dpi < 48 {
        48
    } else if dpi > 480 {
        480
    } else {
        dpi
    }
}

/// Scale percentages are taken between 50 % and 500 %.
pub open spec fn clamp_percent(percent: u32) -> u32 {
    if percent < 50 {
        50
    } else if percent > 500 {
        500
    } else {
        percent
    }
}

/// The DPI that a scale percentage stands for (96 DPI is 100 %), rounded.
pub open spec fn dpi_for_percent(percent: u32) -> u32 {
    ((96 * clamp_percent(percent) + 50) / 100) as u32
}

/// The scale percentage of a DPI, rounded.
pub open spec fn percent_for_dpi(dpi: u32) -> u32 {
    ((dpi * 100 + 48) / 96) as u32
}

/// Corner radii are taken between 0 and 32 logical pixels.
pub open spec fn clamp_radius(radius: i32) -> i32 {
    if radius < 0 {
        0
    } else if radius > 32 {
        32
    } else {
        radius
    }
}

/// The settings of a freshly made picker: alpha edited, 96 DPI, the light
/// palette, native chrome, English labels, 14-pixel Segoe UI, left to right,
/// a corner radius of 10.
pub open spec fn is_default_settings(s: PickerSettings) -> bool {
    &&& s.show_alpha
    &&& s.dpi == 96
    &&& s.theme == light_theme()
    &&& s.chrome == PickerChrome::Native
    &&& s.labels.title@ == "Color"@
    &&& s.labels.hex@ == "Hex"@
    &&& s.labels.confirm@ == "OK"@
    &&& s.labels.cancel@ == "Cancel"@
    &&& s.font.family@ == "Segoe UI"@
    &&& s.font.regular_size == 14
    &&& s.font.button_size == 14
    &&& !s.rtl
    &&& s.corner_radius == 10
}

/// Stateful custom native color picker.
#[derive(Debug)]
pub struct ColorPicker {
    pub(crate) show_alpha: bool,
    pub(crate) dpi: u32,
    pub(crate) theme: PickerTheme,
    pub(crate) chrome: PickerChrome,
    pub(crate) labels: PickerLabels,
    pub(crate) font: PickerFont,
    pub(crate) rtl: bool,
    pub(crate) corner_radius: i32,
}

impl View for ColorPicker {
    type V = PickerSettings;

    closed spec fn view(&self) -> PickerSettings {
        PickerSettings {
            show_alpha: self.show_alpha,
            dpi: self.dpi,
            theme: self.theme,
            chrome: self.chrome,
            labels: self.labels,
            font: self.font,
            rtl: self.rtl,
            corner_radius: self.corner_radius,
        }
    }
}

impl ColorPicker {
    /// The DPI and the corner radius always lie in their ranges.
    #[verifier::type_invariant]
    spec fn in_range(self) -> bool {
        &&& 48 <= self.dpi <= 480
        &&& 0 <= self.corner_radius <= 32
    }
}

impl Clone for ColorPicker {
    fn clone(&self) -> (p: Self)
        ensures
            p@ == self@,
    {
        proof {
            use_type_invariant(self);
        }
        ColorPicker {
            show_alpha: self.show_alpha,
            dpi: self.dpi,
            theme: self.theme,
            chrome: self.chrome,
            labels: self.labels.clone(),
            font: self.font.clone(),
            rtl: self.rtl,
            corner_radius: self.corner_radius,
        }
    }
}

impl Default for ColorPicker {
    fn default() -> (p: Self)
        ensures
            is_default_settings(p@),
    {
        ColorPicker {
            show_alpha: true,
            dpi: 96,
            theme: PickerTheme::default(),
            chrome: PickerChrome::Native,
            labels: PickerLabels::default(),
            font: PickerFont::default(),
            rtl: false,
            corner_radius: 10,
        }
    }
}

impl ColorPicker {
    /// A picker with the default settings.
    #[must_use]
    pub fn new() -> (p: Self)
        ensures
            is_default_settings(p@),
    {
        Self::default()
    }

    /// Controls whether the picker exposes an alpha slider and `#RRGGBBAA`
    /// hex values. Defaults to `true`.
    ///
    /// When disabled, the alpha row is removed rather than leaving an empty
    /// disabled bar, and the incoming alpha component is preserved.
    pub fn set_show_alpha(&mut self, show_alpha: bool)
        ensures
            final(self)@ == (PickerSettings { show_alpha, ..old(self)@ }),
    {
        proof {
            use_type_invariant(&*self);
        }
        self.show_alpha = show_alpha;
    }

    #[must_use]
    pub fn show_alpha(&self) -> (b: bool)
        ensures
            b == self@.show_alpha,
    {
        self.show_alpha
    }

    /// Sets the effective DPI used to scale the picker popup's layout,
    /// clamped to 48..=480; `96` is 100%. It is an explicit input rather than
    /// a system query, so that applications with their own UI scaling can
    /// pass theirs and keep the picker in proportion with the host.
    pub fn set_dpi(&mut self, dpi: u32)
        ensures
            final(self)@ == (PickerSettings { dpi: clamp_dpi(dpi), ..old(self)@ }),
    {
        proof {
            use_type_invariant(&*self);
        }
        self.dpi = if dpi < 48 {
            48
        } else if dpi > 480 {
            480
        } else {
            dpi
        };
    }

    #[must_use]
    pub fn dpi(&self) -> (d: u32)
        ensures
            d == self@.dpi,
            48 <= d <= 480,
    {
        proof {
            use_type_invariant(self);
        }
        self.dpi
    }

    /// Convenience API for applications that store scale as a percentage,
    /// clamped to 50..=500.
    pub fn set_scale_percent(&mut self, percent: u32)
        ensures
            final(self)@ == (PickerSettings { dpi: dpi_for_percent(percent), ..old(self)@ }),
    {
        let percent = if percent < 50 {
            50
        } else if percent > 500 {
            500
        } else {
            percent
        };
        self.set_dpi((96 * percent + 50) / 100);
    }

    /// The current scale as a percentage of 96 DPI, rounded.
    #[must_use]
    pub fn scale_percent(&self) -> (p: u32)
        ensures
            p == percent_for_dpi(self@.dpi),
    {
        proof {
            use_type_invariant(self);
        }
        (self.dpi * 100 + 48) / 96
    }

    pub fn set_theme(&mut self, theme: PickerTheme)
        ensures
            final(self)@ == (PickerSettings { theme, ..old(self)@ }),
    {
        proof {
            use_type_invariant(&*self);
        }
        self.theme = theme;
    }

    #[must_use]
    pub fn theme(&self) -> (t: PickerTheme)
        ensures
            t == self@.theme,
    {
        self.theme
    }

    pub fn set_chrome(&mut self, chrome: PickerChrome)
        ensures
            final(self)@ == (PickerSettings { chrome, ..old(self)@ }),
    {
        proof {
            use_type_invariant(&*self);
        }
        self.chrome = chrome;
    }

    #[must_use]
    pub fn chrome(&self) -> (c: PickerChrome)
        ensures
            c == self@.chrome,
    {
        self.chrome
    }

    pub fn set_labels(&mut self, labels: PickerLabels)
        ensures
            final(self)@ == (PickerSettings { labels, ..old(self)@ }),
    {
        proof {
            use_type_invariant(&*self);
        }
        self.labels = labels;
    }

    #[must_use]
    pub fn labels(&self) -> (l: &PickerLabels)
        ensures
            *l == self@.labels,
    {
        &self.labels
    }

    pub fn set_font(&mut self, font: PickerFont)
        ensures
            final(self)@ == (PickerSettings { font, ..old(self)@ }),
    {
        proof {
            use_type_invariant(&*self);
        }
        self.font = font;
    }

    #[must_use]
    pub fn font(&self) -> (f: &PickerFont)
        ensures
            *f == self@.font,
    {
        &self.font
    }

    /// Records whether the host lays text out right to left, as Persian
    /// applications do. The popup of the Windows backend does not read it.
    pub fn set_rtl(&mut self, rtl: bool)
        ensures
            final(self)@ == (PickerSettings { rtl, ..old(self)@ }),
    {
        proof {
            use_type_invariant(&*self);
        }
        self.rtl = rtl;
    }

    #[must_use]
    pub fn rtl(&self) -> (b: bool)
        ensures
            b == self@.rtl,
    {
        self.rtl
    }

    /// Records a logical button/input corner radius at 96 DPI, clamped to
    /// 0..=32. The popup of the Windows backend does not read it.
    pub fn set_corner_radius(&mut self, radius: i32)
        ensures
            final(self)@ == (PickerSettings { corner_radius: clamp_radius(radius), ..old(self)@ }),
    {
        proof {
            use_type_invariant(&*self);
        }
        self.corner_radius = if radius < 0 {
            0
        } else if radius > 32 {
            32
        } else {
            radius
        };
    }

    #[must_use]
    pub fn corner_radius(&self) -> (r: i32)
        ensures
            r == self@.corner_radius,
            0 <= r <= 32,
    {
        proof {
            use_type_invariant(self);
        }
        self.corner_radius
    }
}

/// Why a picker could not be shown.
#[derive(Clone, Copy, Debug, PartialEq, Eq, Structural)]
pub enum PickerError {
    UnsupportedPlatform,
    Windows(u32),
    CallbackPanicked,
}

/// The message of a picker error.
pub open spec fn picker_error_text(e: PickerError) -> Seq<char> {
    match e {
        PickerError::UnsupportedPlatform => "no native color-picker backend is available on this platform"@,
        PickerError::Windows(code) => "Win32 color-picker error "@ + decimal_text(code as nat),
        PickerError::CallbackPanicked => "color-picker realtime callback panicked"@,
    }
}

impl PickerError {
    /// The message of this error.
    pub fn to_string(&self) -> (s: String)
        ensures
            s@ == picker_error_text(*self),
    {
        match self {
            PickerError::UnsupportedPlatform => {
                "no native color-picker backend is available on this platform".to_owned()
            },
            PickerError::Windows(code) => {
                let mut s = "Win32 color-picker error ".to_owned();
                push_decimal(&mut s, *code);
                s
            },
            PickerError::CallbackPanicked => "color-picker realtime callback panicked".to_owned(),
        }
    }
}

/// Setting a scale percentage and reading it back gives the clamped
/// percentage to within one: the DPI in between is rounded once each way.
pub proof fn lemma_scale_percent_round_trip(percent: u32)
    ensures
        48 <= dpi_for_percent(percent) <= 480,
        clamp_dpi(dpi_for_percent(percent)) == dpi_for_percent(percent),
        percent_for_dpi(dpi_for_percent(percent)) <= clamp_percent(percent) + 1,
        clamp_percent(percent) <= percent_for_dpi(dpi_for_percent(percent)) + 1,
{
    let p = clamp_percent(percent) as int;
    let d = (96 * p + 50) / 100;
    assert(48 <= d <= 480) by (nonlinear_arith)
        requires 50 <= p <= 500, d == (96 * p + 50) / 100;
    let s = (d * 100 + 48) / 96;
    assert(s <= p + 1 && p <= s + 1) by (nonlinear_arith)
        requires 50 <= p <= 500, d == (96 * p + 50) / 100, s == (d * 100 + 48) / 96;
}

/// Clamping a corner radius leaves a radius in 0..=32 as it is and moves any
/// other to the nearer end.
pub proof fn lemma_radius_clamp(radius: i32)
    ensures
        0 <= radius <= 32 ==> clamp_radius(radius) == radius,
        radius < 0 ==> clamp_radius(radius) == 0,
        radius > 32 ==> clamp_radius(radius) == 32,
{
}

/// Clamping a DPI leaves a DPI in 48..=480 as it is and moves any other to
/// the nearer end.
pub proof fn lemma_dpi_clamp(dpi: u32)
    ensures
        48 <= dpi <= 480 ==> clamp_dpi(dpi) == dpi,
        dpi < 48 ==> clamp_dpi(dpi) == 48,
        dpi > 480 ==> clamp_dpi(dpi) == 480,
{
}

/// Clamping a scale percentage leaves one in 50..=500 as it is and moves any
/// other to the nearer end.
pub proof fn lemma_percent_clamp(percent: u32)
    ensures
        50 <= percent <= 500 ==> clamp_percent(percent) == percent,
        percent < 50 ==> clamp_percent(percent) == 50,
        percent > 500 ==> clamp_percent(percent) == 500,
{
}

/// A scale percentage maps to the DPI that is that share of 96, rounded to
/// the nearest DPI: within half a DPI of `96 * p / 100`.
pub proof fn lemma_dpi_for_percent_is_nearest(percent: u32)
    ensures
        ({
            let p = clamp_percent(percent) as int;
            let d = dpi_for_percent(percent) as int;
            100 * d <= 96 * p + 50 && 96 * p + 50 < 100 * d + 100
        }),
{
    let p = clamp_percent(percent) as int;
    let d = (96 * p + 50) / 100;
    assert(100 * d <= 96 * p + 50 && 96 * p + 50 < 100 * d + 100) by (nonlinear_arith)
        requires 50 <= p <= 500, d == (96 * p + 50) / 100;
}

/// A DPI reads back as the percentage of 96 it is, rounded to the nearest
/// percent: within half a percent of `100 * dpi / 96`.
pub proof fn lemma_percent_for_dpi_is_nearest(dpi: u32)
    requires
        dpi <= 480,
    ensures
        ({
            let p = percent_for_dpi(dpi) as int;
            96 * p <= 100 * dpi + 48 && 100 * dpi + 48 < 96 * p + 96
        }),
{
    let d = dpi as int;
    let p = (d * 100 + 48) / 96;
    assert(96 * p <= 100 * d + 48 && 100 * d + 48 < 96 * p + 96) by (nonlinear_arith)
        requires 0 <= d <= 480, p == (d * 100 + 48) / 96;
}

} // verus!
