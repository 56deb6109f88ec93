//! The decisions of the picker popup, apart from its window system calls.
//!
//! A [`PopupSession`] holds what the popup decides on: the incoming and the
//! current color, whether alpha is edited, which strip a drag holds and how
//! the session ended. The window layer feeds it pointer, key and text events
//! and carries out the [`PopupAction`] each one returns. The hue, saturation
//! and value of the surfaces are floating-point quantities and stay in the
//! window layer, which hands back the colors they produce.

use vstd::prelude::*;

use crate::color::{
    hex_rgb_text, hex_rgba_text, lemma_hex_rgb_round_trip, lemma_hex_rgba_round_trip,
    parse_hex_result, parsed_color, Color, ParseColorError,
};
use crate::text::{trim_whitespace, trimmed};
use crate::dialog::PickerEvent;

verus! {

/// An axis-aligned rectangle of the popup's client area.
#[derive(Clone, Copy, Debug, PartialEq, Eq, Structural)]
pub struct Area {
    pub x: i32,
    pub y: i32,
    pub width: i32,
    pub height: i32,
}

/// Whether the point lies in the area (left and top edges included).
pub open spec fn area_contains(a: Area, x: int, y: int) -> bool {
    x >= a.x && y >= a.y && x < a.x + a.width && y < a.y + a.height
}

/// The area's right and bottom edges are representable.
pub open spec fn area_fits(a: Area) -> bool {
    i32::MIN <= a.x + a.width <= i32::MAX && i32::MIN <= a.y + a.height <= i32::MAX
}

impl Area {
    #[must_use]
    pub fn new(x: i32, y: i32, width: i32, height: i32) -> (a: Self)
        ensures
            a == (Area { x, y, width, height }),
    {
        Area { x, y, width, height }
    }

    #[must_use]
    pub fn contains(self, x: i32, y: i32) -> (b: bool)
        requires
            area_fits(self),
        ensures
            b == area_contains(self, x as int, y as int),
    {
        x >= self.x && y >= self.y && x < self.x + self.width && y < self.y + self.height
    }
}

/// A DPI the popup can be drawn at.
pub open spec fn dpi_in_range(dpi: u32) -> bool {
    48 <= dpi <= 480
}

/// A length of the layout at 96 DPI, scaled to `dpi` and rounded.
pub open spec fn scaled_length(v: int, dpi: u32) -> int {
    (v * dpi + 48) / 96
}

/// An area of the 96-DPI layout scaled to `dpi`.
pub open spec fn scaled_layout(x: int, y: int, width: int, height: int, dpi: u32) -> Area {
    Area {
        x: scaled_length(x, dpi) as i32,
        y: scaled_length(y, dpi) as i32,
        width: scaled_length(width, dpi) as i32,
        height: scaled_length(height, dpi) as i32,
    }
}

/// A length of the 96-DPI layout, at most 480 pixels, scaled to `dpi`.
pub fn scaled(v: i32, dpi: u32) -> (r: i32)
    requires
        0 <= v <= 480,
        dpi_in_range(dpi),
    ensures
        r == scaled_length(v as int, dpi),
        0 <= r <= 2400,
{
    assert(0 <= v * dpi <= 480 * 480) by (nonlinear_arith)
        requires 0 <= v <= 480, 0 <= dpi <= 480;
    ((v as u32 * dpi + 48) / 96) as i32
}

fn scaled_area(x: i32, y: i32, width: i32, height: i32, dpi: u32) -> (a: Area)
    requires
        0 <= x <= 480,
        0 <= y <= 480,
        0 <= width <= 480,
        0 <= height <= 480,
        dpi_in_range(dpi),
    ensures
        a == scaled_layout(x as int, y as int, width as int, height as int, dpi),
        area_fits(a),
{
    Area::new(scaled(x, dpi), scaled(y, dpi), scaled(width, dpi), scaled(height, dpi))
}

/// The client area: 384 by 480 pixels at 96 DPI.
pub fn client_size(dpi: u32) -> (r: (i32, i32))
    requires
        dpi_in_range(dpi),
    ensures
        r == (scaled_length(384, dpi) as i32, scaled_length(480, dpi) as i32),
{
    (scaled(384, dpi), scaled(480, dpi))
}

/// An area holds its top-left pixel and its bottom-right pixel, and not the
/// pixels just left of it, above it, right of its last column or below its
/// last row.
pub proof fn lemma_area_edges(a: Area, x: int, y: int)
    requires
        a.width > 0,
        a.height > 0,
        a.y <= y < a.y + a.height,
        a.x <= x < a.x + a.width,
    ensures
        area_contains(a, a.x as int, a.y as int),
        area_contains(a, a.x + a.width - 1, a.y + a.height - 1),
        area_contains(a, x, y),
        !area_contains(a, a.x + a.width, y),
        !area_contains(a, a.x - 1, y),
        !area_contains(a, x, a.y + a.height),
        !area_contains(a, x, a.y - 1),
{
}

/// The saturation/value surface.
pub open spec fn sv_layout(dpi: u32) -> Area {
    scaled_layout(16, 16, 314, 314, dpi)
}

/// The vertical hue strip.
pub open spec fn hue_layout(dpi: u32) -> Area {
    scaled_layout(342, 16, 26, 314, dpi)
}

/// The horizontal alpha strip.
pub open spec fn alpha_layout(dpi: u32) -> Area {
    scaled_layout(16, 342, 352, 24, dpi)
}

/// The preview of the incoming color.
pub open spec fn old_preview_layout(dpi: u32) -> Area {
    scaled_layout(16, 424, 148, 40, dpi)
}

/// The preview of the current color.
pub open spec fn new_preview_layout(dpi: u32) -> Area {
    scaled_layout(220, 424, 148, 40, dpi)
}

pub fn sv_area(dpi: u32) -> (a: Area)
    requires
        dpi_in_range(dpi),
    ensures
        a == sv_layout(dpi),
        area_fits(a),
{
    scaled_area(16, 16, 314, 314, dpi)
}

pub fn hue_area(dpi: u32) -> (a: Area)
    requires
        dpi_in_range(dpi),
    ensures
        a == hue_layout(dpi),
        area_fits(a),
{
    scaled_area(342, 16, 26, 314, dpi)
}

pub fn alpha_area(dpi: u32) -> (a: Area)
    requires
        dpi_in_range(dpi),
    ensures
        a == alpha_layout(dpi),
        area_fits(a),
{
    scaled_area(16, 342, 352, 24, dpi)
}

pub fn old_preview_area(dpi: u32) -> (a: Area)
    requires
        dpi_in_range(dpi),
    ensures
        a == old_preview_layout(dpi),
        area_fits(a),
{
    scaled_area(16, 424, 148, 40, dpi)
}

pub fn new_preview_area(dpi: u32) -> (a: Area)
    requires
        dpi_in_range(dpi),
    ensures
        a == new_preview_layout(dpi),
        area_fits(a),
{
    scaled_area(220, 424, 148, 40, dpi)
}

/// At 96 DPI every length of the layout is its own.
pub proof fn lemma_layout_at_96_dpi(v: int)
    requires
        0 <= v,
    ensures
        scaled_length(v, 96) == v,
{
}

/// What a pointer drag adjusts.
#[derive(Clone, Copy, Debug, Default, PartialEq, Eq, Structural)]
pub enum DragTarget {
    #[default]
    Nothing,
    SaturationValue,
    Hue,
    Alpha,
}

/// The strip under a point; the alpha strip only counts while alpha is edited.
pub open spec fn drag_target_at(show_alpha: bool, dpi: u32, x: int, y: int) -> DragTarget {
    if area_contains(sv_layout(dpi), x, y) {
        DragTarget::SaturationValue
    } else if area_contains(hue_layout(dpi), x, y) {
        DragTarget::Hue
    } else if show_alpha && area_contains(alpha_layout(dpi), x, y) {
        DragTarget::Alpha
    } else {
        DragTarget::Nothing
    }
}

pub fn hit_test(show_alpha: bool, dpi: u32, x: i32, y: i32) -> (t: DragTarget)
    requires
        dpi_in_range(dpi),
    ensures
        t == drag_target_at(show_alpha, dpi, x as int, y as int),
{
    if sv_area(dpi).contains(x, y) {
        DragTarget::SaturationValue
    } else if hue_area(dpi).contains(x, y) {
        DragTarget::Hue
    } else if show_alpha && alpha_area(dpi).contains(x, y) {
        DragTarget::Alpha
    } else {
        DragTarget::Nothing
    }
}

/// Each length of the layout at `dpi` is the 96-DPI length times
/// `dpi / 96`, rounded to the nearest pixel (halves up).
pub proof fn lemma_scaled_length_is_nearest(v: int, dpi: u32)
    requires
        0 <= v,
        dpi_in_range(dpi),
    ensures
        96 * scaled_length(v, dpi) <= v * dpi + 48 < 96 * scaled_length(v, dpi) + 96,
{
    let r = (v * dpi + 48) / 96;
    assert(96 * r <= v * dpi + 48 < 96 * r + 96) by (nonlinear_arith)
        requires r == (v * dpi + 48) / 96, 0 <= v, 0 <= dpi;
}

/// The drawn layout at a DPI: the surface, hue and alpha strips are the
/// 96-DPI rectangles (16, 16, 314×314), (342, 16, 26×314) and
/// (16, 342, 352×24), each coordinate and size scaled to the DPI.
pub proof fn lemma_strips_drawn_at_dpi(dpi: u32)
    requires
        dpi_in_range(dpi),
    ensures
        sv_layout(dpi) == (Area {
            x: ((16 * dpi + 48) / 96) as i32,
            y: ((16 * dpi + 48) / 96) as i32,
            width: ((314 * dpi + 48) / 96) as i32,
            height: ((314 * dpi + 48) / 96) as i32,
        }),
        hue_layout(dpi) == (Area {
            x: ((342 * dpi + 48) / 96) as i32,
            y: ((16 * dpi + 48) / 96) as i32,
            width: ((26 * dpi + 48) / 96) as i32,
            height: ((314 * dpi + 48) / 96) as i32,
        }),
        alpha_layout(dpi) == (Area {
            x: ((16 * dpi + 48) / 96) as i32,
            y: ((342 * dpi + 48) / 96) as i32,
            width: ((352 * dpi + 48) / 96) as i32,
            height: ((24 * dpi + 48) / 96) as i32,
        }),
        new_preview_layout(dpi) == (Area {
            x: ((220 * dpi + 48) / 96) as i32,
            y: ((424 * dpi + 48) / 96) as i32,
            width: ((148 * dpi + 48) / 96) as i32,
            height: ((40 * dpi + 48) / 96) as i32,
        }),
        old_preview_layout(dpi) == (Area {
            x: ((16 * dpi + 48) / 96) as i32,
            y: ((424 * dpi + 48) / 96) as i32,
            width: ((148 * dpi + 48) / 96) as i32,
            height: ((40 * dpi + 48) / 96) as i32,
        }),
{
}

/// A press selects the strip drawn under it at the session's DPI: the
/// surface wherever the drawn surface is, else the hue strip where it is
/// drawn, else the alpha strip where it is drawn and alpha is edited, and
/// nothing elsewhere.
pub proof fn lemma_press_hits_drawn_strip(show_alpha: bool, dpi: u32, x: int, y: int)
    requires
        dpi_in_range(dpi),
    ensures
        (drag_target_at(show_alpha, dpi, x, y) == DragTarget::SaturationValue) == area_contains(
            sv_layout(dpi),
            x,
            y,
        ),
        (drag_target_at(show_alpha, dpi, x, y) == DragTarget::Hue) == (!area_contains(
            sv_layout(dpi),
            x,
            y,
        ) && area_contains(hue_layout(dpi), x, y)),
        (drag_target_at(show_alpha, dpi, x, y) == DragTarget::Alpha) == (!area_contains(
            sv_layout(dpi),
            x,
            y,
        ) && !area_contains(hue_layout(dpi), x, y) && show_alpha && area_contains(
            alpha_layout(dpi),
            x,
            y,
        )),
        !show_alpha ==> drag_target_at(show_alpha, dpi, x, y) != DragTarget::Alpha,
        (16 * dpi + 48) / 96 <= x < (16 * dpi + 48) / 96 + (314 * dpi + 48) / 96 && (16 * dpi
            + 48) / 96 <= y < (16 * dpi + 48) / 96 + (314 * dpi + 48) / 96 ==> drag_target_at(
            show_alpha,
            dpi,
            x,
            y,
        ) == DragTarget::SaturationValue,
{
    lemma_strips_drawn_at_dpi(dpi);
}

/// What the window layer does after an event.
#[derive(Clone, Copy, Debug, PartialEq, Eq, Structural)]
pub enum PopupAction {
    /// Nothing to do.
    Nothing,
    /// Work out the value that `target` takes at the point and hand the
    /// resulting color back; take the pointer capture first when `capture`.
    Track { target: DragTarget, x: i32, y: i32, capture: bool },
    /// Release the pointer capture.
    EndDrag,
    /// The color was set to this one: derive the surfaces from it, show its
    /// hex text and repaint.
    Restore(Color),
    /// The hex field now denotes this color: derive the surfaces from it and
    /// repaint, leaving the field's text as the user typed it.
    Recolor(Color),
    /// A drag produced this color: show its hex text and repaint.
    Repaint(Color),
    /// Close the popup; the event tells how the session ended.
    Close(PickerEvent),
}

/// The realtime event an action reports to the host, if any: a preview of
/// the new current color, or how the session ended.
pub open spec fn action_event(act: PopupAction) -> Option<PickerEvent> {
    match act {
        PopupAction::Restore(c) => Some(PickerEvent::Preview(c)),
        PopupAction::Recolor(c) => Some(PickerEvent::Preview(c)),
        PopupAction::Repaint(c) => Some(PickerEvent::Preview(c)),
        PopupAction::Close(e) => Some(e),
        _ => None,
    }
}

/// The realtime event of an action, as the window layer forwards it.
pub fn event_of(act: PopupAction) -> (e: Option<PickerEvent>)
    ensures
        e == action_event(act),
{
    match act {
        PopupAction::Restore(c) => Some(PickerEvent::Preview(c)),
        PopupAction::Recolor(c) => Some(PickerEvent::Preview(c)),
        PopupAction::Repaint(c) => Some(PickerEvent::Preview(c)),
        PopupAction::Close(e) => Some(e),
        _ => None,
    }
}

/// Whether an event reports how a session ended.
pub open spec fn is_final_event(e: Option<PickerEvent>) -> bool {
    e matches Some(PickerEvent::Accepted(_)) || e matches Some(PickerEvent::Cancelled(_))
}

/// The hex field's text is only read while it holds between 1 and 16 UTF-16
/// code units: an empty field or one holding more than the longest form
/// plus some white space is left alone.
pub open spec fn hex_length_accepted(units: int) -> bool {
    1 <= units <= 16
}

/// Whether the hex field's text, `units` UTF-16 code units long, is read.
pub fn hex_field_length_accepted(units: i32) -> (b: bool)
    ensures
        b == hex_length_accepted(units as int),
{
    units > 0 && units <= 16
}

/// The state of a popup session, as the contracts see it.
pub struct SessionState {
    pub initial: Color,
    pub current: Color,
    pub show_alpha: bool,
    pub dpi: u32,
    pub accepted: bool,
    pub done: bool,
    pub drag: DragTarget,
}

/// One picking session of the popup.
pub struct PopupSession {
    initial: Color,
    current: Color,
    show_alpha: bool,
    dpi: u32,
    accepted: bool,
    done: bool,
    drag: DragTarget,
}

impl View for PopupSession {
    type V = SessionState;

    closed spec fn view(&self) -> SessionState {
        SessionState {
            initial: self.initial,
            current: self.current,
            show_alpha: self.show_alpha,
            dpi: self.dpi,
            accepted: self.accepted,
            done: self.done,
            drag: self.drag,
        }
    }
}

/// What every session keeps: it is laid out at a DPI in range; only a
/// finished session is confirmed; the alpha strip is only dragged while alpha
/// is edited, and while it is not edited the current alpha is the incoming one.
pub open spec fn session_wf(s: SessionState) -> bool {
    &&& dpi_in_range(s.dpi)
    &&& (s.accepted ==> s.done)
    &&& (s.drag == DragTarget::Alpha ==> s.show_alpha)
    &&& (!s.show_alpha ==> s.current.a == s.initial.a)
}

/// The state unchanged but for the current color.
pub open spec fn with_current(s: SessionState, c: Color) -> SessionState {
    SessionState { current: c, ..s }
}

/// The state unchanged but for the drag.
pub open spec fn with_drag(s: SessionState, d: DragTarget) -> SessionState {
    SessionState { drag: d, ..s }
}

/// How a session ended, as the realtime event stream reports it: the
/// confirmed color, or else the incoming color for the host to restore.
pub open spec fn final_event(s: SessionState) -> PickerEvent {
    if s.accepted {
        PickerEvent::Accepted(s.current)
    } else {
        PickerEvent::Cancelled(s.initial)
    }
}

/// What every step of a session keeps of the event stream: a finished
/// session does nothing; the session ends exactly when the popup is closed,
/// and that close reports how it ended; any other event previews the new
/// current color of a session that goes on.
pub open spec fn event_step(before: SessionState, after: SessionState, act: PopupAction) -> bool {
    &&& (before.done ==> after == before && act == PopupAction::Nothing)
    &&& (!before.done && after.done) == (act is Close)
    &&& (act is Close ==> action_event(act) == Some(final_event(after)))
    &&& (!(act is Close) && action_event(act) is Some ==> action_event(act) == Some(
        PickerEvent::Preview(after.current),
    ) && !after.done)
}

/// The hex field's text: with alpha while alpha is edited.
pub open spec fn hex_field_text(s: SessionState) -> Seq<char> {
    if s.show_alpha {
        hex_rgba_text(s.current)
    } else {
        hex_rgb_text(s.current)
    }
}

/// A color with the red, green and blue of `rgb` and the given alpha.
pub open spec fn with_alpha(rgb: Color, a: u8) -> Color {
    Color { r: rgb.r, g: rgb.g, b: rgb.b, a }
}

impl PopupSession {
    #[verifier::type_invariant]
    spec fn wf(self) -> bool {
        session_wf(self@)
    }

    /// A session starting from `initial`, laid out at `dpi`, nothing
    /// dragged, not finished.
    pub fn new(initial: Color, show_alpha: bool, dpi: u32) -> (s: Self)
        requires
            dpi_in_range(dpi),
        ensures
            s@ == (SessionState {
                initial,
                current: initial,
                show_alpha,
                dpi,
                accepted: false,
                done: false,
                drag: DragTarget::Nothing,
            }),
    {
        PopupSession {
            initial,
            current: initial,
            show_alpha,
            dpi,
            accepted: false,
            done: false,
            drag: DragTarget::Nothing,
        }
    }

    pub fn initial(&self) -> (c: Color)
        ensures
            c == self@.initial,
    {
        self.initial
    }

    pub fn current(&self) -> (c: Color)
        ensures
            c == self@.current,
            !self@.show_alpha ==> c.a == self@.initial.a,
    {
        proof {
            use_type_invariant(self);
        }
        self.current
    }

    pub fn show_alpha(&self) -> (b: bool)
        ensures
            b == self@.show_alpha,
    {
        self.show_alpha
    }

    pub fn dpi(&self) -> (d: u32)
        ensures
            d == self@.dpi,
            dpi_in_range(d),
    {
        proof {
            use_type_invariant(self);
        }
        self.dpi
    }

    pub fn drag(&self) -> (d: DragTarget)
        ensures
            d == self@.drag,
    {
        self.drag
    }

    pub fn is_done(&self) -> (b: bool)
        ensures
            b == self@.done,
    {
        self.done
    }

    /// Ends the session, confirmed or not. A finished session stays as it
    /// is; otherwise the popup closes, reporting the confirmed color or,
    /// for any other exit, the incoming color.
    pub fn finish(&mut self, accepted: bool) -> (act: PopupAction)
        ensures
            event_step(old(self)@, final(self)@, act),
            old(self)@.done ==> final(self)@ == old(self)@ && act == PopupAction::Nothing,
            !old(self)@.done ==> final(self)@ == (SessionState {
                accepted,
                done: true,
                ..old(self)@
            }) && act == PopupAction::Close(final_event(final(self)@)),
    {
        if self.done {
            return PopupAction::Nothing;
        }
        proof {
            use_type_invariant(&*self);
        }
        self.done = true;
        self.accepted = accepted;
        if accepted {
            PopupAction::Close(PickerEvent::Accepted(self.current))
        } else {
            PopupAction::Close(PickerEvent::Cancelled(self.initial))
        }
    }

    /// The window was asked to close: an exit without confirmation.
    pub fn close(&mut self) -> (act: PopupAction)
        ensures
            event_step(old(self)@, final(self)@, act),
            old(self)@.done ==> final(self)@ == old(self)@ && act == PopupAction::Nothing,
            !old(self)@.done ==> final(self)@ == (SessionState {
                accepted: false,
                done: true,
                ..old(self)@
            }) && act == PopupAction::Close(PickerEvent::Cancelled(old(self)@.initial)),
    {
        self.finish(false)
    }

    /// The session ends otherwise than through the popup: the message loop
    /// ended or failed, or the window could not be set up. A finished
    /// session stays as it is; otherwise the session ends unconfirmed and
    /// reports the incoming color.
    pub fn quit(&mut self) -> (act: PopupAction)
        ensures
            event_step(old(self)@, final(self)@, act),
            old(self)@.done ==> final(self)@ == old(self)@ && act == PopupAction::Nothing,
            !old(self)@.done ==> final(self)@ == (SessionState { done: true, ..old(self)@ })
                && !final(self)@.accepted && act == PopupAction::Close(
                PickerEvent::Cancelled(old(self)@.initial),
            ),
    {
        if self.done {
            return PopupAction::Nothing;
        }
        proof {
            use_type_invariant(&*self);
        }
        self.done = true;
        PopupAction::Close(PickerEvent::Cancelled(self.initial))
    }

    /// Left button pressed: a press on a strip starts a drag there and
    /// tracks the point at once.
    pub fn press(&mut self, x: i32, y: i32) -> (act: PopupAction)
        ensures
            event_step(old(self)@, final(self)@, act),
            ({
                let t = drag_target_at(old(self)@.show_alpha, old(self)@.dpi, x as int, y as int);
                if old(self)@.done || t == DragTarget::Nothing {
                    final(self)@ == old(self)@ && act == PopupAction::Nothing
                } else {
                    final(self)@ == with_drag(old(self)@, t) && act == (PopupAction::Track {
                        target: t,
                        x,
                        y,
                        capture: true,
                    })
                }
            }),
    {
        if self.done {
            return PopupAction::Nothing;
        }
        proof {
            use_type_invariant(&*self);
        }
        let target = hit_test(self.show_alpha, self.dpi, x, y);
        if target == DragTarget::Nothing {
            PopupAction::Nothing
        } else {
            self.drag = target;
            PopupAction::Track { target, x, y, capture: true }
        }
    }

    /// Pointer moved: a running drag tracks the new point.
    pub fn pointer_moved(&mut self, x: i32, y: i32) -> (act: PopupAction)
        ensures
            event_step(old(self)@, final(self)@, act),
            final(self)@ == old(self)@,
            act == if old(self)@.done || old(self)@.drag == DragTarget::Nothing {
                PopupAction::Nothing
            } else {
                PopupAction::Track { target: old(self)@.drag, x, y, capture: false }
            },
    {
        if self.done || self.drag == DragTarget::Nothing {
            PopupAction::Nothing
        } else {
            PopupAction::Track { target: self.drag, x, y, capture: false }
        }
    }

    /// Left button released: ends a running drag; otherwise a release on the
    /// incoming color's preview restores that color and one on the current
    /// color's preview confirms it.
    pub fn release(&mut self, x: i32, y: i32) -> (act: PopupAction)
        ensures
            event_step(old(self)@, final(self)@, act),
            old(self)@.done ==> final(self)@ == old(self)@ && act == PopupAction::Nothing,
            !old(self)@.done && old(self)@.drag != DragTarget::Nothing ==> final(self)@
                == with_drag(old(self)@, DragTarget::Nothing) && act == PopupAction::EndDrag,
            !old(self)@.done && old(self)@.drag == DragTarget::Nothing && area_contains(
                old_preview_layout(old(self)@.dpi),
                x as int,
                y as int,
            ) ==> final(self)@ == with_current(old(self)@, old(self)@.initial) && act
                == PopupAction::Restore(old(self)@.initial),
            !old(self)@.done && old(self)@.drag == DragTarget::Nothing && !area_contains(
                old_preview_layout(old(self)@.dpi),
                x as int,
                y as int,
            ) && area_contains(new_preview_layout(old(self)@.dpi), x as int, y as int)
                ==> final(self)@ == (SessionState { accepted: true, done: true, ..old(self)@ })
                && act == PopupAction::Close(PickerEvent::Accepted(old(self)@.current)),
            !old(self)@.done && old(self)@.drag == DragTarget::Nothing && !area_contains(
                old_preview_layout(old(self)@.dpi),
                x as int,
                y as int,
            ) && !area_contains(new_preview_layout(old(self)@.dpi), x as int, y as int)
                ==> final(self)@ == old(self)@ && act == PopupAction::Nothing,
    {
        if self.done {
            return PopupAction::Nothing;
        }
        proof {
            use_type_invariant(&*self);
        }
        if self.drag != DragTarget::Nothing {
            self.drag = DragTarget::Nothing;
            PopupAction::EndDrag
        } else if old_preview_area(self.dpi).contains(x, y) {
            self.current = self.initial;
            PopupAction::Restore(self.initial)
        } else if new_preview_area(self.dpi).contains(x, y) {
            self.finish(true)
        } else {
            PopupAction::Nothing
        }
    }

    /// The saturation/value surface or the hue strip produced `rgb`: it
    /// becomes the current color, keeping the current alpha.
    pub fn surface_tracked(&mut self, rgb: Color) -> (act: PopupAction)
        ensures
            event_step(old(self)@, final(self)@, act),
            old(self)@.done ==> final(self)@ == old(self)@ && act == PopupAction::Nothing,
            !old(self)@.done ==> final(self)@ == with_current(
                old(self)@,
                with_alpha(rgb, old(self)@.current.a),
            ) && act == PopupAction::Repaint(final(self)@.current),
    {
        if self.done {
            return PopupAction::Nothing;
        }
        proof {
            use_type_invariant(&*self);
        }
        self.current = Color { r: rgb.r, g: rgb.g, b: rgb.b, a: self.current.a };
        PopupAction::Repaint(self.current)
    }

    /// The alpha strip produced `alpha`; it only counts while that strip is
    /// dragged.
    pub fn alpha_tracked(&mut self, alpha: u8) -> (act: PopupAction)
        ensures
            event_step(old(self)@, final(self)@, act),
            old(self)@.done || old(self)@.drag != DragTarget::Alpha ==> final(self)@ == old(self)@
                && act == PopupAction::Nothing,
            !old(self)@.done && old(self)@.drag == DragTarget::Alpha ==> final(self)@
                == with_current(old(self)@, with_alpha(old(self)@.current, alpha)) && act
                == PopupAction::Repaint(final(self)@.current),
    {
        if self.done || self.drag != DragTarget::Alpha {
            return PopupAction::Nothing;
        }
        proof {
            use_type_invariant(&*self);
        }
        self.current.a = alpha;
        PopupAction::Repaint(self.current)
    }

    /// The hex field was edited to `text`: the text without its leading and
    /// trailing white space is parsed, and a color it denotes becomes the
    /// current color; while alpha is not edited the current alpha is kept
    /// whatever the text says. A text that does not parse changes nothing.
    pub fn hex_edited(&mut self, text: &str) -> (act: PopupAction)
        ensures
            event_step(old(self)@, final(self)@, act),
            old(self)@.done || parsed_color(trimmed(text@)) is None ==> final(self)@ == old(
                self,
            )@ && act == PopupAction::Nothing,
            !old(self)@.done && parsed_color(trimmed(text@)) is Some ==> ({
                let c = parsed_color(trimmed(text@))->0;
                let n = if old(self)@.show_alpha {
                    c
                } else {
                    with_alpha(c, old(self)@.current.a)
                };
                final(self)@ == with_current(old(self)@, n) && act == PopupAction::Recolor(n)
            }),
    {
        if self.done {
            return PopupAction::Nothing;
        }
        proof {
            use_type_invariant(&*self);
        }
        match Color::parse_hex(trim_whitespace(text)) {
            Ok(c) => {
                let mut color = c;
                if !self.show_alpha {
                    color.a = self.current.a;
                }
                self.current = color;
                PopupAction::Recolor(color)
            },
            Err(ParseColorError) => PopupAction::Nothing,
        }
    }

    /// The text the hex field shows for the current color.
    pub fn hex_text(&self) -> (s: String)
        ensures
            s@ == hex_field_text(self@),
    {
        if self.show_alpha {
            self.current.to_hex_rgba()
        } else {
            self.current.to_hex_rgb()
        }
    }

    /// The session's result: the current color if it was confirmed.
    pub fn outcome(&self) -> (r: Option<Color>)
        ensures
            r == if self@.accepted {
                Some(self@.current)
            } else {
                None::<Color>
            },
            !self@.show_alpha ==> (r matches Some(c) ==> c.a == self@.initial.a),
    {
        proof {
            use_type_invariant(self);
        }
        if self.accepted {
            Some(self.current)
        } else {
            None
        }
    }
}

/// A finished step stays finished, unchanged, along any later steps.
proof fn lemma_done_stays(states: Seq<SessionState>, acts: Seq<PopupAction>, i: int, j: int)
    requires
        states.len() == acts.len() + 1,
        forall|k: int| 0 <= k < acts.len() ==> #[trigger] event_step(states[k], states[k + 1], acts[k]),
        0 <= i <= j < states.len(),
        states[i].done,
    ensures
        states[j] == states[i],
    decreases j - i,
{
    if i < j {
        lemma_done_stays(states, acts, i, j - 1);
        let k = j - 1;
        assert(event_step(states[k], states[k + 1], acts[k]));
    }
}

/// A run that has ended reported its end, by one of its steps.
proof fn lemma_end_reported(states: Seq<SessionState>, acts: Seq<PopupAction>, n: int)
    requires
        states.len() == acts.len() + 1,
        forall|k: int| 0 <= k < acts.len() ==> #[trigger] event_step(states[k], states[k + 1], acts[k]),
        !states[0].done,
        0 <= n < states.len(),
        states[n].done,
    ensures
        exists|i: int| 0 <= i < n && action_event(acts[i]) == Some(final_event(states[n])),
    decreases n,
{
    assert(n > 0);
    let k = n - 1;
    assert(event_step(states[k], states[k + 1], acts[k]));
    if states[n - 1].done {
        lemma_end_reported(states, acts, n - 1);
        let i = choose|i: int| 0 <= i < n - 1 && action_event(acts[i]) == Some(final_event(states[n - 1]));
        assert(states[n] == states[n - 1]);
        assert(action_event(acts[i]) == Some(final_event(states[n])));
    } else {
        assert(action_event(acts[n - 1]) == Some(final_event(states[n])));
    }
}

/// The realtime events of any run of a session come in order: previews of
/// the current color while the session goes on; once it ends, exactly one
/// event that reports how (the confirmed color, or the incoming color for
/// every other exit); and nothing after that.
pub proof fn lemma_event_order(states: Seq<SessionState>, acts: Seq<PopupAction>)
    requires
        states.len() == acts.len() + 1,
        !states[0].done,
        forall|k: int| 0 <= k < acts.len() ==> #[trigger] event_step(states[k], states[k + 1], acts[k]),
    ensures
        forall|i: int|
            0 <= i < acts.len() && !is_final_event(#[trigger] action_event(acts[i])) && action_event(
                acts[i],
            ) is Some ==> action_event(acts[i]) == Some(PickerEvent::Preview(states[i + 1].current)),
        forall|i: int, j: int|
            0 <= i < j < acts.len() && is_final_event(#[trigger] action_event(acts[i]))
                ==> #[trigger] action_event(acts[j]) is None,
        states.last().done ==> exists|i: int|
            0 <= i < acts.len() && action_event(acts[i]) == Some(final_event(states.last())),
        !states.last().done ==> forall|i: int|
            0 <= i < acts.len() ==> !is_final_event(#[trigger] action_event(acts[i])),
{
    assert forall|i: int|
        0 <= i < acts.len() && !is_final_event(#[trigger] action_event(acts[i])) && action_event(
            acts[i],
        ) is Some implies action_event(acts[i]) == Some(PickerEvent::Preview(states[i + 1].current)) by {
        assert(event_step(states[i], states[i + 1], acts[i]));
        if acts[i] is Close {
            assert(action_event(acts[i]) == Some(final_event(states[i + 1])));
        }
    }
    assert forall|i: int, j: int|
        0 <= i < j < acts.len() && is_final_event(#[trigger] action_event(acts[i])) implies #[trigger] action_event(acts[j]) is None by {
        assert(event_step(states[i], states[i + 1], acts[i]));
        assert(acts[i] is Close);
        lemma_done_stays(states, acts, i + 1, j);
        assert(event_step(states[j], states[j + 1], acts[j]));
    }
    if states.last().done {
        lemma_end_reported(states, acts, acts.len() as int);
    } else {
        assert forall|i: int| 0 <= i < acts.len() implies !is_final_event(#[trigger] action_event(acts[i])) by {
            assert(event_step(states[i], states[i + 1], acts[i]));
            if acts[i] is Close {
                lemma_done_stays(states, acts, i + 1, acts.len() as int);
            }
        }
    }
}

/// The hex field's own text, fed back as an edit, may be parsed and leaves
/// the current color exactly as it is: echoing the field is harmless.
pub proof fn lemma_hex_field_echo_is_stable(s: SessionState)
    requires
        session_wf(s),
    ensures
        parsed_color(hex_field_text(s)) is Some,
        (if s.show_alpha {
            parsed_color(hex_field_text(s))->0
        } else {
            with_alpha(parsed_color(hex_field_text(s))->0, s.current.a)
        }) == s.current,
{
    if s.show_alpha {
        lemma_hex_rgba_round_trip(s.current);
        assert(parse_hex_result(hex_field_text(s)) is Ok);
    } else {
        lemma_hex_rgb_round_trip(s.current);
        assert(parse_hex_result(hex_field_text(s)) is Ok);
    }
}

} // verus!
