use rust_colorpicker::dialog::PickerEvent;
use rust_colorpicker::popup::{
    alpha_area, client_size, event_of, hex_field_length_accepted, hit_test, scaled, sv_area, Area, DragTarget, PopupAction, PopupSession,
};
use rust_colorpicker::Color;

#[test]
fn areas_include_their_left_and_top_edges_only() {
    let a = Area::new(16, 16, 314, 314);
    assert!(a.contains(16, 16));
    assert!(a.contains(329, 329));
    assert!(!a.contains(330, 20));
    assert!(!a.contains(20, 330));
    assert!(!a.contains(15, 20));
}

#[test]
fn hit_test_finds_the_strips() {
    assert_eq!(hit_test(true, 96, 20, 20), DragTarget::SaturationValue);
    assert_eq!(hit_test(true, 96, 350, 100), DragTarget::Hue);
    assert_eq!(hit_test(true, 96, 100, 350), DragTarget::Alpha);
    assert_eq!(hit_test(false, 96, 100, 350), DragTarget::Nothing);
    assert_eq!(hit_test(true, 96, 5, 5), DragTarget::Nothing);
}

#[test]
fn confirming_reports_the_current_color() {
    let start = Color::rgba(10, 20, 30, 40);
    let mut s = PopupSession::new(start, true, 96);
    assert_eq!(
        s.press(20, 20),
        PopupAction::Track { target: DragTarget::SaturationValue, x: 20, y: 20, capture: true }
    );
    assert_eq!(s.surface_tracked(Color::rgb(200, 100, 50)), PopupAction::Repaint(Color::rgba(200, 100, 50, 40)));
    assert_eq!(s.current(), Color::rgba(200, 100, 50, 40));
    assert_eq!(
        s.pointer_moved(25, 30),
        PopupAction::Track { target: DragTarget::SaturationValue, x: 25, y: 30, capture: false }
    );
    assert_eq!(s.release(25, 30), PopupAction::EndDrag);
    assert_eq!(s.pointer_moved(26, 31), PopupAction::Nothing);
    let end = s.release(230, 430);
    assert_eq!(end, PopupAction::Close(PickerEvent::Accepted(Color::rgba(200, 100, 50, 40))));
    assert!(s.is_done());
    assert_eq!(s.outcome(), Some(Color::rgba(200, 100, 50, 40)));
}

#[test]
fn every_other_exit_reports_the_incoming_color() {
    let start = Color::rgb(1, 2, 3);
    let mut s = PopupSession::new(start, true, 96);
    s.press(20, 20);
    s.surface_tracked(Color::rgb(9, 9, 9));
    assert_eq!(s.finish(false), PopupAction::Close(PickerEvent::Cancelled(start)));
    assert_eq!(s.outcome(), None);

    let mut c = PopupSession::new(start, true, 96);
    assert_eq!(c.close(), PopupAction::Close(PickerEvent::Cancelled(start)));
    assert_eq!(c.outcome(), None);

    let mut q = PopupSession::new(start, true, 96);
    q.press(20, 20);
    q.surface_tracked(Color::rgb(9, 9, 9));
    assert_eq!(q.quit(), PopupAction::Close(PickerEvent::Cancelled(start)));
    assert!(q.is_done());
    assert_eq!(q.outcome(), None);
    assert_eq!(q.quit(), PopupAction::Nothing);
}

#[test]
fn a_finished_session_ignores_everything() {
    let start = Color::rgb(1, 2, 3);
    let mut s = PopupSession::new(start, true, 96);
    assert_eq!(s.finish(true), PopupAction::Close(PickerEvent::Accepted(start)));
    assert_eq!(s.finish(false), PopupAction::Nothing);
    assert_eq!(s.close(), PopupAction::Nothing);
    assert_eq!(s.press(20, 20), PopupAction::Nothing);
    assert_eq!(s.release(20, 430), PopupAction::Nothing);
    assert_eq!(s.hex_edited("#FFFFFF"), PopupAction::Nothing);
    s.surface_tracked(Color::rgb(9, 9, 9));
    assert_eq!(s.outcome(), Some(start));
}

#[test]
fn old_preview_restores_the_incoming_color() {
    let start = Color::rgba(1, 2, 3, 4);
    let mut s = PopupSession::new(start, true, 96);
    assert_eq!(s.hex_edited("#AABBCCDD"), PopupAction::Recolor(Color::rgba(0xaa, 0xbb, 0xcc, 0xdd)));
    assert_eq!(s.release(20, 430), PopupAction::Restore(start));
    assert_eq!(s.current(), start);
    assert_eq!(s.release(200, 440), PopupAction::Nothing);
}

#[test]
fn alpha_is_preserved_when_not_edited() {
    let start = Color::rgba(1, 2, 3, 77);
    let mut s = PopupSession::new(start, false, 96);
    assert_eq!(s.press(100, 350), PopupAction::Nothing);
    s.alpha_tracked(5);
    assert_eq!(s.current().a, 77);
    assert_eq!(s.hex_edited("#10203040"), PopupAction::Recolor(Color::rgba(0x10, 0x20, 0x30, 77)));
    assert_eq!(s.hex_text(), "#102030");
    s.finish(true);
    assert_eq!(s.outcome(), Some(Color::rgba(0x10, 0x20, 0x30, 77)));
}

#[test]
fn alpha_strip_edits_alpha_while_dragged() {
    let mut s = PopupSession::new(Color::rgba(1, 2, 3, 77), true, 96);
    s.alpha_tracked(5);
    assert_eq!(s.current().a, 77);
    assert_eq!(
        s.press(100, 350),
        PopupAction::Track { target: DragTarget::Alpha, x: 100, y: 350, capture: true }
    );
    assert_eq!(s.alpha_tracked(5), PopupAction::Repaint(Color::rgba(1, 2, 3, 5)));
    assert_eq!(s.current(), Color::rgba(1, 2, 3, 5));
    assert_eq!(s.hex_text(), "#01020305");
}

#[test]
fn unparsable_hex_changes_nothing() {
    let start = Color::rgb(1, 2, 3);
    let mut s = PopupSession::new(start, true, 96);
    assert_eq!(s.hex_edited("#12"), PopupAction::Nothing);
    assert_eq!(s.hex_edited("zzzzzz"), PopupAction::Nothing);
    assert_eq!(s.current(), start);
}

#[test]
fn echoing_the_hex_field_is_harmless() {
    for show_alpha in [true, false] {
        let mut s = PopupSession::new(Color::rgba(0x12, 0xab, 0xff, 0x80), show_alpha, 96);
        let before = s.current();
        let text = s.hex_text();
        assert_eq!(s.hex_edited(&text), PopupAction::Recolor(before));
        assert_eq!(s.current(), before);
    }
}

#[test]
fn hex_field_text_is_trimmed() {
    let mut s = PopupSession::new(Color::rgb(1, 2, 3), true, 96);
    assert_eq!(s.hex_edited("  #abc\t\n"), PopupAction::Recolor(Color::rgb(0xaa, 0xbb, 0xcc)));
    assert_eq!(s.hex_edited("\u{3000}102030\u{a0}"), PopupAction::Recolor(Color::rgb(0x10, 0x20, 0x30)));
    assert_eq!(s.hex_edited("10 20 30"), PopupAction::Nothing);
    assert_eq!(s.current(), Color::rgb(0x10, 0x20, 0x30));
}

#[test]
fn hex_field_length_limit() {
    assert!(!hex_field_length_accepted(0));
    assert!(!hex_field_length_accepted(-1));
    assert!(hex_field_length_accepted(1));
    assert!(hex_field_length_accepted(16));
    assert!(!hex_field_length_accepted(17));
}

#[test]
fn layout_scales_with_dpi() {
    assert_eq!(client_size(96), (384, 480));
    assert_eq!(client_size(192), (768, 960));
    assert_eq!(client_size(144), (576, 720));
    assert_eq!(sv_area(96), Area::new(16, 16, 314, 314));
    assert_eq!(sv_area(120), Area::new(20, 20, 393, 393));
    assert_eq!(alpha_area(48), Area::new(8, 171, 176, 12));
    assert_eq!(scaled(0, 480), 0);
    assert_eq!(scaled(480, 480), 2400);
    assert_eq!(hit_test(true, 192, 40, 40), DragTarget::SaturationValue);
    assert_eq!(hit_test(true, 192, 700, 100), DragTarget::Hue);
    assert_eq!(hit_test(true, 96, 700, 100), DragTarget::Nothing);
}

#[test]
fn scaled_previews_are_hit_where_they_are_drawn() {
    let start = Color::rgb(1, 2, 3);
    let mut s = PopupSession::new(start, true, 192);
    assert_eq!(s.dpi(), 192);
    // At 192 DPI the current color's preview spans x 440..736, y 848..928.
    assert_eq!(s.release(300, 440), PopupAction::Nothing);
    assert_eq!(s.release(450, 860), PopupAction::Close(PickerEvent::Accepted(start)));
}

#[test]
fn events_are_previews_then_one_final_event() {
    let start = Color::rgba(1, 2, 3, 4);
    let mut s = PopupSession::new(start, true, 96);
    let mut events = Vec::new();
    let mut record = |a: PopupAction| {
        if let Some(e) = event_of(a) {
            events.push(e);
        }
    };
    record(s.press(20, 20));
    record(s.surface_tracked(Color::rgb(9, 8, 7)));
    record(s.release(20, 20));
    record(s.hex_edited("#11223344"));
    record(s.release(20, 430));
    record(s.close());
    record(s.finish(true));
    record(s.quit());
    record(s.hex_edited("#FFFFFF"));
    assert_eq!(
        events,
        vec![
            PickerEvent::Preview(Color::rgba(9, 8, 7, 4)),
            PickerEvent::Preview(Color::rgba(0x11, 0x22, 0x33, 0x44)),
            PickerEvent::Preview(start),
            PickerEvent::Cancelled(start),
        ]
    );
}
