//! Tests of the frame wrapper and the button widget.

use kas::event::{Event, Handler, Manager, PressSource, Response, WidgetId};
use kas::geom::{Coord, Rect, Size};
use kas::layout::{AlignHints, AxisInfo, Layout};
use kas::widget::button::Button;
use kas::widget::frame::Frame;
use kas::widget::label::{Label, TextMetrics};
use kas::widget::view::FrameParams;

fn metrics() -> TextMetrics {
    TextMetrics::default_metrics()
}

#[test]
fn frame_adds_fixed_extent() {
    let label = Label::new(metrics(), "hi".to_string());
    let mut f = Frame::new(FrameParams::default_params(), label);
    let wr = f.size_rules(AxisInfo::new(false, None));
    let hr = f.size_rules(AxisInfo::new(true, Some(wr.ideal)));
    // Two bytes at 8 units each, plus 2 + 2 of frame and 1 + 1 inner.
    assert_eq!(wr.ideal, 16 + 6);
    assert_eq!(hr.ideal, 18 + 6);
}

#[test]
fn frame_insets_child_rect() {
    let label = Label::new(metrics(), "hi".to_string());
    let mut f = Frame::new(FrameParams::default_params(), label);
    let _ = f.size_rules(AxisInfo::new(false, None));
    let _ = f.size_rules(AxisInfo::new(true, Some(100)));
    f.set_rect(
        Rect { pos: Coord { x: 10, y: 10 }, size: Size { w: 100, h: 50 } },
        AlignHints::none(),
    );
    let inner = f.child.rect();
    assert_eq!(inner.pos, Coord { x: 13, y: 13 });
    assert_eq!(inner.size, Size { w: 94, h: 44 });
}

#[test]
fn frame_hit_test_prefers_child() {
    let label = Label::new(metrics(), "hi".to_string());
    let mut f = Frame::new(FrameParams::default_params(), label);
    f.core.id = WidgetId(1);
    f.child.core.id = WidgetId(2);
    let _ = f.size_rules(AxisInfo::new(false, None));
    let _ = f.size_rules(AxisInfo::new(true, Some(100)));
    f.set_rect(
        Rect { pos: Coord { x: 0, y: 0 }, size: Size { w: 100, h: 50 } },
        AlignHints::none(),
    );
    assert_eq!(f.find_id(Coord { x: 20, y: 20 }), Some(WidgetId(2)));
    assert_eq!(f.find_id(Coord { x: 1, y: 1 }), Some(WidgetId(1)));
    assert_eq!(f.find_id(Coord { x: 200, y: 0 }), None);
}

fn button_at_origin() -> Button<u8> {
    let mut b = Button::new(metrics(), "ok".to_string(), 7u8);
    b.set_rect(
        Rect { pos: Coord { x: 0, y: 0 }, size: Size { w: 40, h: 20 } },
        AlignHints::none(),
    );
    b
}

#[test]
fn click_emits_message() {
    let mut b = button_at_origin();
    let mut mgr = Manager::new();
    let src = PressSource::Mouse(0);
    let inside = Coord { x: 5, y: 5 };
    let r = b.event(&mut mgr, b.core.id, Event::PressStart { source: src, coord: inside });
    assert_eq!(r, Response::Nothing);
    let r = b.event(&mut mgr, b.core.id, Event::PressEnd { source: src, coord: inside });
    assert_eq!(r, Response::Msg(7));
    // The grab was released with the press.
    assert_eq!(mgr.grab_target(src), None);
}

#[test]
fn release_outside_cancels_click() {
    let mut b = button_at_origin();
    let mut mgr = Manager::new();
    let src = PressSource::Mouse(0);
    let r = b.event(&mut mgr, b.core.id, Event::PressStart { source: src, coord: Coord { x: 5, y: 5 } });
    assert_eq!(r, Response::Nothing);
    let r = b.event(
        &mut mgr,
        b.core.id,
        Event::PressEnd { source: src, coord: Coord { x: 500, y: 5 } },
    );
    assert_eq!(r, Response::Nothing);
    assert_eq!(mgr.grab_target(src), None);
}

#[test]
fn button_respects_existing_grab() {
    let mut b = button_at_origin();
    let mut mgr = Manager::new();
    let src = PressSource::Mouse(0);
    // Another widget already holds the source.
    assert!(mgr.request_grab(WidgetId(99), src));
    let inside = Coord { x: 5, y: 5 };
    let r = b.event(&mut mgr, b.core.id, Event::PressStart { source: src, coord: inside });
    assert_eq!(r, Response::Nothing);
    // Without its own press, the button never emits on release.
    let r = b.event(&mut mgr, b.core.id, Event::PressEnd { source: src, coord: inside });
    assert_eq!(r, Response::Nothing);
    assert_eq!(mgr.grab_target(src), Some(WidgetId(99)));
}
