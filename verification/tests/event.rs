//! Tests of the event session: press grabs, actions, and the drag
//! handle's state machine.

use kas::event::{Event, Handler, Manager, PressSource, Response, UpdateHandle, WidgetId};
use kas::widget::view::{SharedValue, SingleData, SingleDataMut};
use kas::geom::{Coord, Rect, Size};
use kas::layout::{AlignHints, Layout};
use kas::toolkit::TkAction;
use kas::widget::drag::DragHandle;

#[test]
fn grab_is_exclusive_per_source() {
    // Two concurrent press starts with the same source on different
    // widgets: only the first succeeds in grabbing.
    let mut mgr = Manager::new();
    let source = PressSource::Mouse(0);
    assert!(mgr.request_grab(WidgetId(1), source));
    assert!(!mgr.request_grab(WidgetId(2), source));
    assert_eq!(mgr.grab_target(source), Some(WidgetId(1)));
}

#[test]
fn grabs_on_distinct_sources_coexist() {
    let mut mgr = Manager::new();
    assert!(mgr.request_grab(WidgetId(1), PressSource::Mouse(0)));
    assert!(mgr.request_grab(WidgetId(2), PressSource::Touch(7)));
    assert_eq!(mgr.grab_target(PressSource::Mouse(0)), Some(WidgetId(1)));
    assert_eq!(mgr.grab_target(PressSource::Touch(7)), Some(WidgetId(2)));
}

#[test]
fn end_grab_releases_only_its_source() {
    let mut mgr = Manager::new();
    let a = PressSource::Mouse(0);
    let b = PressSource::Touch(3);
    assert!(mgr.request_grab(WidgetId(1), a));
    assert!(mgr.request_grab(WidgetId(2), b));
    mgr.end_grab(a);
    assert_eq!(mgr.grab_target(a), None);
    assert_eq!(mgr.grab_target(b), Some(WidgetId(2)));
    // The source can be grabbed again after release.
    assert!(mgr.request_grab(WidgetId(9), a));
}

#[test]
fn press_events_route_to_grab_holder() {
    // While grabbed, moves and ends carrying the grabbed source are
    // delivered to the holder; press starts and other sources pass
    // through generic handling.
    let mut mgr = Manager::new();
    let src = PressSource::Mouse(0);
    assert!(mgr.request_grab(WidgetId(5), src));
    let at = Coord { x: 1, y: 1 };
    assert_eq!(
        mgr.press_target(&Event::PressMove { source: src, coord: at }),
        Some(WidgetId(5))
    );
    assert_eq!(
        mgr.press_target(&Event::PressEnd { source: src, coord: at }),
        Some(WidgetId(5))
    );
    assert_eq!(mgr.press_target(&Event::PressStart { source: src, coord: at }), None);
    assert_eq!(
        mgr.press_target(&Event::PressMove { source: PressSource::Touch(1), coord: at }),
        None
    );
}

#[test]
fn shared_value_reads_and_writes() {
    let mut v = SharedValue { value: "old".to_string(), handle: UpdateHandle(9) };
    assert_eq!(v.get_cloned(), "old");
    assert_eq!(SingleData::update_handle(&v), Some(UpdateHandle(9)));
    let h = v.set("new".to_string());
    assert_eq!(h, UpdateHandle(9));
    assert_eq!(v.get_cloned(), "new");
}

#[test]
fn actions_collapse_to_most_severe() {
    assert_eq!(TkAction::Nothing.max_with(TkAction::Redraw), TkAction::Redraw);
    assert_eq!(TkAction::Close.max_with(TkAction::Redraw), TkAction::Close);
    assert_eq!(
        TkAction::Reconfigure.max_with(TkAction::CloseAll),
        TkAction::CloseAll
    );
    assert_eq!(TkAction::Redraw.max_with(TkAction::Redraw), TkAction::Redraw);
}

#[test]
fn manager_accumulates_one_action_per_turn() {
    let mut mgr = Manager::new();
    mgr.send_action(TkAction::Redraw);
    mgr.send_action(TkAction::Reconfigure);
    mgr.send_action(TkAction::Redraw);
    assert_eq!(mgr.take_action(), TkAction::Reconfigure);
    assert_eq!(mgr.take_action(), TkAction::Nothing);
}

fn handle_on_track(track_w: u32, track_h: u32, handle_w: u32, handle_h: u32) -> DragHandle {
    let mut h = DragHandle::new();
    h.set_rect(
        Rect { pos: Coord { x: 0, y: 0 }, size: Size { w: track_w, h: track_h } },
        AlignHints::none(),
    );
    let _ = h.set_size_and_offset(Size { w: handle_w, h: handle_h }, Coord { x: 0, y: 0 });
    h
}

#[test]
fn set_offset_clamps_into_range() {
    let mut h = handle_on_track(100, 10, 20, 10);
    // Offsets always land in [0, track - handle], componentwise.
    let (o, moved) = h.set_offset(Coord { x: 150, y: 5 });
    assert_eq!(o, Coord { x: 80, y: 0 });
    assert!(moved);
    let (o, _) = h.set_offset(Coord { x: -30, y: -1 });
    assert_eq!(o, Coord { x: 0, y: 0 });
    let (o, moved) = h.set_offset(Coord { x: 40, y: 0 });
    assert_eq!(o, Coord { x: 40, y: 0 });
    assert!(moved);
    assert_eq!(h.offset(), Coord { x: 40, y: 0 });
    assert_eq!(h.max_offset(), Coord { x: 80, y: 0 });
}

#[test]
fn press_on_track_centres_handle() {
    let mut h = handle_on_track(100, 10, 20, 10);
    let mut mgr = Manager::new();
    let o = h.handle_press_on_track(&mut mgr, PressSource::Mouse(0), Coord { x: 60, y: 5 });
    // The handle centre lands on the press: offset 60 - 10 = 50.
    assert_eq!(o, Coord { x: 50, y: 0 });
    assert_eq!(mgr.grab_target(PressSource::Mouse(0)), Some(h.core.id));
}

#[test]
fn drag_moves_handle_and_reports_offset() {
    let mut h = handle_on_track(100, 10, 20, 10);
    let mut mgr = Manager::new();
    let id = h.core.id;
    let src = PressSource::Mouse(0);

    // Press on the handle at x = 5 (handle at offset 0).
    let r = h.event(&mut mgr, id, Event::PressStart { source: src, coord: Coord { x: 5, y: 5 } });
    assert_eq!(r, Response::Nothing);
    assert_eq!(mgr.grab_target(src), Some(id));

    // Drag to x = 45: the handle follows, keeping the grip point.
    let r = h.event(&mut mgr, id, Event::PressMove { source: src, coord: Coord { x: 45, y: 5 } });
    assert_eq!(r, Response::Msg(Coord { x: 40, y: 0 }));
    assert_eq!(h.offset(), Coord { x: 40, y: 0 });

    // Moving with a different press source does nothing.
    let other = PressSource::Touch(4);
    let r = h.event(
        &mut mgr,
        id,
        Event::PressMove { source: other, coord: Coord { x: 90, y: 5 } },
    );
    assert_eq!(r, Response::Nothing);
    assert_eq!(h.offset(), Coord { x: 40, y: 0 });

    // Releasing the matching press ends the grab.
    let r = h.event(&mut mgr, id, Event::PressEnd { source: src, coord: Coord { x: 45, y: 5 } });
    assert_eq!(r, Response::Nothing);
    assert_eq!(mgr.grab_target(src), None);
}

#[test]
fn second_press_start_is_rejected() {
    let mut a = handle_on_track(100, 10, 20, 10);
    let mut b = handle_on_track(100, 10, 20, 10);
    a.core.id = WidgetId(1);
    b.core.id = WidgetId(2);
    let mut mgr = Manager::new();
    let src = PressSource::Mouse(0);

    let r = a.event(&mut mgr, WidgetId(1), Event::PressStart { source: src, coord: Coord { x: 5, y: 5 } });
    assert_eq!(r, Response::Nothing);
    assert_eq!(mgr.grab_target(src), Some(WidgetId(1)));

    // A concurrent press start with the same source on another widget
    // observes a rejected grab request: the first holder keeps it.
    let r = b.event(&mut mgr, WidgetId(2), Event::PressStart { source: src, coord: Coord { x: 8, y: 5 } });
    assert_eq!(r, Response::Nothing);
    assert_eq!(mgr.grab_target(src), Some(WidgetId(1)));

    // The rejected widget does not react to moves of that source.
    let r = b.event(&mut mgr, WidgetId(2), Event::PressMove { source: src, coord: Coord { x: 60, y: 5 } });
    assert_eq!(r, Response::Nothing);
    assert_eq!(b.offset(), Coord { x: 0, y: 0 });
}

#[test]
fn resize_reclamps_offset() {
    let mut h = handle_on_track(100, 10, 20, 10);
    let (_, _) = h.set_offset(Coord { x: 80, y: 0 });
    // Shrinking the track re-applies clamping: 80 no longer fits.
    h.set_rect(
        Rect { pos: Coord { x: 0, y: 0 }, size: Size { w: 50, h: 10 } },
        AlignHints::none(),
    );
    assert!(h.offset().x <= h.max_offset().x);
    assert_eq!(h.offset(), Coord { x: 30, y: 0 });
}
