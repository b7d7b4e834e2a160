//! Tests of the list view's data protocol, layout and drawing, and of
//! the list-data trait.

use kas::draw::DrawCmd;
use kas::event::WidgetId;
use kas::geom::{Coord, Rect, Size};
use kas::layout::{solve, AlignHints, Layout};
use kas::toolkit::TkAction;
use kas::widget::label::TextMetrics;
use kas::display::Text;
use kas::layout::AxisInfo;
use kas::widget::view::{FrameParams, ListData, ListView, ListViewMsg};

fn new_view() -> ListView {
    ListView::new(FrameParams::default_params(), TextMetrics::default_metrics())
}

fn model() -> Vec<String> {
    vec!["a".to_string(), "b".to_string(), "c".to_string()]
}

/// Answer the view's messages from the model, accumulating the most
/// severe action, as the owning widget would.
fn run_protocol(view: &mut ListView, data: &Vec<String>) -> TkAction {
    let (mut action, mut msg) = view.refresh();
    loop {
        match msg {
            ListViewMsg::Nothing => break,
            ListViewMsg::DataRange => {
                msg = view.data_range(data.len());
            }
            ListViewMsg::DataRows(begin, end) => {
                for (key, item) in data.iter_vec_from(begin, end - begin) {
                    action = action.max_with(view.data_row(key, item));
                }
                break;
            }
        }
    }
    action
}

#[test]
fn refresh_cycle_builds_rows_in_order() {
    // A model with three items: refresh, then answer DataRange with the
    // count and DataRows with each row, yields exactly three child
    // widgets in order, and the returned action is the union (most
    // severe) of all intermediate actions.
    let mut view = new_view();
    let data = model();
    let action = run_protocol(&mut view, &data);
    assert_eq!(view.len(), 3);
    assert_eq!(view.w.child(0).text().as_str(), "a");
    assert_eq!(view.w.child(1).text().as_str(), "b");
    assert_eq!(view.w.child(2).text().as_str(), "c");
    assert_eq!(action, TkAction::Reconfigure);
}

#[test]
fn refresh_clears_previous_rows() {
    let mut view = new_view();
    let data = model();
    let _ = run_protocol(&mut view, &data);
    assert_eq!(view.len(), 3);
    let (action, msg) = view.refresh();
    assert_eq!(view.len(), 0);
    assert_eq!(action, TkAction::Reconfigure);
    assert_eq!(msg, ListViewMsg::DataRange);
    // Refreshing an empty view needs no action.
    let (action, _) = view.refresh();
    assert_eq!(action, TkAction::Nothing);
}

#[test]
fn protocol_messages_are_exact() {
    let mut view = new_view();
    let (_, msg) = view.refresh();
    assert_eq!(msg, ListViewMsg::DataRange);
    assert_eq!(view.data_range(5), ListViewMsg::DataRows(0, 5));
    assert_eq!(view.data_row(0, "x".to_string()), TkAction::Reconfigure);
}

#[test]
fn list_data_len_and_get() {
    let data = model();
    assert_eq!(ListData::len(&data), 3);
    assert_eq!(data.get_cloned(&1), Some("b".to_string()));
    assert_eq!(data.get_cloned(&3), None);
}

#[test]
fn iter_vec_from_matches_skipped_prefix() {
    let data = model();
    // iter_vec_from(start, limit) == iter_vec(start + limit).skip(start)
    let direct = data.iter_vec_from(1, 2);
    let skipped: Vec<(usize, String)> =
        data.iter_vec(3).into_iter().skip(1).collect();
    assert_eq!(direct, skipped);
    assert_eq!(direct, vec![(1, "b".to_string()), (2, "c".to_string())]);
    // Windows are clipped to the data.
    assert_eq!(data.iter_vec_from(2, 10).len(), 1);
    assert_eq!(data.iter_vec_from(5, 2).len(), 0);
}

#[test]
fn view_solves_and_assigns_rows() {
    let mut view = new_view();
    let data = model();
    let _ = run_protocol(&mut view, &data);

    // Two-pass solve, then assign exactly the solved ideal size: with
    // no slack, every row receives exactly its ideal height.
    let wr = view.size_rules(AxisInfo::new(false, None));
    let hr = view.size_rules(AxisInfo::new(true, Some(wr.ideal)));
    view.set_rect(
        Rect { pos: Coord { x: 0, y: 0 }, size: Size { w: wr.ideal, h: hr.ideal } },
        AlignHints::none(),
    );

    let r0 = view.w.child(0).rect();
    let r1 = view.w.child(1).rect();
    let r2 = view.w.child(2).rect();
    assert_eq!(r0.size.h, 18);
    assert_eq!(r1.size.h, 18);
    assert_eq!(r2.size.h, 18);
    // Rows stack top to bottom with the collapsed margin of 2 between.
    assert_eq!(r1.pos.y - r0.pos.y, 20);
    assert_eq!(r2.pos.y - r1.pos.y, 20);
    assert_eq!(r0.pos.x, r1.pos.x);
}

#[test]
fn find_id_returns_deepest_match() {
    let mut view = new_view();
    let data = model();
    let _ = run_protocol(&mut view, &data);
    view.core.id = WidgetId(10);
    view.w.children[0].core.id = WidgetId(11);
    view.w.children[1].core.id = WidgetId(12);
    view.w.children[2].core.id = WidgetId(13);

    solve(&mut view, Size { w: 200, h: 100 });
    view.set_rect(
        Rect { pos: Coord { x: 0, y: 0 }, size: Size { w: 200, h: 100 } },
        AlignHints::none(),
    );

    // A coordinate inside a row hits that row.
    let r1 = view.w.child(1).rect();
    assert_eq!(view.find_id(r1.pos), Some(WidgetId(12)));
    // Inside the view but over the frame: the view itself.
    assert_eq!(view.find_id(Coord { x: 0, y: 0 }), Some(WidgetId(10)));
    // Outside entirely: nothing.
    assert_eq!(view.find_id(Coord { x: 500, y: 0 }), None);
}

#[test]
fn draw_emits_frame_then_rows() {
    let mut view = new_view();
    let data = model();
    let _ = run_protocol(&mut view, &data);
    solve(&mut view, Size { w: 200, h: 100 });
    view.set_rect(
        Rect { pos: Coord { x: 0, y: 0 }, size: Size { w: 200, h: 100 } },
        AlignHints::none(),
    );

    let mut out: Vec<DrawCmd> = Vec::new();
    view.draw(&mut out);
    assert_eq!(out.len(), 4);
    // The parent's chrome comes first; children paint over it in order.
    assert!(matches!(out[0], DrawCmd::Frame(_)));
    match &out[1] {
        DrawCmd::Text(_, text, _) => assert_eq!(text, "a"),
        other => panic!("expected text, got {:?}", other),
    }
    match &out[3] {
        DrawCmd::Text(_, text, _) => assert_eq!(text, "c"),
        other => panic!("expected text, got {:?}", other),
    }
}

#[test]
fn text_display_updates() {
    let mut t = Text::from("hello".to_string());
    assert_eq!(t.label().as_str(), "hello");
    let action = t.set_text("world".to_string());
    assert_eq!(t.label().as_str(), "world");
    assert_eq!(action, TkAction::Redraw);
}
