//! The widget set and the data every widget node carries.

pub mod button;
pub mod drag;
pub mod frame;
pub mod label;
pub mod list;
pub mod view;

use vstd::prelude::*;

use crate::event::WidgetId;
use crate::geom::Rect;

verus! {

/// Common data owned by every widget: its identity and assigned
/// rectangle.
#[derive(Clone, Copy, Debug, PartialEq, Eq, Structural)]
pub struct CoreData {
    /// Stable identity within the window
    pub id: WidgetId,
    /// The rectangle assigned by the last `set_rect`
    pub rect: Rect,
}

impl CoreData {
    /// Fresh core data: null identity, zero rectangle.
    pub fn new() -> (r: CoreData)
        ensures
            r.id == WidgetId(0),
            r.rect == (Rect {
                pos: crate::geom::Coord { x: 0, y: 0 },
                size: crate::geom::Size { w: 0, h: 0 },
            }),
            r.rect.wf(),
    {
        CoreData { id: WidgetId(0), rect: Rect::zero() }
    }
}

} // verus!
