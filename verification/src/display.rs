//! Display widgets show information but are not interactive.

use vstd::prelude::*;

use crate::toolkit::TkAction;
use crate::widget::CoreData;

verus! {

/// A static text display.
#[derive(Clone, Debug)]
pub struct Text {
    /// Identity and assigned rectangle
    pub core: CoreData,
    /// The text shown
    pub text: String,
}

impl Text {
    /// An empty text display.
    pub fn new() -> (r: Text)
        ensures
            r.text@ == Seq::<char>::empty(),
    {
        Text { core: CoreData::new(), text: String::new() }
    }

    /// The text shown.
    pub fn label(&self) -> (r: &String)
        ensures
            r@ == self.text@,
    {
        &self.text
    }

    /// Replace the text; the display must be redrawn.
    pub fn set_text(&mut self, text: String) -> (r: TkAction)
        ensures
            final(self).text@ == text@,
            final(self).core == old(self).core,
            r == TkAction::Redraw,
    {
        self.text = text;
        TkAction::Redraw
    }
}

impl From<String> for Text {
    /// Wrap a string as a text display.
    fn from(text: String) -> (r: Text) {
        Text { core: CoreData::new(), text }
    }
}

impl vstd::std_specs::convert::FromSpecImpl<String> for Text {
    open spec fn obeys_from_spec() -> bool {
        true
    }

    open spec fn from_spec(text: String) -> Text {
        Text {
            core: CoreData {
                id: crate::event::WidgetId(0),
                rect: crate::geom::Rect {
                    pos: crate::geom::Coord { x: 0, y: 0 },
                    size: crate::geom::Size { w: 0, h: 0 },
                },
            },
            text,
        }
    }
}

} // verus!
