//! Layout solving: size constraints, per-axis queries, and the widget
//! sizing protocol.
//!
//! Sizing is a two-pass protocol. First [`solve`] queries
//! [`Layout::size_rules`] on each axis, horizontal before vertical, so a
//! widget can size vertical content against a known width; the per-child
//! constraints collected by the solvers are stored by each container.
//! Second, `set_rect` walks the tree top-down and distributes concrete
//! rectangles using exactly the stored constraints.

pub mod size_rules;
pub mod sizer;

pub use size_rules::AxisInfo;
pub use size_rules::Margins;
pub use size_rules::SizeRules;
pub use size_rules::Stretch;
pub use sizer::solve;
pub use sizer::RulesSetter;
pub use sizer::RulesSolver;
pub use sizer::Storage;

use vstd::prelude::*;

use crate::draw::DrawCmd;
use crate::event::WidgetId;
use crate::geom::Coord;
use crate::geom::Rect;

verus! {

/// Alignment hints passed with a rectangle assignment.
///
/// `None` leaves the choice to the widget (most widgets fill the given
/// rectangle).
#[derive(Clone, Copy, Debug, PartialEq, Eq, Structural)]
pub struct AlignHints {
    /// Horizontal alignment, if constrained
    pub horiz: Option<Align>,
    /// Vertical alignment, if constrained
    pub vert: Option<Align>,
}

/// Alignment of content within an assigned rectangle.
#[derive(Clone, Copy, Debug, PartialEq, Eq, Structural)]
pub enum Align {
    /// Align to the start (left or top)
    Begin,
    /// Centre within the available space
    Centre,
    /// Align to the end (right or bottom)
    End,
    /// Fill the available space
    Stretch,
}

impl AlignHints {
    /// No alignment constraints.
    pub fn none() -> (r: AlignHints)
        ensures
            r == (AlignHints { horiz: None::<Align>, vert: None::<Align> }),
    {
        AlignHints { horiz: None, vert: None }
    }
}

/// The capability set of a widget: size negotiation, rectangle
/// assignment and hit testing.
///
/// Each implementation fixes the meaning of the relation spec functions,
/// so calls resolved to a concrete widget type see its exact behaviour;
/// generic code still knows that sizing state advances as the protocol
/// demands. `set_rect` may only be called once `size_rules` has run for
/// both axes: the per-axis metadata written by `size_rules` is read by
/// `set_rect`.
pub trait Layout: Sized {
    /// Internal consistency of the widget's own data.
    spec fn wf(&self) -> bool;

    /// Whether the horizontal `size_rules` pass has run.
    spec fn sized_h(&self) -> bool;

    /// Whether the vertical `size_rules` pass has run.
    spec fn sized_v(&self) -> bool;

    /// The widget's current rectangle.
    spec fn rect_spec(&self) -> Rect;

    /// Exact behaviour of `size_rules`, fixed per implementation.
    spec fn size_rules_rel(pre: Self, axis: AxisInfo, post: Self, r: SizeRules) -> bool;

    /// Exact behaviour of `set_rect`, fixed per implementation.
    spec fn set_rect_rel(pre: Self, rect: Rect, align: AlignHints, post: Self) -> bool;

    /// Exact behaviour of `find_id`, fixed per implementation.
    spec fn find_id_spec(&self, coord: Coord) -> Option<WidgetId>;

    /// Get size preferences for the given axis.
    ///
    /// The caller must query the horizontal axis first; the vertical
    /// query may then carry the resolved width in `axis`.
    fn size_rules(&mut self, axis: AxisInfo) -> (r: SizeRules)
        requires
            old(self).wf(),
        ensures
            final(self).wf(),
            r.wf(),
            axis.vertical ==> final(self).sized_v(),
            !axis.vertical ==> final(self).sized_h(),
            axis.vertical && old(self).sized_h() ==> final(self).sized_h(),
            !axis.vertical && old(self).sized_v() ==> final(self).sized_v(),
            Self::size_rules_rel(*old(self), axis, *final(self), r),
    ;

    /// Assign a rectangle to the widget and recursively to its children.
    ///
    /// Requires that `size_rules` has run on both axes: rectangle
    /// distribution reads the metadata those passes stored.
    fn set_rect(&mut self, rect: Rect, align: AlignHints)
        requires
            old(self).wf(),
            old(self).sized_h(),
            old(self).sized_v(),
            rect.wf(),
        ensures
            final(self).wf(),
            final(self).sized_h(),
            final(self).sized_v(),
            Self::set_rect_rel(*old(self), rect, align, *final(self)),
    ;

    /// Hit test: the identity of the deepest widget containing `coord`,
    /// the widget's own identity if no child matches but the coordinate
    /// is inside its rectangle, or nothing at all.
    fn find_id(&self, coord: Coord) -> (r: Option<WidgetId>)
        requires
            self.wf(),
        ensures
            r == self.find_id_spec(coord),
    ;

    /// The widget's current rectangle.
    fn rect(&self) -> (r: Rect)
        ensures
            r == self.rect_spec(),
    ;

    /// The draw commands this widget emits, in order: the widget's own
    /// chrome first, then its children, so later commands paint over
    /// earlier ones (painter's algorithm).
    spec fn draw_spec(&self) -> Seq<DrawCmd>;

    /// Append this widget's draw commands to the sink.
    fn draw(&self, out: &mut Vec<DrawCmd>)
        requires
            self.wf(),
        ensures
            final(out)@ == old(out)@ + self.draw_spec(),
    ;
}

} // verus!
