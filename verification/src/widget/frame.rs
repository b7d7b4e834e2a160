//! A single-child wrapper drawing a frame around its content.

use vstd::prelude::*;

use crate::draw::DrawCmd;
use crate::event::WidgetId;
use crate::geom::Coord;
use crate::geom::Rect;
use crate::geom::Size;
use crate::layout::AlignHints;
use crate::layout::AxisInfo;
use crate::layout::Layout;
use crate::layout::SizeRules;
use crate::layout::Stretch;
use crate::widget::view::FrameParams;
use crate::widget::CoreData;

verus! {

/// A bordered container: wraps one child inside a fixed frame.
///
/// Unlike a view, the frame keeps no per-pass state: the extra size it
/// adds is a constant of its parameters, so the set pass derives the
/// content rectangle from the same constants the solve pass used.
#[derive(Clone, Debug)]
pub struct Frame<W> {
    /// Identity and assigned rectangle
    pub core: CoreData,
    /// The wrapped child
    pub child: W,
    /// Frame sizes around the content
    pub frame: FrameParams,
}

impl<W: Layout> Frame<W> {
    /// Wrap `child` in a frame.
    pub fn new(frame: FrameParams, child: W) -> (r: Frame<W>)
        requires
            child.wf(),
        ensures
            r.wf(),
            r.child == child,
            r.frame == frame,
            r.core.id == WidgetId(0),
    {
        Frame { core: CoreData::new(), child, frame }
    }

    /// The fixed extra size the frame adds along one axis.
    pub open spec fn frame_extent_spec(&self, vertical: bool) -> int {
        if vertical {
            self.frame.vert.0 + self.frame.vert.1 + 2 * self.frame.inner.1
        } else {
            self.frame.horiz.0 + self.frame.horiz.1 + 2 * self.frame.inner.0
        }
    }

    /// The content's offset from the frame's corner along one axis.
    pub open spec fn frame_offset_spec(&self, vertical: bool) -> int {
        if vertical {
            self.frame.vert.0 + self.frame.inner.1
        } else {
            self.frame.horiz.0 + self.frame.inner.0
        }
    }

    /// The content rectangle inside `rect`, as a spec value: the
    /// position moves in by the frame offset (clamped to coordinate
    /// space) and the size shrinks by the frame's extent (never below
    /// zero).
    pub open spec fn inner_rect_spec(&self, rect: Rect) -> Rect {
        Rect {
            pos: Coord {
                x: if rect.pos.x + self.frame_offset_spec(false) <= i32::MAX {
                    (rect.pos.x + self.frame_offset_spec(false)) as i32
                } else {
                    i32::MAX
                },
                y: if rect.pos.y + self.frame_offset_spec(true) <= i32::MAX {
                    (rect.pos.y + self.frame_offset_spec(true)) as i32
                } else {
                    i32::MAX
                },
            },
            size: Size {
                w: if rect.size.w >= self.frame_extent_spec(false) {
                    (rect.size.w - self.frame_extent_spec(false)) as u32
                } else {
                    0
                },
                h: if rect.size.h >= self.frame_extent_spec(true) {
                    (rect.size.h - self.frame_extent_spec(true)) as u32
                } else {
                    0
                },
            },
        }
    }
}

impl<W: Layout> Layout for Frame<W> {
    open spec fn wf(&self) -> bool {
        self.child.wf()
    }

    open spec fn sized_h(&self) -> bool {
        self.child.sized_h()
    }

    open spec fn sized_v(&self) -> bool {
        self.child.sized_v()
    }

    open spec fn rect_spec(&self) -> Rect {
        self.core.rect
    }

    open spec fn size_rules_rel(pre: Self, axis: AxisInfo, post: Self, r: SizeRules) -> bool {
        &&& post.core == pre.core
        &&& post.frame == pre.frame
        &&& exists|content: SizeRules|
            #[trigger] W::size_rules_rel(pre.child, axis, post.child, content)
                && r == content.surrounded_by_spec(
                (SizeRules {
                    min: pre.frame_extent_spec(axis.vertical) as u32,
                    ideal: pre.frame_extent_spec(axis.vertical) as u32,
                    margins: if axis.vertical {
                        pre.frame.margins.vert
                    } else {
                        pre.frame.margins.horiz
                    },
                    stretch: Stretch::Fixed,
                }),
                false,
            )
    }

    open spec fn set_rect_rel(pre: Self, rect: Rect, align: AlignHints, post: Self) -> bool {
        &&& post.core == (CoreData { id: pre.core.id, rect })
        &&& post.frame == pre.frame
        &&& W::set_rect_rel(pre.child, pre.inner_rect_spec(rect), align, post.child)
    }

    open spec fn find_id_spec(&self, coord: Coord) -> Option<WidgetId> {
        if !self.core.rect.contains_spec(coord) {
            None
        } else if self.child.find_id_spec(coord) is Some {
            self.child.find_id_spec(coord)
        } else {
            Some(self.core.id)
        }
    }

    fn size_rules(&mut self, axis: AxisInfo) -> (r: SizeRules) {
        let ghost pre = *self;
        let vertical = axis.is_vertical();
        let extent: u32 = if vertical {
            self.frame.vert.0 as u32 + self.frame.vert.1 as u32 + 2 * self.frame.inner.1 as u32
        } else {
            self.frame.horiz.0 as u32 + self.frame.horiz.1 as u32 + 2 * self.frame.inner.0 as u32
        };
        let margins: (u16, u16) = if vertical {
            self.frame.margins.vert
        } else {
            self.frame.margins.horiz
        };
        let content = self.child.size_rules(axis);
        let ghost content_g = content;
        let frame_rules = SizeRules::fixed(extent, margins);
        let result = content.surrounded_by(frame_rules, false);
        proof {
            assert(W::size_rules_rel(pre.child, axis, self.child, content_g));
            assert(Self::size_rules_rel(pre, axis, *self, result));
        }
        result
    }

    fn set_rect(&mut self, rect: Rect, align: AlignHints) {
        self.core.rect = rect;
        let off_x: u32 = self.frame.horiz.0 as u32 + self.frame.inner.0 as u32;
        let off_y: u32 = self.frame.vert.0 as u32 + self.frame.inner.1 as u32;
        let ext_x: u32 = off_x + self.frame.horiz.1 as u32 + self.frame.inner.0 as u32;
        let ext_y: u32 = off_y + self.frame.vert.1 as u32 + self.frame.inner.1 as u32;
        let x: i32 = if off_x as i32 <= i32::MAX - rect.pos.x {
            rect.pos.x + off_x as i32
        } else {
            i32::MAX
        };
        let y: i32 = if off_y as i32 <= i32::MAX - rect.pos.y {
            rect.pos.y + off_y as i32
        } else {
            i32::MAX
        };
        let inner = Rect {
            pos: Coord { x, y },
            size: Size {
                w: if rect.size.w >= ext_x {
                    rect.size.w - ext_x
                } else {
                    0
                },
                h: if rect.size.h >= ext_y {
                    rect.size.h - ext_y
                } else {
                    0
                },
            },
        };
        self.child.set_rect(inner, align);
    }

    fn find_id(&self, coord: Coord) -> (r: Option<WidgetId>) {
        if !self.core.rect.contains(coord) {
            return None;
        }
        let found = self.child.find_id(coord);
        if found.is_some() {
            return found;
        }
        Some(self.core.id)
    }

    fn rect(&self) -> (r: Rect) {
        self.core.rect
    }

    /// The frame's chrome first, then the child over it.
    open spec fn draw_spec(&self) -> Seq<DrawCmd> {
        seq![DrawCmd::Frame(self.core.rect)] + self.child.draw_spec()
    }

    fn draw(&self, out: &mut Vec<DrawCmd>) {
        out.push(DrawCmd::Frame(self.core.rect));
        self.child.draw(out);
        proof {
            assert(out@ =~= old(out)@ + self.draw_spec());
        }
    }
}

} // verus!
