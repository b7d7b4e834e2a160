//! The [`DragHandle`] control.

use vstd::prelude::*;

use crate::event::Event;
use crate::event::Handler;
use crate::event::Manager;
use crate::event::PressSource;
use crate::event::Response;
use crate::event::WidgetId;
use crate::geom::coord_sub_sat;
use crate::geom::sat_sub_i32_spec;
use crate::geom::Coord;
use crate::geom::Rect;
use crate::geom::Size;
use crate::layout::AlignHints;
use crate::layout::AxisInfo;
use crate::layout::Layout;
use crate::layout::SizeRules;
use crate::widget::CoreData;

verus! {

/// Draggable handle.
///
/// A `DragHandle` is a draggable object with a given size which is
/// restricted to a *track* and has an *offset* relative to the start of
/// that track.
///
/// This widget is unusual in several ways:
///
/// 1.  `size_rules` does not request any size; the parent is expected
///     to do this.
/// 2.  `set_rect` sets the *track* within which this handle may move,
///     re-clamping the handle into it; the parent should call
///     [`DragHandle::set_size_and_offset`] afterwards.
/// 3.  `draw` does nothing; the parent is expected to do all drawing.
/// 4.  Optionally, clicks on the track area can be handled via
///     [`DragHandle::handle_press_on_track`].
#[derive(Clone, Copy, Debug, PartialEq, Eq)]
pub struct DragHandle {
    /// Identity and the handle's own rectangle
    pub core: CoreData,
    /// The area within which this handle may move
    pub track: Rect,
    /// The source of the press currently dragging the handle, if any
    pub press_source: Option<PressSource>,
    /// Where within the handle the drag started
    pub press_offset: Coord,
}

impl DragHandle {
    /// Validity of the sizes alone: the handle fits the track and the
    /// track's extent stays representable.
    pub open spec fn wf_sizes(&self) -> bool {
        &&& self.track.wf()
        &&& self.track.size.w <= i32::MAX
        &&& self.track.size.h <= i32::MAX
        &&& self.core.rect.size.w <= self.track.size.w
        &&& self.core.rect.size.h <= self.track.size.h
    }

    /// Full validity: sizes fit and the handle lies on the track.
    pub open spec fn wf(&self) -> bool {
        &&& self.wf_sizes()
        &&& self.track.pos.x <= self.core.rect.pos.x
        &&& self.track.pos.y <= self.core.rect.pos.y
        &&& self.core.rect.pos.x + self.core.rect.size.w <= self.track.pos.x + self.track.size.w
        &&& self.core.rect.pos.y + self.core.rect.size.h <= self.track.pos.y + self.track.size.h
    }

    /// The maximum allowed offset, as a spec value.
    pub open spec fn max_offset_spec(&self) -> Coord {
        Coord {
            x: (self.track.size.w - self.core.rect.size.w) as i32,
            y: (self.track.size.h - self.core.rect.size.h) as i32,
        }
    }

    /// The current offset, as a spec value.
    pub open spec fn offset_spec(&self) -> Coord {
        Coord {
            x: (self.core.rect.pos.x - self.track.pos.x) as i32,
            y: (self.core.rect.pos.y - self.track.pos.y) as i32,
        }
    }

    /// `offset` clamped into `[0, max_offset]`, componentwise.
    pub open spec fn clamp_offset_spec(&self, offset: Coord) -> Coord {
        Coord {
            x: clamp_i32(offset.x as int, self.max_offset_spec().x as int),
            y: clamp_i32(offset.y as int, self.max_offset_spec().y as int),
        }
    }

    /// Construct.
    pub fn new() -> (r: DragHandle)
        ensures
            r == (DragHandle {
                core: CoreData {
                    id: WidgetId(0),
                    rect: Rect { pos: Coord { x: 0, y: 0 }, size: Size { w: 0, h: 0 } },
                },
                track: Rect { pos: Coord { x: 0, y: 0 }, size: Size { w: 0, h: 0 } },
                press_source: None::<PressSource>,
                press_offset: Coord { x: 0, y: 0 },
            }),
            r.wf(),
    {
        DragHandle {
            core: CoreData::new(),
            track: Rect::zero(),
            press_source: None,
            press_offset: Coord::zero(),
        }
    }

    /// Set a new handle size and offset.
    ///
    /// The size must fit within the current track. Returns true if a
    /// redraw is required (the handle moved).
    pub fn set_size_and_offset(&mut self, size: Size, offset: Coord) -> (moved: bool)
        requires
            old(self).wf(),
            size.w <= old(self).track.size.w,
            size.h <= old(self).track.size.h,
        ensures
            final(self).wf(),
            final(self).core.rect.size == size,
            final(self).core.rect.pos == (Coord {
                x: (final(self).track.pos.x + final(self).clamp_offset_spec(offset).x) as i32,
                y: (final(self).track.pos.y + final(self).clamp_offset_spec(offset).y) as i32,
            }),
            final(self).track == old(self).track,
            final(self).press_source == old(self).press_source,
            final(self).press_offset == old(self).press_offset,
            final(self).core.id == old(self).core.id,
            moved == (final(self).core.rect.pos != old(self).core.rect.pos),
    {
        self.core.rect.size = size;
        let (_offset, moved) = self.set_offset(offset);
        moved
    }

    /// Get the current handle offset.
    pub fn offset(&self) -> (r: Coord)
        requires
            self.wf(),
        ensures
            r == self.offset_spec(),
            0 <= r.x <= self.max_offset_spec().x,
            0 <= r.y <= self.max_offset_spec().y,
    {
        Coord {
            x: self.core.rect.pos.x - self.track.pos.x,
            y: self.core.rect.pos.y - self.track.pos.y,
        }
    }

    /// Get the maximum allowed offset.
    ///
    /// This depends on the size of the handle and the track.
    pub fn max_offset(&self) -> (r: Coord)
        requires
            self.wf_sizes(),
        ensures
            r == self.max_offset_spec(),
            r.x >= 0 && r.y >= 0,
    {
        Coord {
            x: (self.track.size.w - self.core.rect.size.w) as i32,
            y: (self.track.size.h - self.core.rect.size.h) as i32,
        }
    }

    /// Set a new handle offset.
    ///
    /// Returns the new offset (the input clamped into
    /// `[0, max_offset]` componentwise) and whether the handle moved.
    pub fn set_offset(&mut self, offset: Coord) -> (r: (Coord, bool))
        requires
            old(self).wf_sizes(),
        ensures
            final(self).wf(),
            r.0 == old(self).clamp_offset_spec(offset),
            0 <= r.0.x <= old(self).max_offset_spec().x,
            0 <= r.0.y <= old(self).max_offset_spec().y,
            final(self).core.rect.pos == (Coord {
                x: (old(self).track.pos.x + r.0.x) as i32,
                y: (old(self).track.pos.y + r.0.y) as i32,
            }),
            r.1 == (final(self).core.rect.pos != old(self).core.rect.pos),
            final(self).core.rect.size == old(self).core.rect.size,
            final(self).track == old(self).track,
            final(self).press_source == old(self).press_source,
            final(self).press_offset == old(self).press_offset,
            final(self).core.id == old(self).core.id,
    {
        let max = self.max_offset();
        let ox: i32 = if offset.x < 0 {
            0
        } else if offset.x > max.x {
            max.x
        } else {
            offset.x
        };
        let oy: i32 = if offset.y < 0 {
            0
        } else if offset.y > max.y {
            max.y
        } else {
            offset.y
        };
        let pos = Coord { x: self.track.pos.x + ox, y: self.track.pos.y + oy };
        let moved = pos.x != self.core.rect.pos.x || pos.y != self.core.rect.pos.y;
        self.core.rect.pos = pos;
        (Coord { x: ox, y: oy }, moved)
    }

    /// Handle a press on the track itself.
    ///
    /// If the parent wants clicks on the track area to move the handle,
    /// it should call this when receiving a press start there. The
    /// handle is grabbed for `source` (if no grab on that source is
    /// active) and centred on the press immediately; the new offset is
    /// returned. If another widget already holds a grab on `source`,
    /// nothing changes and the current offset is returned.
    pub fn handle_press_on_track(&mut self, mgr: &mut Manager, source: PressSource, coord: Coord)
        -> (r: Coord)
        requires
            old(self).wf(),
            old(mgr).wf(),
        ensures
            final(self).wf(),
            final(mgr).wf(),
            old(mgr).has_grab(source) ==> {
                &&& *final(self) == *old(self)
                &&& r == old(self).offset_spec()
                &&& mgr_unchanged(*old(mgr), *final(mgr))
            },
            !old(mgr).has_grab(source) ==> {
                let mid = (Coord {
                    x: (old(self).track.pos.x + old(self).core.rect.size.w as i32 / 2) as i32,
                    y: (old(self).track.pos.y + old(self).core.rect.size.h as i32 / 2) as i32,
                });
                let o = old(self).clamp_offset_spec(
                    (Coord {
                        x: sat_sub_i32_spec(coord.x as int, mid.x as int) as i32,
                        y: sat_sub_i32_spec(coord.y as int, mid.y as int) as i32,
                    }),
                );
                &&& r == o
                &&& final(self).press_source == Some(source)
                &&& final(self).press_offset == mid
                &&& final(self).core.rect.pos == (Coord {
                    x: (old(self).track.pos.x + o.x) as i32,
                    y: (old(self).track.pos.y + o.y) as i32,
                })
                &&& final(self).core.rect.size == old(self).core.rect.size
                &&& final(self).track == old(self).track
                &&& final(self).core.id == old(self).core.id
                &&& final(mgr).grabs_spec() == old(mgr).grabs_spec().push(
                    (crate::event::Grab { source, id: old(self).core.id }),
                )
                &&& final(mgr).redraws_spec() == old(mgr).redraws_spec().push(old(self).core.id)
                &&& final(mgr).action_spec() == old(mgr).action_spec().max_spec(
                    crate::toolkit::TkAction::Redraw,
                )
            },
    {
        if !self.grab_press(mgr, source) {
            return self.offset();
        }

        // Aim the middle of the handle at the press position.
        self.press_offset = Coord {
            x: self.track.pos.x + (self.core.rect.size.w / 2) as i32,
            y: self.track.pos.y + (self.core.rect.size.h / 2) as i32,
        };

        // Since the press is not on the handle, move the bar immediately.
        let target = coord_sub_sat(coord, self.press_offset);
        let (offset, _moved) = self.set_offset(target);
        mgr.redraw(self.core.id);
        offset
    }

    /// Request a grab on `source` for this handle, remembering the
    /// source on success. A second concurrent press is rejected:
    /// interacting with a handle through multiple presses makes no
    /// sense.
    fn grab_press(&mut self, mgr: &mut Manager, source: PressSource) -> (r: bool)
        requires
            old(mgr).wf(),
        ensures
            final(mgr).wf(),
            r == !old(mgr).has_grab(source),
            r ==> final(mgr).grabs_spec() == old(mgr).grabs_spec().push(
                (crate::event::Grab { source, id: old(self).core.id }),
            ) && *final(self) == (DragHandle { press_source: Some(source), ..*old(self) }),
            !r ==> final(mgr).grabs_spec() == old(mgr).grabs_spec() && *final(self) == *old(self),
            final(mgr).redraws_spec() == old(mgr).redraws_spec(),
            final(mgr).action_spec() == old(mgr).action_spec(),
    {
        if mgr.request_grab(self.core.id, source) {
            self.press_source = Some(source);
            true
        } else {
            false
        }
    }

    /// Whether `source` is the press currently dragging the handle.
    fn is_press_source(&self, source: PressSource) -> (r: bool)
        ensures
            r == (self.press_source == Some(source)),
    {
        match self.press_source {
            Some(s) => match (s, source) {
                (PressSource::Mouse(a), PressSource::Mouse(b)) => a == b,
                (PressSource::Touch(a), PressSource::Touch(b)) => a == b,
                _ => false,
            },
            None => false,
        }
    }
}

/// Clamp a value into `[0, hi]` (with `hi >= 0`).
pub open spec fn clamp_i32(v: int, hi: int) -> i32 {
    if v < 0 {
        0
    } else if v > hi {
        hi as i32
    } else {
        v as i32
    }
}

impl Layout for DragHandle {
    open spec fn wf(&self) -> bool {
        DragHandle::wf(self)
    }

    open spec fn sized_h(&self) -> bool {
        true
    }

    open spec fn sized_v(&self) -> bool {
        true
    }

    open spec fn rect_spec(&self) -> Rect {
        self.core.rect
    }

    open spec fn size_rules_rel(pre: Self, axis: AxisInfo, post: Self, r: SizeRules) -> bool {
        post == pre && r == SizeRules::empty_spec()
    }

    /// Setting the rectangle sets the *track*; the handle keeps its
    /// size (clamped to the new track) and its offset (re-clamped), as
    /// clamping must be re-applied whenever the track changes.
    open spec fn set_rect_rel(pre: Self, rect: Rect, align: AlignHints, post: Self) -> bool {
        &&& post.track == rect
        &&& post.core.rect.size.w == if pre.core.rect.size.w <= rect.size.w {
            pre.core.rect.size.w
        } else {
            rect.size.w
        }
        &&& post.core.rect.size.h == if pre.core.rect.size.h <= rect.size.h {
            pre.core.rect.size.h
        } else {
            rect.size.h
        }
        &&& post.core.rect.pos == (Coord {
            x: (rect.pos.x + post.clamp_offset_spec(pre.offset_spec()).x) as i32,
            y: (rect.pos.y + post.clamp_offset_spec(pre.offset_spec()).y) as i32,
        })
        &&& post.press_source == pre.press_source
        &&& post.press_offset == pre.press_offset
        &&& post.core.id == pre.core.id
    }

    open spec fn find_id_spec(&self, coord: Coord) -> Option<WidgetId> {
        if self.core.rect.contains_spec(coord) {
            Some(self.core.id)
        } else {
            None
        }
    }

    /// A drag handle requests no size of its own; the parent sizes it.
    fn size_rules(&mut self, axis: AxisInfo) -> (r: SizeRules) {
        SizeRules::empty()
    }

    fn set_rect(&mut self, rect: Rect, align: AlignHints) {
        let ghost pre = *self;
        let old_offset = self.offset();
        self.track = rect;
        let w: u32 = if self.core.rect.size.w <= rect.size.w {
            self.core.rect.size.w
        } else {
            rect.size.w
        };
        let h: u32 = if self.core.rect.size.h <= rect.size.h {
            self.core.rect.size.h
        } else {
            rect.size.h
        };
        self.core.rect.size = Size { w, h };
        let (_o, _moved) = self.set_offset(old_offset);
        proof {
            assert(Self::set_rect_rel(pre, rect, align, *self));
        }
    }

    fn find_id(&self, coord: Coord) -> (r: Option<WidgetId>) {
        if self.core.rect.contains(coord) {
            Some(self.core.id)
        } else {
            None
        }
    }

    fn rect(&self) -> (r: Rect) {
        self.core.rect
    }

    /// A drag handle draws nothing; the parent draws it.
    open spec fn draw_spec(&self) -> Seq<crate::draw::DrawCmd> {
        Seq::empty()
    }

    fn draw(&self, out: &mut Vec<crate::draw::DrawCmd>) {
        proof {
            assert(out@ + Seq::<crate::draw::DrawCmd>::empty() =~= out@);
        }
    }
}

/// Exact event behaviour of a drag handle; see [`Handler`] for how it
/// is tied to `event`.
pub open spec fn drag_event_rel(
    pre: DragHandle,
    pre_mgr: Manager,
    id: WidgetId,
    ev: Event,
    post: DragHandle,
    post_mgr: Manager,
    r: Response<Coord>,
) -> bool {
    match ev {
        Event::PressStart { source, coord } => {
            if pre_mgr.has_grab(source) {
                &&& post == pre
                &&& mgr_unchanged(pre_mgr, post_mgr)
                &&& r == Response::<Coord>::Nothing
            } else {
                &&& post == (DragHandle {
                    press_source: Some(source),
                    press_offset: (Coord {
                        x: sat_sub_i32_spec(coord.x as int, pre.offset_spec().x as int) as i32,
                        y: sat_sub_i32_spec(coord.y as int, pre.offset_spec().y as int) as i32,
                    }),
                    ..pre
                })
                &&& post_mgr.grabs_spec() == pre_mgr.grabs_spec().push(
                    (crate::event::Grab { source, id: pre.core.id }),
                )
                &&& post_mgr.redraws_spec() == pre_mgr.redraws_spec()
                &&& post_mgr.action_spec() == pre_mgr.action_spec()
                &&& r == Response::<Coord>::Nothing
            }
        },
        Event::PressMove { source, coord } => {
            if pre.press_source == Some(source) {
                let o = pre.clamp_offset_spec(
                    (Coord {
                        x: sat_sub_i32_spec(coord.x as int, pre.press_offset.x as int) as i32,
                        y: sat_sub_i32_spec(coord.y as int, pre.press_offset.y as int) as i32,
                    }),
                );
                let moved = (Coord {
                    x: (pre.track.pos.x + o.x) as i32,
                    y: (pre.track.pos.y + o.y) as i32,
                }) != pre.core.rect.pos;
                &&& post == (DragHandle {
                    core: CoreData {
                        id: pre.core.id,
                        rect: Rect {
                            pos: Coord {
                                x: (pre.track.pos.x + o.x) as i32,
                                y: (pre.track.pos.y + o.y) as i32,
                            },
                            size: pre.core.rect.size,
                        },
                    },
                    ..pre
                })
                &&& if moved {
                    &&& post_mgr.redraws_spec() == pre_mgr.redraws_spec().push(pre.core.id)
                    &&& post_mgr.action_spec() == pre_mgr.action_spec().max_spec(
                        crate::toolkit::TkAction::Redraw,
                    )
                    &&& r == Response::<Coord>::Msg(o)
                } else {
                    &&& post_mgr.redraws_spec() == pre_mgr.redraws_spec()
                    &&& post_mgr.action_spec() == pre_mgr.action_spec()
                    &&& r == Response::<Coord>::Nothing
                }
                &&& post_mgr.grabs_spec() == pre_mgr.grabs_spec()
            } else {
                &&& post == pre
                &&& mgr_unchanged(pre_mgr, post_mgr)
                &&& r == Response::<Coord>::Nothing
            }
        },
        Event::PressEnd { source, coord } => {
            if pre.press_source == Some(source) {
                &&& post == (DragHandle { press_source: None::<PressSource>, ..pre })
                &&& !post_mgr.has_grab(source)
                &&& (forall|s2: PressSource|
                    s2 != source ==> post_mgr.holder(s2) == pre_mgr.holder(s2))
                &&& post_mgr.redraws_spec() == pre_mgr.redraws_spec()
                &&& post_mgr.action_spec() == pre_mgr.action_spec()
                &&& r == Response::<Coord>::Nothing
            } else {
                &&& post == pre
                &&& mgr_unchanged(pre_mgr, post_mgr)
                &&& r == Response::<Coord>::Nothing
            }
        },
    }
}

/// The session's observable state is unchanged.
pub open spec fn mgr_unchanged(a: Manager, b: Manager) -> bool {
    &&& b.grabs_spec() == a.grabs_spec()
    &&& b.redraws_spec() == a.redraws_spec()
    &&& b.action_spec() == a.action_spec()
}

impl Handler for DragHandle {
    type Msg = Coord;

    open spec fn handler_wf(&self) -> bool {
        self.wf()
    }

    open spec fn event_rel(
        pre: Self,
        pre_mgr: Manager,
        id: WidgetId,
        ev: Event,
        post: Self,
        post_mgr: Manager,
        r: Response<Coord>,
    ) -> bool {
        drag_event_rel(pre, pre_mgr, id, ev, post, post_mgr, r)
    }

    /// While a press drags the handle, only events from that press
    /// move it; a press start while another press holds a grab is
    /// rejected; the matching press end releases the grab.
    fn event(&mut self, mgr: &mut Manager, id: WidgetId, ev: Event) -> (r: Response<Coord>) {
        match ev {
            Event::PressStart { source, coord } => {
                if !self.grab_press(mgr, source) {
                    return Response::Nothing;
                }

                // Event delivery implies the coordinate is over the
                // handle.
                let off = self.offset();
                self.press_offset = coord_sub_sat(coord, off);
                Response::Nothing
            },
            Event::PressMove { source, coord } => {
                if self.is_press_source(source) {
                    let target = coord_sub_sat(coord, self.press_offset);
                    let (offset, moved) = self.set_offset(target);
                    if moved {
                        mgr.redraw(self.core.id);
                        Response::Msg(offset)
                    } else {
                        Response::Nothing
                    }
                } else {
                    Response::Nothing
                }
            },
            Event::PressEnd { source, coord } => {
                if self.is_press_source(source) {
                    self.press_source = None;
                    mgr.end_grab(source);
                    Response::Nothing
                } else {
                    Response::Nothing
                }
            },
        }
    }
}

} // verus!
