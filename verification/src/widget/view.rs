//! View widgets and data traits: a view over a list of text entries,
//! driven by an abstract indexed data source.

use vstd::prelude::*;

use crate::draw::DrawCmd;
use crate::event::UpdateHandle;
use crate::event::WidgetId;
use crate::geom::Coord;
use crate::geom::Rect;
use crate::geom::Size;
use crate::layout::size_rules::Margins;
use crate::layout::AlignHints;
use crate::layout::AxisInfo;
use crate::layout::Layout;
use crate::layout::SizeRules;
use crate::toolkit::TkAction;
use crate::widget::label::Label;
use crate::widget::label::TextMetrics;
use crate::widget::list::List;
use crate::widget::CoreData;

verus! {

/// Trait for viewable single data items.
pub trait SingleData: Sized {
    /// Type of data
    type Item;

    /// The current value.
    spec fn item_spec(&self) -> Self::Item;

    /// The update handle advertised, if any.
    spec fn handle_spec(&self) -> Option<UpdateHandle>;

    /// Get the data (clone).
    fn get_cloned(&self) -> (r: Self::Item)
        ensures
            r == self.item_spec(),
    ;

    /// Get an update handle, if any is used.
    ///
    /// Widgets may use this handle to subscribe to change
    /// notifications.
    fn update_handle(&self) -> (r: Option<UpdateHandle>)
        ensures
            r == self.handle_spec(),
    ;
}

/// Trait for writable single data items.
pub trait SingleDataMut: SingleData {
    /// Set the data, returning the handle to notify on.
    fn set(&mut self, value: Self::Item) -> (r: UpdateHandle)
        ensures
            final(self).item_spec() == value,
    ;
}

/// Trait for viewable data lists.
///
/// The data is exposed as a deterministic,
/// implementation-defined-order sequence of key and item pairs.
pub trait ListData: Sized {
    /// Key type
    type Key;

    /// Item type
    type Item;

    /// The data, in the implementation's deterministic order.
    spec fn view_spec(&self) -> Seq<(Self::Key, Self::Item)>;

    /// What a lookup by key returns.
    spec fn lookup_spec(&self, key: Self::Key) -> Option<Self::Item>;

    /// The update handle advertised, if any.
    spec fn handle_spec(&self) -> Option<UpdateHandle>;

    /// Number of data items available.
    ///
    /// Note: users may assume this is `O(1)`.
    fn len(&self) -> (r: usize)
        ensures
            r == self.view_spec().len(),
    ;

    /// Get data by key (clone).
    fn get_cloned(&self, key: &Self::Key) -> (r: Option<Self::Item>)
        ensures
            r == self.lookup_spec(*key),
    ;

    /// The first `limit` key and item pairs, in order.
    fn iter_vec(&self, limit: usize) -> (r: Vec<(Self::Key, Self::Item)>)
        ensures
            r@ == list_window(self.view_spec(), 0, limit as int),
    ;

    /// Key and item pairs `start..start + limit`, in order: the same
    /// as taking `iter_vec(start + limit)` and skipping `start`.
    fn iter_vec_from(&self, start: usize, limit: usize) -> (r: Vec<(Self::Key, Self::Item)>)
        ensures
            r@ == list_window(self.view_spec(), start as int, limit as int),
    ;

    /// Get an update handle, if any is used.
    fn update_handle(&self) -> (r: Option<UpdateHandle>)
        ensures
            r == self.handle_spec(),
    ;
}

/// Trait for writable data lists.
pub trait ListDataMut: ListData {
    /// Set data by key, returning the handle to notify on.
    fn set(&mut self, key: Self::Key, item: Self::Item) -> (r: UpdateHandle)
        ensures
            final(self).lookup_spec(key) == Some(item),
    ;
}

/// A single shared value carrying an update handle, so that widgets
/// viewing it can subscribe to change notifications.
#[derive(Clone, Debug)]
pub struct SharedValue {
    /// The value shown
    pub value: String,
    /// The handle advertised to subscribers
    pub handle: UpdateHandle,
}

impl SingleData for SharedValue {
    type Item = String;

    open spec fn item_spec(&self) -> String {
        self.value
    }

    open spec fn handle_spec(&self) -> Option<UpdateHandle> {
        Some(self.handle)
    }

    fn get_cloned(&self) -> (r: String) {
        self.value.clone()
    }

    fn update_handle(&self) -> (r: Option<UpdateHandle>) {
        Some(self.handle)
    }
}

impl SingleDataMut for SharedValue {
    fn set(&mut self, value: String) -> (r: UpdateHandle)
        ensures
            final(self).handle == old(self).handle,
    {
        self.value = value;
        self.handle
    }
}

/// The window `[start, start + limit)` of a sequence, clipped to its
/// length.
pub open spec fn list_window<T>(s: Seq<T>, start: int, limit: int) -> Seq<T> {
    let lo = if start <= s.len() {
        start
    } else {
        s.len() as int
    };
    let hi = if start + limit <= s.len() {
        start + limit
    } else {
        s.len() as int
    };
    if lo <= hi {
        s.subrange(lo, hi)
    } else {
        Seq::empty()
    }
}

/// Windowed iteration is consistent: the pairs from `start` with limit
/// `limit` are exactly the first `start + limit` pairs with the first
/// `start` of them skipped.
pub proof fn lemma_list_window_consistent<T>(s: Seq<T>, start: int, limit: int)
    requires
        0 <= start,
        0 <= limit,
    ensures
        list_window(s, start, limit) =~= list_window(s, 0, start + limit).skip(
            if start <= s.len() {
                start
            } else {
                s.len() as int
            },
        ),
{
}

/// A list of strings is list data, keyed by position.
impl ListData for Vec<String> {
    type Key = usize;

    type Item = String;

    open spec fn view_spec(&self) -> Seq<(usize, String)> {
        Seq::new(self@.len(), |i: int| (i as usize, self@[i]))
    }

    open spec fn lookup_spec(&self, key: usize) -> Option<String> {
        if key < self@.len() {
            Some(self@[key as int])
        } else {
            None
        }
    }

    open spec fn handle_spec(&self) -> Option<UpdateHandle> {
        None
    }

    fn len(&self) -> (r: usize) {
        self.len()
    }

    fn get_cloned(&self, key: &usize) -> (r: Option<String>) {
        if *key < self.len() {
            Some(self[*key].clone())
        } else {
            None
        }
    }

    fn iter_vec(&self, limit: usize) -> (r: Vec<(usize, String)>) {
        self.iter_vec_from(0, limit)
    }

    fn iter_vec_from(&self, start: usize, limit: usize) -> (r: Vec<(usize, String)>) {
        let n = self.len();
        let lo: usize = if start <= n {
            start
        } else {
            n
        };
        let hi: usize = if limit <= n - lo {
            lo + limit
        } else {
            n
        };
        let mut out: Vec<(usize, String)> = Vec::new();
        let mut i: usize = lo;
        while i < hi
            invariant
                lo <= i <= hi <= n,
                n == self@.len(),
                out@ =~= self.view_spec().subrange(lo as int, i as int),
            decreases hi - i,
        {
            out.push((i, self[i].clone()));
            proof {
                assert(self.view_spec()[i as int] == (i, self@[i as int]));
                assert(out@ =~= self.view_spec().subrange(lo as int, i as int + 1));
            }
            i = i + 1;
        }
        proof {
            assert(out@ =~= list_window(self.view_spec(), start as int, limit as int));
        }
        out
    }

    fn update_handle(&self) -> (r: Option<UpdateHandle>) {
        None
    }
}

/// Messages returned from a view.
///
/// The model is expected to respond by calling the matching
/// [`ListView`] method. The view tolerates responses being delayed or
/// dropped, though with some impairment to user experience; responses
/// should not be reordered.
#[must_use]
#[derive(Clone, Copy, Debug, PartialEq, Eq, Structural)]
pub enum ListViewMsg {
    /// No request
    Nothing,
    /// Request a call to [`ListView::data_range`]
    DataRange,
    /// Request the rows `[begin, end)`, via calls to
    /// [`ListView::data_row`]
    DataRows(usize, usize),
}

/// The fixed frame sizes a view draws around its content, per axis:
/// what a theme would provide.
#[derive(Clone, Copy, Debug, PartialEq, Eq)]
pub struct FrameParams {
    /// Frame width left and right of the content
    pub horiz: (u16, u16),
    /// Frame height above and below the content
    pub vert: (u16, u16),
    /// Inner margin between frame and content, per axis
    pub inner: (u16, u16),
    /// Outer margins around the frame
    pub margins: Margins,
}

impl FrameParams {
    /// A plain default: 2 units of frame and 1 of inner margin.
    pub fn default_params() -> (r: FrameParams)
        ensures
            r == (FrameParams {
                horiz: (2u16, 2u16),
                vert: (2u16, 2u16),
                inner: (1u16, 1u16),
                margins: (Margins { horiz: (0u16, 0u16), vert: (0u16, 0u16) }),
            }),
    {
        FrameParams {
            horiz: (2, 2),
            vert: (2, 2),
            inner: (1, 1),
            margins: Margins { horiz: (0, 0), vert: (0, 0) },
        }
    }
}

/// A view over a list of text entries.
///
/// The view should be initialised with [`ListView::refresh`]; before
/// that it appears empty. The owning model answers the returned
/// messages by supplying the row count and then each row's data, which
/// constructs exactly one child label per row.
#[derive(Clone, Debug)]
pub struct ListView {
    /// Identity and assigned rectangle
    pub core: CoreData,
    /// The content: a column of labels, one per row
    pub w: List<Label>,
    /// Frame sizes around the content
    pub frame: FrameParams,
    /// Text sizing model for the rows
    pub metrics: TextMetrics,
    /// Offset of the content within the frame, per axis; written by
    /// `size_rules` and read by `set_rect`
    pub frame_offset: Coord,
    /// Total extra size the frame adds, per axis; written by
    /// `size_rules` and read by `set_rect`
    pub frame_size: Size,
}

impl ListView {
    /// Construct a list view with the given frame and text models.
    ///
    /// The owning model is expected to call [`ListView::refresh`] when
    /// it is configured.
    pub fn new(frame: FrameParams, metrics: TextMetrics) -> (r: ListView)
        ensures
            r.wf(),
            r.w.children@.len() == 0,
            r.frame == frame,
            r.metrics == metrics,
            !r.sized_h() && !r.sized_v(),
    {
        ListView {
            core: CoreData::new(),
            w: List::new(true),
            frame,
            metrics,
            frame_offset: Coord::zero(),
            frame_size: Size::zero(),
        }
    }

    /// Number of rows currently shown.
    pub fn len(&self) -> (r: usize)
        ensures
            r == self.w.children@.len(),
    {
        self.w.len()
    }

    /// Refresh the view: clears all child widgets and asks the model
    /// for the data range.
    ///
    /// The returned action is what the clearing requires: nothing when
    /// the view was already empty, otherwise a reconfigure.
    pub fn refresh(&mut self) -> (r: (TkAction, ListViewMsg))
        requires
            old(self).wf(),
        ensures
            final(self).wf(),
            final(self).w.children@.len() == 0,
            final(self).core == old(self).core,
            final(self).frame == old(self).frame,
            final(self).metrics == old(self).metrics,
            r.0 == if old(self).w.children@.len() == 0 {
                TkAction::Nothing
            } else {
                TkAction::Reconfigure
            },
            r.1 == ListViewMsg::DataRange,
    {
        (self.w.clear(), ListViewMsg::DataRange)
    }

    /// Provide the data range (number of rows); the view answers by
    /// requesting exactly the rows `[0, len)`.
    pub fn data_range(&mut self, len: usize) -> (r: ListViewMsg)
        requires
            old(self).wf(),
        ensures
            *final(self) == *old(self),
            r == ListViewMsg::DataRows(0, len),
    {
        ListViewMsg::DataRows(0, len)
    }

    /// Provide a single data row, appending exactly one child label.
    ///
    /// Rows are expected in index order.
    pub fn data_row(&mut self, index: usize, row: String) -> (r: TkAction)
        requires
            old(self).wf(),
        ensures
            final(self).wf(),
            final(self).w.children@.len() == old(self).w.children@.len() + 1,
            final(self).w.children@.last().text@ == row@,
            forall|i: int|
                0 <= i < old(self).w.children@.len() ==> final(self).w.children@[i] == old(
                    self,
                ).w.children@[i],
            final(self).core == old(self).core,
            final(self).frame == old(self).frame,
            final(self).metrics == old(self).metrics,
            r == TkAction::Reconfigure,
    {
        self.w.push(Label::new(self.metrics, row))
    }
}

/// The inner rectangle left for the content once the frame is taken
/// out, as a spec value: the position moves in by the frame offset
/// (clamped to coordinate space) and the size shrinks by the frame
/// size (never below zero).
pub open spec fn inner_rect_spec(rect: Rect, off: Coord, fsize: Size) -> Rect {
    Rect {
        pos: Coord {
            x: if rect.pos.x + off.x <= i32::MAX {
                (rect.pos.x + off.x) as i32
            } else {
                i32::MAX
            },
            y: if rect.pos.y + off.y <= i32::MAX {
                (rect.pos.y + off.y) as i32
            } else {
                i32::MAX
            },
        },
        size: Size {
            w: if rect.size.w >= fsize.w {
                (rect.size.w - fsize.w) as u32
            } else {
                0
            },
            h: if rect.size.h >= fsize.h {
                (rect.size.h - fsize.h) as u32
            } else {
                0
            },
        },
    }
}

impl Layout for ListView {
    open spec fn wf(&self) -> bool {
        &&& self.w.wf()
        &&& self.w.vertical == true
        &&& self.w.sized_h() ==> 0 <= self.frame_offset.x && self.frame_offset.x
            <= self.frame_size.w <= 0x80000
        &&& self.w.sized_v() ==> 0 <= self.frame_offset.y && self.frame_offset.y
            <= self.frame_size.h <= 0x80000
    }

    open spec fn sized_h(&self) -> bool {
        self.w.sized_h()
    }

    open spec fn sized_v(&self) -> bool {
        self.w.sized_v()
    }

    open spec fn rect_spec(&self) -> Rect {
        self.core.rect
    }

    open spec fn size_rules_rel(pre: Self, axis: AxisInfo, post: Self, r: SizeRules) -> bool {
        let f0 = if axis.vertical {
            pre.frame.vert.0
        } else {
            pre.frame.horiz.0
        };
        let f1 = if axis.vertical {
            pre.frame.vert.1
        } else {
            pre.frame.horiz.1
        };
        let inner = if axis.vertical {
            pre.frame.inner.1
        } else {
            pre.frame.inner.0
        };
        let f_off = f0 as int + inner;
        let f_size = f_off + f1 + inner;
        exists|content: SizeRules|
            {
                let frame_rules = SizeRules {
                    min: f_size as u32,
                    ideal: f_size as u32,
                    margins: if axis.vertical {
                        pre.frame.margins.vert
                    } else {
                        pre.frame.margins.horiz
                    },
                    stretch: crate::layout::Stretch::Fixed,
                };
                &&& #[trigger] List::<Label>::size_rules_rel(pre.w, axis, post.w, content)
                &&& r == content.surrounded_by_spec(frame_rules, true)
                &&& if axis.vertical {
                    &&& post.frame_offset == (Coord {
                        x: pre.frame_offset.x,
                        y: (f_off + content.margins.0) as i32,
                    })
                    &&& post.frame_size == (Size {
                        w: pre.frame_size.w,
                        h: (f_size + content.margins.0 + content.margins.1) as u32,
                    })
                } else {
                    &&& post.frame_offset == (Coord {
                        x: (f_off + content.margins.0) as i32,
                        y: pre.frame_offset.y,
                    })
                    &&& post.frame_size == (Size {
                        w: (f_size + content.margins.0 + content.margins.1) as u32,
                        h: pre.frame_size.h,
                    })
                }
            }
            && post.core == pre.core && post.frame == pre.frame && post.metrics == pre.metrics
    }

    open spec fn set_rect_rel(pre: Self, rect: Rect, align: AlignHints, post: Self) -> bool {
        &&& post.core == (CoreData { id: pre.core.id, rect })
        &&& List::<Label>::set_rect_rel(
            pre.w,
            inner_rect_spec(rect, pre.frame_offset, pre.frame_size),
            (AlignHints { horiz: None::<crate::layout::Align>, vert: None::<crate::layout::Align> }),
            post.w,
        )
        &&& post.frame == pre.frame
        &&& post.metrics == pre.metrics
        &&& post.frame_offset == pre.frame_offset
        &&& post.frame_size == pre.frame_size
    }

    open spec fn find_id_spec(&self, coord: Coord) -> Option<WidgetId> {
        if !self.core.rect.contains_spec(coord) {
            None
        } else if self.w.find_id_spec(coord) is Some {
            self.w.find_id_spec(coord)
        } else {
            Some(self.core.id)
        }
    }

    /// The view's constraint is its content surrounded by the frame;
    /// the computed frame offset and total are stored for `set_rect`.
    fn size_rules(&mut self, axis: AxisInfo) -> (r: SizeRules) {
        let vertical = axis.is_vertical();
        let f0: u16 = if vertical {
            self.frame.vert.0
        } else {
            self.frame.horiz.0
        };
        let f1: u16 = if vertical {
            self.frame.vert.1
        } else {
            self.frame.horiz.1
        };
        let inner: u16 = if vertical {
            self.frame.inner.1
        } else {
            self.frame.inner.0
        };
        let f_off: u32 = f0 as u32 + inner as u32;
        let f_size: u32 = f_off + f1 as u32 + inner as u32;

        let ghost pre = *self;
        let content = self.w.size_rules(axis);
        let ghost content_g = content;
        let m = content.margins;
        if vertical {
            self.frame_offset.y = (f_off + m.0 as u32) as i32;
            self.frame_size.h = f_size + m.0 as u32 + m.1 as u32;
        } else {
            self.frame_offset.x = (f_off + m.0 as u32) as i32;
            self.frame_size.w = f_size + m.0 as u32 + m.1 as u32;
        }

        let margins: (u16, u16) = if vertical {
            self.frame.margins.vert
        } else {
            self.frame.margins.horiz
        };
        let frame_rules = SizeRules::fixed(f_size, margins);
        let result = content.surrounded_by(frame_rules, true);
        proof {
            assert(List::<Label>::size_rules_rel(pre.w, axis, self.w, content_g));
            assert(Self::size_rules_rel(pre, axis, *self, result));
        }
        result
    }

    fn set_rect(&mut self, rect: Rect, align: AlignHints) {
        self.core.rect = rect;
        let x: i32 = if self.frame_offset.x <= i32::MAX - rect.pos.x {
            rect.pos.x + self.frame_offset.x
        } else {
            i32::MAX
        };
        let y: i32 = if self.frame_offset.y <= i32::MAX - rect.pos.y {
            rect.pos.y + self.frame_offset.y
        } else {
            i32::MAX
        };
        let w: u32 = if rect.size.w >= self.frame_size.w {
            rect.size.w - self.frame_size.w
        } else {
            0
        };
        let h: u32 = if rect.size.h >= self.frame_size.h {
            rect.size.h - self.frame_size.h
        } else {
            0
        };
        let inner = Rect { pos: Coord { x, y }, size: Size { w, h } };
        self.w.set_rect(inner, AlignHints::none());
    }

    fn find_id(&self, coord: Coord) -> (r: Option<WidgetId>) {
        if !self.core.rect.contains(coord) {
            return None;
        }
        let found = self.w.find_id(coord);
        if found.is_some() {
            return found;
        }
        Some(self.core.id)
    }

    fn rect(&self) -> (r: Rect) {
        self.core.rect
    }

    /// The view draws its frame first, then the rows over it.
    open spec fn draw_spec(&self) -> Seq<DrawCmd> {
        seq![DrawCmd::Frame(self.core.rect)] + self.w.draw_spec()
    }

    fn draw(&self, out: &mut Vec<DrawCmd>) {
        out.push(DrawCmd::Frame(self.core.rect));
        let ghost mid = out@;
        self.w.draw(out);
        proof {
            assert(out@ =~= old(out)@ + self.draw_spec());
        }
    }
}

} // verus!
