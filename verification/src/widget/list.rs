//! Row and column containers over a homogeneous child type.

use vstd::prelude::*;

use crate::draw::DrawCmd;
use crate::event::WidgetId;
use crate::geom::Coord;
use crate::geom::Rect;
use crate::layout::size_rules::sum_gaps;
use crate::layout::size_rules::sum_min;
use crate::layout::sizer::all_wf;
use crate::layout::sizer::dist_ok;
use crate::layout::sizer::line_rect;
use crate::layout::size_rules::maxed_all_spec;
use crate::layout::sizer::row_total_spec;
use crate::layout::sizer::sum_gaps_exec;
use crate::layout::sizer::sum_min_exec;
use crate::layout::sizer::RowSetter;
use crate::layout::sizer::RowSolver;
use crate::layout::sizer::RowStorage;
use crate::layout::sizer::RulesSetter;
use crate::layout::sizer::RulesSolver;
use crate::layout::AlignHints;
use crate::layout::AxisInfo;
use crate::layout::Layout;
use crate::layout::SizeRules;
use crate::toolkit::TkAction;
use crate::widget::CoreData;

verus! {

/// The draw commands of a sequence of children, in positional order.
pub open spec fn draw_all<W: Layout>(cs: Seq<W>) -> Seq<DrawCmd>
    decreases cs.len(),
{
    if cs.len() == 0 {
        Seq::empty()
    } else {
        draw_all(cs.drop_last()) + cs.last().draw_spec()
    }
}

/// The identity claimed by the first child containing `coord`, if any.
pub open spec fn find_in_children<W: Layout>(cs: Seq<W>, coord: Coord) -> Option<WidgetId>
    decreases cs.len(),
{
    if cs.len() == 0 {
        None
    } else if cs[0].find_id_spec(coord) is Some {
        cs[0].find_id_spec(coord)
    } else {
        find_in_children(cs.drop_first(), coord)
    }
}

/// All children are well formed.
pub open spec fn children_wf<W: Layout>(cs: Seq<W>) -> bool {
    forall|i: int| 0 <= i < cs.len() ==> (#[trigger] cs[i]).wf()
}

/// All children have been sized horizontally.
pub open spec fn children_sized_h<W: Layout>(cs: Seq<W>) -> bool {
    forall|i: int| 0 <= i < cs.len() ==> (#[trigger] cs[i]).sized_h()
}

/// All children have been sized vertically.
pub open spec fn children_sized_v<W: Layout>(cs: Seq<W>) -> bool {
    forall|i: int| 0 <= i < cs.len() ==> (#[trigger] cs[i]).sized_v()
}

/// One step of [`draw_all`] by index.
proof fn lemma_draw_all_step<W: Layout>(cs: Seq<W>, i: int)
    requires
        0 <= i < cs.len(),
    ensures
        draw_all(cs.take(i + 1)) == draw_all(cs.take(i)) + cs[i].draw_spec(),
{
    assert(cs.take(i + 1).drop_last() =~= cs.take(i));
    assert(cs.take(i + 1).last() == cs[i]);
}

/// A row or column of children of one widget type, laid end to end.
///
/// Children are solved strictly in positional order; the constraints
/// collected during the solve pass are stored and reused when the
/// container's rectangle is distributed.
#[derive(Clone, Debug)]
pub struct List<W> {
    /// Identity and assigned rectangle
    pub core: CoreData,
    /// Whether children stack vertically (a column) or horizontally
    pub vertical: bool,
    /// The children, in positional order
    pub children: Vec<W>,
    /// Per-child constraints along the stacked axis, from the last
    /// solve pass
    pub storage: RowStorage,
    /// Whether the horizontal solve pass has run
    pub hsolved: bool,
    /// Whether the vertical solve pass has run
    pub vsolved: bool,
}

impl<W: Layout> List<W> {
    /// Whether the stacked axis has been solved.
    pub open spec fn stacked_solved(&self) -> bool {
        if self.vertical {
            self.vsolved
        } else {
            self.hsolved
        }
    }

    /// Whether the container's rectangle can be laid out without
    /// leaving coordinate space even at the children's minima.
    pub open spec fn fits(&self, rect: Rect) -> bool {
        (if self.vertical {
            rect.pos.y as int
        } else {
            rect.pos.x as int
        }) + sum_min(self.storage.rules@) + sum_gaps(self.storage.rules@) <= i32::MAX
    }

    /// An empty list.
    pub fn new(vertical: bool) -> (r: List<W>)
        ensures
            r.wf(),
            r.vertical == vertical,
            r.children@.len() == 0,
            r.hsolved == false,
            r.vsolved == false,
            r.core.id == WidgetId(0),
    {
        List {
            core: CoreData::new(),
            vertical,
            children: Vec::new(),
            storage: RowStorage::new(),
            hsolved: false,
            vsolved: false,
        }
    }

    /// Number of children.
    pub fn len(&self) -> (r: usize)
        ensures
            r == self.children@.len(),
    {
        self.children.len()
    }

    /// Read access to child `i`.
    pub fn child(&self, i: usize) -> (r: &W)
        requires
            i < self.children@.len(),
        ensures
            *r == self.children@[i as int],
    {
        &self.children[i]
    }

    /// Append a child. The layout becomes stale, so a reconfigure is
    /// required.
    pub fn push(&mut self, child: W) -> (a: TkAction)
        requires
            old(self).wf(),
            child.wf(),
        ensures
            final(self).wf(),
            final(self).children@ == old(self).children@.push(child),
            final(self).vertical == old(self).vertical,
            final(self).core == old(self).core,
            final(self).hsolved == false,
            final(self).vsolved == false,
            a == TkAction::Reconfigure,
    {
        self.children.push(child);
        self.hsolved = false;
        self.vsolved = false;
        TkAction::Reconfigure
    }

    /// Remove all children. Returns the action required: nothing when
    /// the list was already empty, otherwise a reconfigure.
    pub fn clear(&mut self) -> (a: TkAction)
        requires
            old(self).wf(),
        ensures
            final(self).wf(),
            final(self).children@.len() == 0,
            final(self).vertical == old(self).vertical,
            final(self).core == old(self).core,
            final(self).hsolved == false,
            final(self).vsolved == false,
            a == if old(self).children@.len() == 0 {
                TkAction::Nothing
            } else {
                TkAction::Reconfigure
            },
    {
        let was_empty = self.children.len() == 0;
        self.children = Vec::new();
        self.hsolved = false;
        self.vsolved = false;
        if was_empty {
            TkAction::Nothing
        } else {
            TkAction::Reconfigure
        }
    }
}

impl<W: Layout> Layout for List<W> {
    open spec fn wf(&self) -> bool {
        &&& children_wf(self.children@)
        &&& self.stacked_solved() ==> self.storage.rules@.len() == self.children@.len() && all_wf(
            self.storage.rules@,
        )
    }

    open spec fn sized_h(&self) -> bool {
        self.hsolved && children_sized_h(self.children@)
    }

    open spec fn sized_v(&self) -> bool {
        self.vsolved && children_sized_v(self.children@)
    }

    open spec fn rect_spec(&self) -> Rect {
        self.core.rect
    }

    open spec fn size_rules_rel(pre: Self, axis: AxisInfo, post: Self, r: SizeRules) -> bool {
        &&& post.core == pre.core
        &&& post.vertical == pre.vertical
        &&& post.children@.len() == pre.children@.len()
        &&& post.hsolved == (!axis.vertical || pre.hsolved)
        &&& post.vsolved == (axis.vertical || pre.vsolved)
        &&& if axis.vertical == pre.vertical {
            // The stacked axis: children combine sequentially, and
            // their constraints are stored for the set pass.
            &&& post.storage.rules@.len() == pre.children@.len()
            &&& (forall|i: int|
                0 <= i < pre.children@.len() ==> W::size_rules_rel(
                    pre.children@[i],
                    axis,
                    post.children@[i],
                    #[trigger] post.storage.rules@[i],
                ))
            &&& r == row_total_spec(post.storage.rules@)
        } else {
            // The cross axis: children overlap, so the result is their
            // parallel maximum.
            &&& post.storage == pre.storage
            &&& exists|rs: Seq<SizeRules>|
                rs.len() == pre.children@.len() && (forall|i: int|
                    0 <= i < pre.children@.len() ==> W::size_rules_rel(
                        pre.children@[i],
                        axis,
                        post.children@[i],
                        #[trigger] rs[i],
                    )) && r == maxed_all_spec(rs)
        }
    }

    open spec fn set_rect_rel(pre: Self, rect: Rect, align: AlignHints, post: Self) -> bool {
        &&& post.core == (CoreData { id: pre.core.id, rect })
        &&& post.vertical == pre.vertical
        &&& post.storage == pre.storage
        &&& post.hsolved == pre.hsolved
        &&& post.vsolved == pre.vsolved
        &&& post.children@.len() == pre.children@.len()
        &&& if pre.fits(rect) {
            exists|ws: Seq<u32>|
                #[trigger] dist_ok(
                    pre.storage.rules@,
                    crate::layout::sizer::axis_size_of(rect, pre.vertical),
                    ws,
                ) && (forall|i: int|
                    0 <= i < pre.children@.len() ==> W::set_rect_rel(
                        pre.children@[i],
                        line_rect(rect, pre.vertical, pre.storage.rules@, ws, i),
                        align,
                        #[trigger] post.children@[i],
                    ))
        } else {
            // Even the minima cannot be represented in coordinate
            // space; the children keep their rectangles.
            post.children@ == pre.children@
        }
    }

    open spec fn find_id_spec(&self, coord: Coord) -> Option<WidgetId> {
        if !self.core.rect.contains_spec(coord) {
            None
        } else if find_in_children(self.children@, coord) is Some {
            find_in_children(self.children@, coord)
        } else {
            Some(self.core.id)
        }
    }

    fn size_rules(&mut self, axis: AxisInfo) -> (r: SizeRules) {
        let ghost pre = *self;
        let n = self.children.len();
        if axis.is_vertical() == self.vertical {
            let mut solver = RowSolver::new(&mut self.storage);
            let mut i: usize = 0;
            while i < n
                invariant
                    0 <= i <= n,
                    n == self.children@.len(),
                    pre.children@.len() == n,
                    self.core == pre.core,
                    self.vertical == pre.vertical,
                    self.hsolved == pre.hsolved,
                    self.vsolved == pre.vsolved,
                    axis.vertical == pre.vertical,
                    self.storage.rules@.len() == i,
                    all_wf(self.storage.rules@),
                    children_wf(self.children@),
                    forall|k: int|
                        0 <= k < i ==> W::size_rules_rel(
                            pre.children@[k],
                            axis,
                            self.children@[k],
                            #[trigger] self.storage.rules@[k],
                        ),
                    forall|k: int| i <= k < n ==> self.children@[k] == pre.children@[k],
                    forall|k: int|
                        0 <= k < i && !axis.vertical ==> (#[trigger] self.children@[k]).sized_h(),
                    forall|k: int|
                        0 <= k < i && axis.vertical && pre.children@[k].sized_h() ==> (
                        #[trigger] self.children@[k]).sized_h(),
                    forall|k: int|
                        0 <= k < i && axis.vertical ==> (#[trigger] self.children@[k]).sized_v(),
                    forall|k: int|
                        0 <= k < i && !axis.vertical && pre.children@[k].sized_v() ==> (
                        #[trigger] self.children@[k]).sized_v(),
                decreases n - i,
            {
                let child = &mut self.children[i];
                let cr = child.size_rules(axis);
                solver.for_child(&mut self.storage, (), cr);
                i = i + 1;
            }
            let total = solver.finish(&mut self.storage);
            if axis.is_vertical() {
                self.vsolved = true;
            } else {
                self.hsolved = true;
            }
            total
        } else {
            let ghost mut rs: Seq<SizeRules> = Seq::empty();
            let mut acc = SizeRules::empty();
            let mut i: usize = 0;
            while i < n
                invariant
                    0 <= i <= n,
                    n == self.children@.len(),
                    pre.children@.len() == n,
                    self.core == pre.core,
                    self.vertical == pre.vertical,
                    self.hsolved == pre.hsolved,
                    self.vsolved == pre.vsolved,
                    self.storage == pre.storage,
                    axis.vertical != pre.vertical,
                    rs.len() == i,
                    acc.wf(),
                    acc == maxed_all_spec(rs),
                    children_wf(self.children@),
                    forall|k: int|
                        0 <= k < i ==> W::size_rules_rel(
                            pre.children@[k],
                            axis,
                            self.children@[k],
                            #[trigger] rs[k],
                        ),
                    forall|k: int| i <= k < n ==> self.children@[k] == pre.children@[k],
                    forall|k: int|
                        0 <= k < i && !axis.vertical ==> (#[trigger] self.children@[k]).sized_h(),
                    forall|k: int|
                        0 <= k < i && axis.vertical && pre.children@[k].sized_h() ==> (
                        #[trigger] self.children@[k]).sized_h(),
                    forall|k: int|
                        0 <= k < i && axis.vertical ==> (#[trigger] self.children@[k]).sized_v(),
                    forall|k: int|
                        0 <= k < i && !axis.vertical && pre.children@[k].sized_v() ==> (
                        #[trigger] self.children@[k]).sized_v(),
                decreases n - i,
            {
                let child = &mut self.children[i];
                let cr = child.size_rules(axis);
                proof {
                    assert(rs.push(cr).drop_last() =~= rs);
                }
                acc = acc.max_with(cr);
                proof {
                    rs = rs.push(cr);
                }
                i = i + 1;
            }
            if axis.is_vertical() {
                self.vsolved = true;
            } else {
                self.hsolved = true;
            }
            acc
        }
    }

    fn set_rect(&mut self, rect: Rect, align: AlignHints) {
        let ghost pre = *self;
        self.core.rect = rect;
        let n = self.children.len();
        let pos_axis: i32 = if self.vertical {
            rect.pos.y
        } else {
            rect.pos.x
        };
        let m = sum_min_exec(&self.storage.rules);
        let g = sum_gaps_exec(&self.storage.rules);
        let headroom: u128 = (i32::MAX - pos_axis) as u128;
        if m > headroom || g > headroom - m {
            // Even the minima cannot be represented in coordinate
            // space; leave the children where they are.
            return ;
        }
        let mut setter = RowSetter::new(rect, self.vertical, &self.storage);
        let ghost ws = setter.widths_spec();
        let ghost axis_size: u32 = crate::layout::sizer::axis_size_of(rect, pre.vertical);
        let mut i: usize = 0;
        while i < n
            invariant
                0 <= i <= n,
                n == self.children@.len(),
                pre.children@.len() == n,
                pre.storage.rules@.len() == n,
                all_wf(pre.storage.rules@),
                self.core == (CoreData { id: pre.core.id, rect }),
                self.vertical == pre.vertical,
                self.hsolved == pre.hsolved,
                self.vsolved == pre.vsolved,
                self.storage == pre.storage,
                rect.wf(),
                setter.setter_wf(),
                setter.rect_spec() == rect,
                setter.vertical_spec() == pre.vertical,
                setter.widths_spec() == ws,
                ws.len() == n,
                forall|j: int|
                    0 <= j < n ==> #[trigger] setter.offsets_spec()[j] as int == (
                    if pre.vertical {
                        rect.pos.y as int
                    } else {
                        rect.pos.x as int
                    }) + crate::layout::sizer::sum_u32(ws.take(j)) + sum_gaps(
                        pre.storage.rules@.take(j + 1),
                    ),
                children_wf(self.children@),
                children_sized_h(self.children@),
                children_sized_v(self.children@),
                forall|k: int|
                    0 <= k < i ==> W::set_rect_rel(
                        pre.children@[k],
                        line_rect(rect, pre.vertical, pre.storage.rules@, ws, k),
                        align,
                        #[trigger] self.children@[k],
                    ),
                forall|k: int| i <= k < n ==> self.children@[k] == pre.children@[k],
            decreases n - i,
        {
            let cr = setter.child_rect(i);
            proof {
                assert(cr == line_rect(rect, pre.vertical, pre.storage.rules@, ws, i as int));
            }
            let child = &mut self.children[i];
            child.set_rect(cr, align);
            i = i + 1;
        }
        proof {
            assert(dist_ok(pre.storage.rules@, axis_size, ws));
        }
    }

    fn find_id(&self, coord: Coord) -> (r: Option<WidgetId>) {
        if !self.core.rect.contains(coord) {
            return None;
        }
        let n = self.children.len();
        proof {
            assert(self.children@.skip(0) =~= self.children@);
        }
        let mut i: usize = 0;
        while i < n
            invariant
                0 <= i <= n,
                n == self.children@.len(),
                children_wf(self.children@),
                self.core.rect.contains_spec(coord),
                find_in_children(self.children@, coord) == find_in_children(
                    self.children@.skip(i as int),
                    coord,
                ),
            decreases n - i,
        {
            proof {
                assert(self.children@.skip(i as int)[0] == self.children@[i as int]);
                assert(self.children@.skip(i as int).drop_first() =~= self.children@.skip(i + 1));
            }
            let child = &self.children[i];
            let found = child.find_id(coord);
            if found.is_some() {
                return found;
            }
            i = i + 1;
        }
        proof {
            assert(self.children@.skip(n as int) =~= Seq::<W>::empty());
        }
        Some(self.core.id)
    }

    fn rect(&self) -> (r: Rect) {
        self.core.rect
    }

    /// A list draws no chrome of its own: just the children, in order,
    /// so later children paint over earlier siblings.
    open spec fn draw_spec(&self) -> Seq<DrawCmd> {
        draw_all(self.children@)
    }

    fn draw(&self, out: &mut Vec<DrawCmd>) {
        let n = self.children.len();
        proof {
            assert(out@ =~= old(out)@ + draw_all(self.children@.take(0)));
        }
        let mut i: usize = 0;
        while i < n
            invariant
                0 <= i <= n,
                n == self.children@.len(),
                children_wf(self.children@),
                out@ == old(out)@ + draw_all(self.children@.take(i as int)),
            decreases n - i,
        {
            proof {
                lemma_draw_all_step(self.children@, i as int);
            }
            let child = &self.children[i];
            child.draw(out);
            proof {
                assert(out@ =~= old(out)@ + draw_all(self.children@.take(i + 1)));
            }
            i = i + 1;
        }
        proof {
            assert(self.children@.take(n as int) =~= self.children@);
        }
    }
}

} // verus!
