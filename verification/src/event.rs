//! Event handling: input events, responses, and the cross-cutting
//! session state consulted during dispatch.
//!
//! The central piece is [`Manager`]: it tracks press grabs (an exclusive
//! claim by one widget over all events from a press source), queued
//! redraws, and the most severe toolkit action requested during the
//! current dispatch turn.

use vstd::prelude::*;

use crate::geom::Coord;
use crate::toolkit::TkAction;

verus! {

/// A widget identity: stable over the widget's lifetime.
#[derive(Clone, Copy, Debug, PartialEq, Eq, Hash, Structural)]
pub struct WidgetId(pub u64);

/// An opaque correlation token a data source advertises so views can
/// subscribe to out-of-band change notifications.
#[derive(Clone, Copy, Debug, PartialEq, Eq, Hash, Structural)]
pub struct UpdateHandle(pub u64);

/// Source of a press event: a mouse button or a touch point.
#[derive(Clone, Copy, Debug, PartialEq, Eq, Hash, Structural)]
pub enum PressSource {
    /// A mouse button, by index
    Mouse(u8),
    /// A touch point, by system identifier
    Touch(u64),
}

/// An input event delivered to a widget.
#[derive(Clone, Copy, Debug, PartialEq, Eq, Structural)]
pub enum Event {
    /// A mouse button was pressed or a touch started over the widget
    PressStart {
        /// Which button or touch
        source: PressSource,
        /// Position of the press
        coord: Coord,
    },
    /// The pointer moved while pressed
    PressMove {
        /// Which button or touch
        source: PressSource,
        /// New position
        coord: Coord,
    },
    /// The press ended
    PressEnd {
        /// Which button or touch
        source: PressSource,
        /// Final position
        coord: Coord,
    },
}

/// A widget's response to an event.
#[derive(Clone, Copy, Debug, PartialEq, Eq, Structural)]
pub enum Response<M> {
    /// The event was handled (or ignored) without a message
    Nothing,
    /// The event produced a message for the parent
    Msg(M),
}

/// An active press grab: `id` receives all further events from `source`.
#[derive(Clone, Copy, Debug, PartialEq, Eq, Structural)]
pub struct Grab {
    /// The press source being grabbed
    pub source: PressSource,
    /// The widget holding the grab
    pub id: WidgetId,
}

/// The widget holding a grab on `source`: the first matching entry.
pub open spec fn find_grab(s: Seq<Grab>, source: PressSource) -> Option<WidgetId>
    decreases s.len(),
{
    if s.len() == 0 {
        None
    } else if s[0].source == source {
        Some(s[0].id)
    } else {
        find_grab(s.drop_first(), source)
    }
}

/// Event manager session state.
///
/// One value lives per window; it is passed by exclusive reference into
/// every event call, so no two widgets mutate it concurrently.
#[derive(Clone, Debug)]
pub struct Manager {
    /// Active press grabs; at most one per press source
    grabs: Vec<Grab>,
    /// Widgets needing a redraw this turn
    redraws: Vec<WidgetId>,
    /// The most severe toolkit action requested this turn
    action: TkAction,
}

impl Manager {
    /// The grabs currently held.
    pub closed spec fn grabs_spec(&self) -> Seq<Grab> {
        self.grabs@
    }

    /// The redraws queued this turn.
    pub closed spec fn redraws_spec(&self) -> Seq<WidgetId> {
        self.redraws@
    }

    /// The action accumulated this turn.
    pub closed spec fn action_spec(&self) -> TkAction {
        self.action
    }

    /// At most one grab per press source.
    pub open spec fn wf(&self) -> bool {
        forall|i: int, j: int|
            0 <= i < j < self.grabs_spec().len() ==> self.grabs_spec()[i].source
                != self.grabs_spec()[j].source
    }

    /// Whether some widget holds a grab on `source`.
    pub open spec fn has_grab(&self, source: PressSource) -> bool {
        find_grab(self.grabs_spec(), source) is Some
    }

    /// The widget holding a grab on `source`, if any.
    pub open spec fn holder(&self, source: PressSource) -> Option<WidgetId> {
        find_grab(self.grabs_spec(), source)
    }

    /// The outcome of a grab request, as a spec value: the new grab set
    /// and whether the request succeeded. A request succeeds exactly
    /// when no grab on `source` is active; the first requester holds
    /// exclusivity for the source's lifetime.
    pub open spec fn grab_outcome(grabs: Seq<Grab>, id: WidgetId, source: PressSource) -> (
        Seq<Grab>,
        bool,
    ) {
        if find_grab(grabs, source) is Some {
            (grabs, false)
        } else {
            (grabs.push(Grab { source, id }), true)
        }
    }

    /// A fresh session: no grabs, no redraws, no action.
    pub fn new() -> (r: Manager)
        ensures
            r.grabs_spec() == Seq::<Grab>::empty(),
            r.redraws_spec() == Seq::<WidgetId>::empty(),
            r.action_spec() == TkAction::Nothing,
            r.wf(),
    {
        Manager { grabs: Vec::new(), redraws: Vec::new(), action: TkAction::Nothing }
    }

    /// Look up the widget holding a grab on `source`.
    pub fn grab_target(&self, source: PressSource) -> (r: Option<WidgetId>)
        ensures
            r == self.holder(source),
    {
        let n = self.grabs.len();
        proof {
            assert(self.grabs@.skip(0) =~= self.grabs@);
        }
        let mut i: usize = 0;
        while i < n
            invariant
                0 <= i <= n,
                n == self.grabs@.len(),
                find_grab(self.grabs@, source) == find_grab(self.grabs@.skip(i as int), source),
            decreases n - i,
        {
            let g = self.grabs[i];
            proof {
                assert(self.grabs@.skip(i as int)[0] == self.grabs@[i as int]);
                assert(self.grabs@.skip(i as int).drop_first() =~= self.grabs@.skip(i + 1));
            }
            if g.source_eq(source) {
                return Some(g.id);
            }
            i = i + 1;
        }
        proof {
            assert(self.grabs@.skip(n as int) =~= Seq::<Grab>::empty());
        }
        None
    }

    /// Where a press event must be delivered while a grab is active,
    /// as a spec value: press moves and ends carrying a grabbed source
    /// go to the grab holder alone; everything else passes through
    /// generic handling.
    pub open spec fn press_target_spec(&self, ev: Event) -> Option<WidgetId> {
        match ev {
            Event::PressStart { source, coord } => None,
            Event::PressMove { source, coord } => self.holder(source),
            Event::PressEnd { source, coord } => self.holder(source),
        }
    }

    /// The widget a press event must be delivered to, if a grab claims
    /// it.
    pub fn press_target(&self, ev: &Event) -> (r: Option<WidgetId>)
        ensures
            r == self.press_target_spec(*ev),
    {
        match ev {
            Event::PressStart { .. } => None,
            Event::PressMove { source, .. } => self.grab_target(*source),
            Event::PressEnd { source, .. } => self.grab_target(*source),
        }
    }

    /// Request an exclusive grab on `source` for widget `id`.
    ///
    /// Returns true and records the grab when no grab on `source` is
    /// active; otherwise leaves the session unchanged and returns false.
    pub fn request_grab(&mut self, id: WidgetId, source: PressSource) -> (r: bool)
        requires
            old(self).wf(),
        ensures
            final(self).wf(),
            r == Manager::grab_outcome(old(self).grabs_spec(), id, source).1,
            final(self).grabs_spec() == Manager::grab_outcome(
                old(self).grabs_spec(),
                id,
                source,
            ).0,
            r == !old(self).has_grab(source),
            final(self).redraws_spec() == old(self).redraws_spec(),
            final(self).action_spec() == old(self).action_spec(),
    {
        match self.grab_target(source) {
            Some(_) => false,
            None => {
                proof {
                    lemma_find_grab_none(self.grabs@, source);
                }
                self.grabs.push(Grab { source, id });
                proof {
                    lemma_unique_push(old(self).grabs@, Grab { source, id });
                }
                true
            },
        }
    }

    /// Release the grab on `source`, if any. Grabs on other sources are
    /// unaffected.
    pub fn end_grab(&mut self, source: PressSource)
        requires
            old(self).wf(),
        ensures
            final(self).wf(),
            !final(self).has_grab(source),
            forall|s2: PressSource|
                s2 != source ==> final(self).holder(s2) == old(self).holder(s2),
            final(self).redraws_spec() == old(self).redraws_spec(),
            final(self).action_spec() == old(self).action_spec(),
    {
        let n = self.grabs.len();
        let mut i: usize = 0;
        while i < n
            invariant
                0 <= i <= n,
                n == self.grabs@.len(),
                *self == *old(self),
                old(self).wf(),
                forall|k: int| 0 <= k < i ==> self.grabs@[k].source != source,
            decreases n - i,
        {
            let g = self.grabs[i];
            if g.source_eq(source) {
                self.grabs.remove(i);
                proof {
                    lemma_remove_grab(old(self).grabs@, i as int, source);
                }
                return ;
            }
            i = i + 1;
        }
        proof {
            lemma_no_match_no_grab(self.grabs@, source);
            assert forall|s2: PressSource| s2 != source implies self.holder(s2) == old(self).holder(
                s2,
            ) by {}
        }
    }

    /// Queue a redraw of the widget `id` and record that the window
    /// needs redrawing.
    pub fn redraw(&mut self, id: WidgetId)
        ensures
            final(self).redraws_spec() == old(self).redraws_spec().push(id),
            final(self).action_spec() == old(self).action_spec().max_spec(TkAction::Redraw),
            final(self).grabs_spec() == old(self).grabs_spec(),
            old(self).wf() ==> final(self).wf(),
    {
        self.redraws.push(id);
        self.action = self.action.max_with(TkAction::Redraw);
    }

    /// Record that a toolkit action should happen; the most severe
    /// action requested this turn wins.
    pub fn send_action(&mut self, action: TkAction)
        ensures
            final(self).action_spec() == old(self).action_spec().max_spec(action),
            final(self).redraws_spec() == old(self).redraws_spec(),
            final(self).grabs_spec() == old(self).grabs_spec(),
            old(self).wf() ==> final(self).wf(),
    {
        self.action = self.action.max_with(action);
    }

    /// Take the action accumulated this dispatch turn, resetting it, so
    /// repeated internal signals collapse to one externally visible
    /// action.
    pub fn take_action(&mut self) -> (r: TkAction)
        ensures
            r == old(self).action_spec(),
            final(self).action_spec() == TkAction::Nothing,
            final(self).redraws_spec() == old(self).redraws_spec(),
            final(self).grabs_spec() == old(self).grabs_spec(),
            old(self).wf() ==> final(self).wf(),
    {
        let r = self.action;
        self.action = TkAction::Nothing;
        r
    }
}

impl Grab {
    /// Whether this grab's source equals `source`.
    pub fn source_eq(&self, source: PressSource) -> (r: bool)
        ensures
            r == (self.source == source),
    {
        match (self.source, source) {
            (PressSource::Mouse(a), PressSource::Mouse(b)) => a == b,
            (PressSource::Touch(a), PressSource::Touch(b)) => a == b,
            _ => false,
        }
    }
}

/// If no entry matches `source`, there is no grab on it.
proof fn lemma_no_match_no_grab(s: Seq<Grab>, source: PressSource)
    requires
        forall|k: int| 0 <= k < s.len() ==> s[k].source != source,
    ensures
        find_grab(s, source) is None,
    decreases s.len(),
{
    if s.len() > 0 {
        lemma_no_match_no_grab(s.drop_first(), source);
    }
}

/// If there is no grab on `source`, no entry matches it.
proof fn lemma_find_grab_none(s: Seq<Grab>, source: PressSource)
    requires
        find_grab(s, source) is None,
    ensures
        forall|k: int| 0 <= k < s.len() ==> s[k].source != source,
    decreases s.len(),
{
    if s.len() > 0 {
        lemma_find_grab_none(s.drop_first(), source);
        assert forall|k: int| 0 <= k < s.len() implies s[k].source != source by {
            if k > 0 {
                assert(s.drop_first()[k - 1] == s[k]);
            }
        }
    }
}

/// Appending an entry for a new source keeps lookups of other sources
/// and establishes the new one.
proof fn lemma_unique_push(s: Seq<Grab>, g: Grab)
    requires
        find_grab(s, g.source) is None,
    ensures
        find_grab(s.push(g), g.source) == Some(g.id),
        forall|s2: PressSource| s2 != g.source ==> find_grab(s.push(g), s2) == find_grab(s, s2),
    decreases s.len(),
{
    if s.len() == 0 {
        assert(s.push(g)[0] == g);
        assert(find_grab(s.push(g), g.source) == Some(g.id));
        assert forall|s2: PressSource|
            s2 != g.source implies find_grab(s.push(g), s2) == find_grab(s, s2) by {
            assert(find_grab(Seq::<Grab>::empty(), s2) is None);
            assert(s.push(g).drop_first() =~= Seq::<Grab>::empty());
            assert(find_grab(s.push(g), s2) is None);
        }
    } else {
        lemma_unique_push(s.drop_first(), g);
        assert(s.push(g)[0] == s[0]);
        assert(s.push(g).drop_first() =~= s.drop_first().push(g));
        assert(s[0].source != g.source);
        assert(find_grab(s.push(g), g.source) == Some(g.id));
        assert forall|s2: PressSource|
            s2 != g.source implies find_grab(s.push(g), s2) == find_grab(s, s2) by {
            if s[0].source != s2 {
                assert(find_grab(s.push(g), s2) == find_grab(s.drop_first().push(g), s2));
                assert(find_grab(s, s2) == find_grab(s.drop_first(), s2));
            }
        }
    }
}

/// Removing the first entry matching `source` releases exactly that
/// grab, given sources are unique.
proof fn lemma_remove_grab(s: Seq<Grab>, i: int, source: PressSource)
    requires
        0 <= i < s.len(),
        s[i].source == source,
        forall|k: int| 0 <= k < i ==> s[k].source != source,
        forall|p: int, q: int| 0 <= p < q < s.len() ==> s[p].source != s[q].source,
    ensures
        find_grab(s.remove(i), source) is None,
        forall|s2: PressSource| s2 != source ==> find_grab(s.remove(i), s2) == find_grab(s, s2),
        forall|p: int, q: int|
            0 <= p < q < s.remove(i).len() ==> s.remove(i)[p].source != s.remove(i)[q].source,
    decreases s.len(),
{
    let t = s.remove(i);
    assert forall|k: int| 0 <= k < t.len() implies t[k].source != source by {
        if k < i {
            assert(t[k] == s[k]);
        } else {
            assert(t[k] == s[k + 1]);
        }
    }
    lemma_no_match_no_grab(t, source);
    assert forall|s2: PressSource| s2 != source implies find_grab(t, s2) == find_grab(s, s2) by {
        lemma_find_skip_agree(s, i, s2);
    }
}

/// Lookups for sources other than the one at position `i` ignore the
/// removal of position `i`.
proof fn lemma_find_skip_agree(s: Seq<Grab>, i: int, s2: PressSource)
    requires
        0 <= i < s.len(),
        s[i].source != s2,
    ensures
        find_grab(s.remove(i), s2) == find_grab(s, s2),
    decreases s.len(),
{
    if i == 0 {
        assert(s.remove(0) =~= s.drop_first());
    } else {
        assert(s.remove(i)[0] == s[0]);
        if s[0].source == s2 {
        } else {
            assert(s.remove(i).drop_first() =~= s.drop_first().remove(i - 1));
            lemma_find_skip_agree(s.drop_first(), i - 1, s2);
        }
    }
}

/// Event-handling capability of a widget.
///
/// Each implementation fixes the meaning of its relation spec function,
/// so concrete calls see the widget's exact event behaviour; generic
/// code still knows that the session stays well formed.
pub trait Handler: Sized {
    /// Type of messages returned to the parent.
    type Msg;

    /// Internal consistency of the handler's own data.
    spec fn handler_wf(&self) -> bool;

    /// Exact behaviour of `event`, fixed per implementation.
    spec fn event_rel(
        pre: Self,
        pre_mgr: Manager,
        id: WidgetId,
        ev: Event,
        post: Self,
        post_mgr: Manager,
        r: Response<Self::Msg>,
    ) -> bool;

    /// Handle an event addressed to widget `id`, consulting and updating
    /// the session state.
    fn event(&mut self, mgr: &mut Manager, id: WidgetId, ev: Event) -> (r: Response<Self::Msg>)
        requires
            old(self).handler_wf(),
            old(mgr).wf(),
        ensures
            final(self).handler_wf(),
            final(mgr).wf(),
            Self::event_rel(*old(self), *old(mgr), id, ev, *final(self), *final(mgr), r),
    ;
}

/// Press-grab exclusivity: when two grab requests for the same press
/// source arrive in turn (from any two widgets), the first succeeds and
/// the second is rejected, whatever the session held before, provided no
/// grab on that source was active initially.
pub proof fn lemma_grab_exclusive(g0: Seq<Grab>, w1: WidgetId, w2: WidgetId, source: PressSource)
    requires
        find_grab(g0, source) is None,
    ensures
        Manager::grab_outcome(g0, w1, source).1 == true,
        Manager::grab_outcome(Manager::grab_outcome(g0, w1, source).0, w2, source).1 == false,
{
    let g1 = Manager::grab_outcome(g0, w1, source).0;
    lemma_unique_push(g0, Grab { source, id: w1 });
    assert(g1 == g0.push(Grab { source, id: w1 }));
}

} // verus!
