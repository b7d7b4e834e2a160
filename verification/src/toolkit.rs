//! Toolkit interface: the actions a widget tree reports upward and the
//! window-side services a shell provides.

use vstd::prelude::*;

use crate::event::WidgetId;
use crate::geom::Size;
use crate::layout::AxisInfo;
use crate::layout::SizeRules;

verus! {

/// Toolkit actions needed after event handling, if any.
///
/// Actions are ordered by severity and combine by taking the most severe,
/// so repeated internal signals collapse to one externally visible action
/// per dispatch turn.
#[derive(Clone, Copy, Debug, PartialEq, Eq, Structural)]
pub enum TkAction {
    /// No action needed
    Nothing,
    /// Whole window requires redrawing
    Redraw,
    /// Whole window requires reconfigure *and* redrawing
    Reconfigure,
    /// Window should be closed
    Close,
    /// All windows should close (toolkit exit)
    CloseAll,
}

impl TkAction {
    /// Severity: more invasive actions rank higher.
    pub open spec fn rank(&self) -> int {
        match *self {
            TkAction::Nothing => 0,
            TkAction::Redraw => 1,
            TkAction::Reconfigure => 2,
            TkAction::Close => 3,
            TkAction::CloseAll => 4,
        }
    }

    /// The more severe of two actions, as a spec value.
    pub open spec fn max_spec(self, other: TkAction) -> TkAction {
        if self.rank() >= other.rank() {
            self
        } else {
            other
        }
    }

    /// Combine two actions: the most severe wins.
    pub fn max_with(self, other: TkAction) -> (r: TkAction)
        ensures
            r == self.max_spec(other),
            r.rank() >= self.rank() && r.rank() >= other.rank(),
            r == self || r == other,
    {
        let a: u8 = self.severity();
        let b: u8 = other.severity();
        if a >= b {
            self
        } else {
            other
        }
    }

    /// Severity as a number; agrees with [`TkAction::rank`].
    pub fn severity(self) -> (r: u8)
        ensures
            r as int == self.rank(),
    {
        match self {
            TkAction::Nothing => 0,
            TkAction::Redraw => 1,
            TkAction::Reconfigure => 2,
            TkAction::Close => 3,
            TkAction::CloseAll => 4,
        }
    }
}

/// Combining actions is commutative in severity and monotone: the result
/// is at least as severe as each argument, and combining in either order
/// gives a result of the same severity.
pub proof fn lemma_tk_action_union(a: TkAction, b: TkAction)
    ensures
        a.max_spec(b).rank() >= a.rank(),
        a.max_spec(b).rank() >= b.rank(),
        a.max_spec(b).rank() == b.max_spec(a).rank(),
        a.max_spec(b) == a || a.max_spec(b) == b,
{
}

/// Error type returned by shell proxy handles.
///
/// This error occurs only if the toolkit already terminated.
#[derive(Clone, Copy, Debug, PartialEq, Eq, Structural)]
pub struct ClosedError;

/// Toolkit-specific window management interface.
///
/// A shell implements this on a window handle; widgets receive an existing
/// reference during event handling. The methods carry no contracts: the
/// core states what holds of its own state whatever the shell does.
pub trait TkWindow {
    /// Notify that the widget `id` must be redrawn.
    fn redraw(&mut self, id: WidgetId);

    /// Notify that a toolkit action should happen, e.g. application exit.
    fn send_action(&mut self, action: TkAction);

    /// Widget size preferences for styled content, queried per axis.
    fn size_rules(&mut self, content: Size, axis: AxisInfo) -> SizeRules;
}

} // verus!
