//! The [`SizeRules`] constraint algebra and per-axis query context.

use vstd::prelude::*;

use crate::geom::Size;

verus! {

/// Priorities for stretching widgets beyond their ideal size.
///
/// Higher priorities absorb all extra space before lower priorities
/// receive any.
#[derive(Clone, Copy, Debug, PartialEq, Eq, Structural)]
pub enum Stretch {
    /// No desire to stretch
    Fixed,
    /// Mild preference for extra space
    Low,
    /// Strong preference for extra space
    High,
    /// Consumes space left over by everything else
    Filler,
}

impl Stretch {
    /// Numeric priority; higher stretches first.
    pub open spec fn rank(&self) -> int {
        match *self {
            Stretch::Fixed => 0,
            Stretch::Low => 1,
            Stretch::High => 2,
            Stretch::Filler => 3,
        }
    }

    /// The higher-priority of two stretch values, as a spec value.
    pub open spec fn max_spec(self, other: Stretch) -> Stretch {
        if self.rank() >= other.rank() {
            self
        } else {
            other
        }
    }

    /// Numeric priority; agrees with [`Stretch::rank`].
    pub fn priority(self) -> (r: u8)
        ensures
            r as int == self.rank(),
    {
        match self {
            Stretch::Fixed => 0,
            Stretch::Low => 1,
            Stretch::High => 2,
            Stretch::Filler => 3,
        }
    }

    /// The higher-priority of two stretch values.
    pub fn max_with(self, other: Stretch) -> (r: Stretch)
        ensures
            r == self.max_spec(other),
    {
        if self.priority() >= other.priority() {
            self
        } else {
            other
        }
    }
}

/// External margins of a widget, per axis: `(leading, trailing)` pairs.
#[derive(Clone, Copy, Debug, PartialEq, Eq)]
pub struct Margins {
    /// Margins left and right of the widget
    pub horiz: (u16, u16),
    /// Margins above and below the widget
    pub vert: (u16, u16),
}

impl Margins {
    /// No margins.
    pub fn zero() -> (r: Margins)
        ensures
            r == (Margins { horiz: (0u16, 0u16), vert: (0u16, 0u16) }),
    {
        Margins { horiz: (0, 0), vert: (0, 0) }
    }
}

/// Per-axis size query context.
///
/// The vertical pass may carry the width resolved by the horizontal pass,
/// letting content size its height against a known width.
#[derive(Clone, Copy, Debug, PartialEq, Eq, Structural)]
pub struct AxisInfo {
    /// Which axis is being solved
    pub vertical: bool,
    /// Size of the other axis, when already resolved
    pub fixed: Option<u32>,
}

impl AxisInfo {
    /// Construct.
    pub fn new(vertical: bool, fixed: Option<u32>) -> (r: AxisInfo)
        ensures
            r == (AxisInfo { vertical, fixed }),
    {
        AxisInfo { vertical, fixed }
    }

    /// Whether the vertical axis is being solved.
    pub fn is_vertical(self) -> (r: bool)
        ensures
            r == self.vertical,
    {
        self.vertical
    }

    /// Whether the horizontal axis is being solved.
    pub fn is_horizontal(self) -> (r: bool)
        ensures
            r == !self.vertical,
    {
        !self.vertical
    }

    /// Size of the other axis, when already resolved.
    pub fn size_other_axis(self) -> (r: Option<u32>)
        ensures
            r == self.fixed,
    {
        self.fixed
    }
}

/// A one-dimensional size constraint: minimum and ideal size, stretch
/// priority, and external margins along the solved axis.
///
/// Sizes saturate at `u32::MAX` when combined.
#[derive(Clone, Copy, Debug, PartialEq, Eq)]
pub struct SizeRules {
    /// The minimum acceptable size
    pub min: u32,
    /// The ideal size; never less than `min`
    pub ideal: u32,
    /// External margins: `(leading, trailing)`
    pub margins: (u16, u16),
    /// Stretch priority
    pub stretch: Stretch,
}

impl SizeRules {
    /// Validity: the minimum never exceeds the ideal.
    pub open spec fn wf(&self) -> bool {
        self.min <= self.ideal
    }

    /// The empty constraint, as a spec value.
    pub open spec fn empty_spec() -> SizeRules {
        SizeRules { min: 0, ideal: 0, margins: (0u16, 0u16), stretch: Stretch::Fixed }
    }

    /// The empty constraint: no size, no margins, no stretch.
    ///
    /// This is the result for a container without children, and the
    /// identity for sequential combination on the trailing side.
    pub fn empty() -> (r: SizeRules)
        ensures
            r == SizeRules::empty_spec(),
            r.wf(),
    {
        SizeRules { min: 0, ideal: 0, margins: (0, 0), stretch: Stretch::Fixed }
    }

    /// Construct from parts.
    pub fn new(min: u32, ideal: u32, margins: (u16, u16), stretch: Stretch) -> (r: SizeRules)
        requires
            min <= ideal,
        ensures
            r == (SizeRules { min, ideal, margins, stretch }),
            r.wf(),
    {
        SizeRules { min, ideal, margins, stretch }
    }

    /// A fixed constraint: minimum and ideal both `size`, no stretch.
    pub fn fixed(size: u32, margins: (u16, u16)) -> (r: SizeRules)
        ensures
            r == (SizeRules { min: size, ideal: size, margins, stretch: Stretch::Fixed }),
            r.wf(),
    {
        SizeRules { min: size, ideal: size, margins, stretch: Stretch::Fixed }
    }

    /// A fixed constraint for one axis of a two-dimensional size, taking
    /// that axis's component and margins.
    pub fn extract_fixed(vertical: bool, size: Size, margins: &Margins) -> (r: SizeRules)
        ensures
            r == (SizeRules {
                min: if vertical { size.h } else { size.w },
                ideal: if vertical { size.h } else { size.w },
                margins: if vertical { margins.vert } else { margins.horiz },
                stretch: Stretch::Fixed,
            }),
            r.wf(),
    {
        if vertical {
            SizeRules { min: size.h, ideal: size.h, margins: margins.vert, stretch: Stretch::Fixed }
        } else {
            SizeRules { min: size.w, ideal: size.w, margins: margins.horiz, stretch: Stretch::Fixed }
        }
    }

    /// Sequential composition, as a spec value: sizes sum (saturating),
    /// the outer margins survive, and the higher stretch priority wins.
    /// The inner margins collapse into the spacing the solver accounts
    /// separately; see [`margin_between`].
    pub open spec fn appended_spec(self, rhs: SizeRules) -> SizeRules {
        SizeRules {
            min: sat_add_u32(self.min, rhs.min),
            ideal: sat_add_u32(self.ideal, rhs.ideal),
            margins: (self.margins.0, rhs.margins.1),
            stretch: self.stretch.max_spec(rhs.stretch),
        }
    }

    /// Sequential composition: stack `rhs` after `self` on the solved axis.
    pub fn appended(self, rhs: SizeRules) -> (r: SizeRules)
        ensures
            r == self.appended_spec(rhs),
            self.wf() && rhs.wf() ==> r.wf(),
    {
        SizeRules {
            min: self.min.saturating_add(rhs.min),
            ideal: self.ideal.saturating_add(rhs.ideal),
            margins: (self.margins.0, rhs.margins.1),
            stretch: self.stretch.max_with(rhs.stretch),
        }
    }

    /// Parallel composition, as a spec value: each component is the
    /// maximum across both constraints.
    pub open spec fn max_with_spec(self, rhs: SizeRules) -> SizeRules {
        SizeRules {
            min: if self.min >= rhs.min { self.min } else { rhs.min },
            ideal: if self.ideal >= rhs.ideal { self.ideal } else { rhs.ideal },
            margins: (
                if self.margins.0 >= rhs.margins.0 { self.margins.0 } else { rhs.margins.0 },
                if self.margins.1 >= rhs.margins.1 { self.margins.1 } else { rhs.margins.1 },
            ),
            stretch: self.stretch.max_spec(rhs.stretch),
        }
    }

    /// Parallel composition: the constraint of two overlapping widgets.
    pub fn max_with(self, rhs: SizeRules) -> (r: SizeRules)
        ensures
            r == self.max_with_spec(rhs),
            self.wf() && rhs.wf() ==> r.wf(),
    {
        SizeRules {
            min: if self.min >= rhs.min { self.min } else { rhs.min },
            ideal: if self.ideal >= rhs.ideal { self.ideal } else { rhs.ideal },
            margins: (
                if self.margins.0 >= rhs.margins.0 { self.margins.0 } else { rhs.margins.0 },
                if self.margins.1 >= rhs.margins.1 { self.margins.1 } else { rhs.margins.1 },
            ),
            stretch: self.stretch.max_with(rhs.stretch),
        }
    }

    /// Wrapping inside a frame, as a spec value: the frame's fixed size
    /// is added to the content's; with `include_margins` the content's
    /// own margins are absorbed into the size as well. The frame's
    /// margins and the higher stretch priority survive.
    pub open spec fn surrounded_by_spec(self, frame: SizeRules, include_margins: bool) -> SizeRules {
        let extra: u32 = if include_margins {
            (self.margins.0 + self.margins.1) as u32
        } else {
            0
        };
        SizeRules {
            min: sat_add_u32(sat_add_u32(self.min, frame.min), extra),
            ideal: sat_add_u32(sat_add_u32(self.ideal, frame.ideal), extra),
            margins: frame.margins,
            stretch: self.stretch.max_spec(frame.stretch),
        }
    }

    /// Wrap these rules inside a frame's fixed extra size, as used by
    /// bordered and scrollable containers.
    pub fn surrounded_by(self, frame: SizeRules, include_margins: bool) -> (r: SizeRules)
        ensures
            r == self.surrounded_by_spec(frame, include_margins),
            self.wf() && frame.wf() ==> r.wf(),
    {
        let extra: u32 = if include_margins {
            self.margins.0 as u32 + self.margins.1 as u32
        } else {
            0
        };
        SizeRules {
            min: self.min.saturating_add(frame.min).saturating_add(extra),
            ideal: self.ideal.saturating_add(frame.ideal).saturating_add(extra),
            margins: frame.margins,
            stretch: self.stretch.max_with(frame.stretch),
        }
    }
}

/// The number of layout units a text occupies horizontally: one per
/// encoded byte.
pub open spec fn text_units(s: Seq<char>) -> int {
    (vstd::utf8::encode_utf8(s).len() as usize) as int
}

/// Saturating `u32` addition, as a spec value.
pub open spec fn sat_add_u32(a: u32, b: u32) -> u32 {
    if a + b > u32::MAX {
        u32::MAX
    } else {
        (a + b) as u32
    }
}

/// The collapsed margin between two adjacent children: the larger of the
/// two adjoining margins, not their sum, to avoid double spacing.
pub open spec fn margin_between_spec(a: SizeRules, b: SizeRules) -> u16 {
    if a.margins.1 >= b.margins.0 {
        a.margins.1
    } else {
        b.margins.0
    }
}

/// The collapsed margin between two adjacent children.
pub fn margin_between(a: &SizeRules, b: &SizeRules) -> (r: u16)
    ensures
        r == margin_between_spec(*a, *b),
{
    if a.margins.1 >= b.margins.0 {
        a.margins.1
    } else {
        b.margins.0
    }
}

/// Sum of the minimum sizes over a sequence of constraints.
pub open spec fn sum_min(s: Seq<SizeRules>) -> int
    decreases s.len(),
{
    if s.len() == 0 {
        0
    } else {
        sum_min(s.drop_last()) + s.last().min
    }
}

/// Sum of the ideal sizes over a sequence of constraints.
pub open spec fn sum_ideal(s: Seq<SizeRules>) -> int
    decreases s.len(),
{
    if s.len() == 0 {
        0
    } else {
        sum_ideal(s.drop_last()) + s.last().ideal
    }
}

/// The largest minimum size over a sequence of constraints.
pub open spec fn max_min(s: Seq<SizeRules>) -> int
    decreases s.len(),
{
    if s.len() == 0 {
        0
    } else if max_min(s.drop_last()) >= s.last().min {
        max_min(s.drop_last())
    } else {
        s.last().min as int
    }
}

/// The largest ideal size over a sequence of constraints.
pub open spec fn max_ideal(s: Seq<SizeRules>) -> int
    decreases s.len(),
{
    if s.len() == 0 {
        0
    } else if max_ideal(s.drop_last()) >= s.last().ideal {
        max_ideal(s.drop_last())
    } else {
        s.last().ideal as int
    }
}

/// The highest stretch priority over a sequence of constraints.
pub open spec fn max_rank(s: Seq<SizeRules>) -> int
    decreases s.len(),
{
    if s.len() == 0 {
        0
    } else if max_rank(s.drop_last()) >= s.last().stretch.rank() {
        max_rank(s.drop_last())
    } else {
        s.last().stretch.rank()
    }
}

/// Sum of the collapsed margins between adjacent children.
pub open spec fn sum_gaps(s: Seq<SizeRules>) -> int
    decreases s.len(),
{
    if s.len() <= 1 {
        0
    } else {
        sum_gaps(s.drop_last()) + margin_between_spec(s[s.len() - 2], s.last())
    }
}

/// Sequential combination of a whole sequence, pairwise in positional
/// order.
pub open spec fn appended_all_spec(s: Seq<SizeRules>) -> SizeRules
    decreases s.len(),
{
    if s.len() == 0 {
        SizeRules::empty_spec()
    } else if s.len() == 1 {
        s[0]
    } else {
        appended_all_spec(s.drop_last()).appended_spec(s.last())
    }
}

/// Parallel combination of a whole sequence.
pub open spec fn maxed_all_spec(s: Seq<SizeRules>) -> SizeRules
    decreases s.len(),
{
    if s.len() == 0 {
        SizeRules::empty_spec()
    } else {
        maxed_all_spec(s.drop_last()).max_with_spec(s.last())
    }
}

/// All sums of minima are non-negative.
pub proof fn lemma_sum_min_nonneg(s: Seq<SizeRules>)
    ensures
        sum_min(s) >= 0,
        sum_ideal(s) >= 0,
        sum_gaps(s) >= 0,
    decreases s.len(),
{
    if s.len() > 0 {
        lemma_sum_min_nonneg(s.drop_last());
    }
}

/// Sequential combination sums: over any sequence of constraints, the
/// combined minimum and ideal equal the sums of the children's values
/// (saturating at `u32::MAX`), and the combined stretch priority is the
/// maximum across the sequence.
pub proof fn lemma_appended_all_sums(s: Seq<SizeRules>)
    ensures
        appended_all_spec(s).min as int == if sum_min(s) <= u32::MAX {
            sum_min(s)
        } else {
            u32::MAX as int
        },
        appended_all_spec(s).ideal as int == if sum_ideal(s) <= u32::MAX {
            sum_ideal(s)
        } else {
            u32::MAX as int
        },
        appended_all_spec(s).stretch.rank() == max_rank(s),
        s.len() > 0 ==> appended_all_spec(s).margins == (s[0].margins.0, s.last().margins.1),
        (forall|i: int| 0 <= i < s.len() ==> s[i].wf()) ==> appended_all_spec(s).wf(),
    decreases s.len(),
{
    lemma_sum_min_nonneg(s);
    if s.len() == 1 {
        assert(sum_min(s.drop_last()) == 0);
        assert(sum_ideal(s.drop_last()) == 0);
        assert(max_rank(s.drop_last()) == 0);
    } else if s.len() > 1 {
        lemma_appended_all_sums(s.drop_last());
        lemma_sum_min_nonneg(s.drop_last());
        assert(s.drop_last()[0] == s[0]);
    }
}

/// Parallel combination maxima: over any sequence of constraints, the
/// combined minimum and ideal equal the maxima of the children's values,
/// and the combined stretch priority is the maximum across the sequence.
pub proof fn lemma_maxed_all_maxima(s: Seq<SizeRules>)
    ensures
        maxed_all_spec(s).min as int == max_min(s),
        maxed_all_spec(s).ideal as int == max_ideal(s),
        maxed_all_spec(s).stretch.rank() == max_rank(s),
        (forall|i: int| 0 <= i < s.len() ==> s[i].wf()) ==> maxed_all_spec(s).wf(),
    decreases s.len(),
{
    if s.len() > 0 {
        lemma_maxed_all_maxima(s.drop_last());
    }
}

/// Sequential combination is associative in the sizes and the stretch
/// priority, so repeated pairwise combination over a sequence gives a
/// result independent of grouping for those components. Margins are
/// positional (the outer pair survives), so the solver combines
/// children strictly in positional order.
pub proof fn lemma_appended_assoc(a: SizeRules, b: SizeRules, c: SizeRules)
    ensures
        a.appended_spec(b).appended_spec(c).min == a.appended_spec(b.appended_spec(c)).min,
        a.appended_spec(b).appended_spec(c).ideal == a.appended_spec(b.appended_spec(c)).ideal,
        a.appended_spec(b).appended_spec(c).stretch == a.appended_spec(b.appended_spec(c)).stretch,
        a.appended_spec(b).appended_spec(c).margins == a.appended_spec(b.appended_spec(c)).margins,
{
}

/// Parallel combination is associative outright.
pub proof fn lemma_max_with_assoc(a: SizeRules, b: SizeRules, c: SizeRules)
    ensures
        a.max_with_spec(b).max_with_spec(c) == a.max_with_spec(b.max_with_spec(c)),
{
}

/// Surrounding the empty constraint by a frame yields exactly the
/// frame's own rules.
pub proof fn lemma_surrounded_by_empty(frame: SizeRules)
    ensures
        SizeRules::empty_spec().surrounded_by_spec(frame, true) == frame,
{
}

} // verus!
