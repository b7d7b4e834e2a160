//! Text label widget.

use vstd::prelude::*;

use crate::draw::DrawCmd;
use crate::draw::TextClass;
use crate::event::WidgetId;
use crate::geom::Coord;
use crate::geom::Rect;
use crate::layout::size_rules::text_units;
use crate::layout::sizer::clamp_u32;
use crate::layout::AlignHints;
use crate::layout::AxisInfo;
use crate::layout::Layout;
use crate::layout::SizeRules;
use crate::layout::Stretch;
use crate::widget::CoreData;

verus! {

/// A simple text sizing model: a fixed advance per encoded byte of
/// text and a fixed line height.
///
/// A real shell would query a font and theme for these; the layout core
/// only needs the resulting numbers, so they are plain values here.
#[derive(Clone, Copy, Debug, PartialEq, Eq, Structural)]
pub struct TextMetrics {
    /// Horizontal advance per encoded byte of text
    pub char_w: u16,
    /// Height of one line of text
    pub line_h: u16,
    /// External margin on every side
    pub margin: u16,
}

impl TextMetrics {
    /// A plain default: 8 units per byte, 18 per line, 2 of margin.
    pub fn default_metrics() -> (r: TextMetrics)
        ensures
            r == (TextMetrics { char_w: 8u16, line_h: 18u16, margin: 2u16 }),
    {
        TextMetrics { char_w: 8, line_h: 18, margin: 2 }
    }
}

/// The size constraint of a label along one axis, as a spec value.
pub open spec fn label_rules_spec(metrics: TextMetrics, text: Seq<char>, vertical: bool)
    -> SizeRules {
    if vertical {
        SizeRules {
            min: metrics.line_h as u32,
            ideal: metrics.line_h as u32,
            margins: (metrics.margin, metrics.margin),
            stretch: Stretch::Fixed,
        }
    } else {
        SizeRules {
            min: clamp_u32(metrics.char_w as int * text_units(text)),
            ideal: clamp_u32(metrics.char_w as int * text_units(text)),
            margins: (metrics.margin, metrics.margin),
            stretch: Stretch::Fixed,
        }
    }
}

/// A fixed line of text.
#[derive(Clone, Debug)]
pub struct Label {
    /// Identity and assigned rectangle
    pub core: CoreData,
    /// The text shown
    pub text: String,
    /// The sizing model for the text
    pub metrics: TextMetrics,
}

impl Label {
    /// Construct from the sizing model and the text to show.
    pub fn new(metrics: TextMetrics, text: String) -> (r: Label)
        ensures
            r.text@ == text@,
            r.metrics == metrics,
            r.core.id == WidgetId(0),
            r.core.rect == (Rect {
                pos: Coord { x: 0, y: 0 },
                size: crate::geom::Size { w: 0, h: 0 },
            }),
    {
        Label { core: CoreData::new(), text, metrics }
    }

    /// The text shown.
    pub fn text(&self) -> (r: &String)
        ensures
            r@ == self.text@,
    {
        &self.text
    }
}

impl Layout for Label {
    open spec fn wf(&self) -> bool {
        true
    }

    open spec fn sized_h(&self) -> bool {
        true
    }

    open spec fn sized_v(&self) -> bool {
        true
    }

    open spec fn rect_spec(&self) -> Rect {
        self.core.rect
    }

    open spec fn size_rules_rel(pre: Self, axis: AxisInfo, post: Self, r: SizeRules) -> bool {
        &&& post == pre
        &&& r == label_rules_spec(pre.metrics, pre.text@, axis.vertical)
    }

    open spec fn set_rect_rel(pre: Self, rect: Rect, align: AlignHints, post: Self) -> bool {
        post == (Label { core: CoreData { id: pre.core.id, rect }, ..pre })
    }

    open spec fn find_id_spec(&self, coord: Coord) -> Option<WidgetId> {
        if self.core.rect.contains_spec(coord) {
            Some(self.core.id)
        } else {
            None
        }
    }

    /// A label asks for its text's width and one line's height, with
    /// the model's margins on both sides.
    fn size_rules(&mut self, axis: AxisInfo) -> (r: SizeRules) {
        if axis.vertical {
            SizeRules {
                min: self.metrics.line_h as u32,
                ideal: self.metrics.line_h as u32,
                margins: (self.metrics.margin, self.metrics.margin),
                stretch: Stretch::Fixed,
            }
        } else {
            let units = self.text.as_str().len();
            proof {
                assert(self.metrics.char_w as int * units as int <= 0xffffu16 as int
                    * 0xffff_ffff_ffff_ffffu64 as int) by (nonlinear_arith)
                    requires
                        0 <= self.metrics.char_w <= 0xffffu16,
                        0 <= units <= 0xffff_ffff_ffff_ffffu64,
                ;
            }
            let wide: u128 = self.metrics.char_w as u128 * units as u128;
            let w: u32 = if wide >= u32::MAX as u128 {
                u32::MAX
            } else {
                wide as u32
            };
            SizeRules {
                min: w,
                ideal: w,
                margins: (self.metrics.margin, self.metrics.margin),
                stretch: Stretch::Fixed,
            }
        }
    }

    fn set_rect(&mut self, rect: Rect, align: AlignHints) {
        self.core.rect = rect;
    }

    fn find_id(&self, coord: Coord) -> (r: Option<WidgetId>) {
        if self.core.rect.contains(coord) {
            Some(self.core.id)
        } else {
            None
        }
    }

    fn rect(&self) -> (r: Rect) {
        self.core.rect
    }

    open spec fn draw_spec(&self) -> Seq<DrawCmd> {
        seq![DrawCmd::Text(self.core.rect, self.text, TextClass::Label)]
    }

    fn draw(&self, out: &mut Vec<DrawCmd>) {
        out.push(DrawCmd::Text(self.core.rect, self.text.clone(), TextClass::Label));
        proof {
            assert(out@ =~= old(out)@ + self.draw_spec());
        }
    }
}

} // verus!
