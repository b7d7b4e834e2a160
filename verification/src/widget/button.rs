//! A push button returning a message on click.

use vstd::prelude::*;

use crate::draw::DrawCmd;
use crate::draw::TextClass;
use crate::event::Event;
use crate::event::Handler;
use crate::event::Manager;
use crate::event::PressSource;
use crate::event::Response;
use crate::event::WidgetId;
use crate::geom::Coord;
use crate::geom::Rect;
use crate::layout::size_rules::text_units;
use crate::layout::sizer::clamp_u32;
use crate::layout::AlignHints;
use crate::layout::AxisInfo;
use crate::layout::Layout;
use crate::layout::SizeRules;
use crate::layout::Stretch;
use crate::widget::label::TextMetrics;
use crate::widget::CoreData;

verus! {

/// A labelled button emitting a copy of its message when clicked.
///
/// A click is a press started on the button (taking a grab on the
/// press source) and released over it; releasing elsewhere cancels.
#[derive(Clone, Debug)]
pub struct Button<M> {
    /// Identity and assigned rectangle
    pub core: CoreData,
    /// The label shown
    pub text: String,
    /// The sizing model for the label
    pub metrics: TextMetrics,
    /// The message a click returns
    pub msg: M,
    /// The source of the press currently on the button, if any
    pub press_source: Option<PressSource>,
}

impl<M: Copy> Button<M> {
    /// Construct from the sizing model, the label and the message.
    pub fn new(metrics: TextMetrics, text: String, msg: M) -> (r: Button<M>)
        ensures
            r.text@ == text@,
            r.metrics == metrics,
            r.msg == msg,
            r.press_source is None,
            r.core.id == WidgetId(0),
    {
        Button { core: CoreData::new(), text, metrics, msg, press_source: None }
    }

    /// Whether `source` is the press currently on the button.
    fn is_press_source(&self, source: PressSource) -> (r: bool)
        ensures
            r == (self.press_source == Some(source)),
    {
        match self.press_source {
            Some(s) => match (s, source) {
                (PressSource::Mouse(a), PressSource::Mouse(b)) => a == b,
                (PressSource::Touch(a), PressSource::Touch(b)) => a == b,
                _ => false,
            },
            None => false,
        }
    }
}

impl<M: Copy> Layout for Button<M> {
    open spec fn wf(&self) -> bool {
        true
    }

    open spec fn sized_h(&self) -> bool {
        true
    }

    open spec fn sized_v(&self) -> bool {
        true
    }

    open spec fn rect_spec(&self) -> Rect {
        self.core.rect
    }

    open spec fn size_rules_rel(pre: Self, axis: AxisInfo, post: Self, r: SizeRules) -> bool {
        &&& post == pre
        &&& r == (SizeRules {
            min: if axis.vertical {
                pre.metrics.line_h as u32
            } else {
                clamp_u32(pre.metrics.char_w as int * text_units(pre.text@))
            },
            ideal: if axis.vertical {
                pre.metrics.line_h as u32
            } else {
                clamp_u32(pre.metrics.char_w as int * text_units(pre.text@))
            },
            margins: (pre.metrics.margin, pre.metrics.margin),
            stretch: if axis.vertical {
                Stretch::Fixed
            } else {
                Stretch::Low
            },
        })
    }

    open spec fn set_rect_rel(pre: Self, rect: Rect, align: AlignHints, post: Self) -> bool {
        post == (Button { core: CoreData { id: pre.core.id, rect }, ..pre })
    }

    open spec fn find_id_spec(&self, coord: Coord) -> Option<WidgetId> {
        if self.core.rect.contains_spec(coord) {
            Some(self.core.id)
        } else {
            None
        }
    }

    /// A button asks for its label's size and mildly prefers extra
    /// width.
    fn size_rules(&mut self, axis: AxisInfo) -> (r: SizeRules) {
        if axis.vertical {
            SizeRules {
                min: self.metrics.line_h as u32,
                ideal: self.metrics.line_h as u32,
                margins: (self.metrics.margin, self.metrics.margin),
                stretch: Stretch::Fixed,
            }
        } else {
            let units = self.text.as_str().len();
            proof {
                assert(self.metrics.char_w as int * units as int <= 0xffffu16 as int
                    * 0xffff_ffff_ffff_ffffu64 as int) by (nonlinear_arith)
                    requires
                        0 <= self.metrics.char_w <= 0xffffu16,
                        0 <= units <= 0xffff_ffff_ffff_ffffu64,
                ;
            }
            let wide: u128 = self.metrics.char_w as u128 * units as u128;
            let w: u32 = if wide >= u32::MAX as u128 {
                u32::MAX
            } else {
                wide as u32
            };
            SizeRules {
                min: w,
                ideal: w,
                margins: (self.metrics.margin, self.metrics.margin),
                stretch: Stretch::Low,
            }
        }
    }

    fn set_rect(&mut self, rect: Rect, align: AlignHints) {
        self.core.rect = rect;
    }

    fn find_id(&self, coord: Coord) -> (r: Option<WidgetId>) {
        if self.core.rect.contains(coord) {
            Some(self.core.id)
        } else {
            None
        }
    }

    fn rect(&self) -> (r: Rect) {
        self.core.rect
    }

    /// The button face first, then its label over it.
    open spec fn draw_spec(&self) -> Seq<DrawCmd> {
        seq![
            DrawCmd::Quad(self.core.rect),
            DrawCmd::Text(self.core.rect, self.text, TextClass::Button),
        ]
    }

    fn draw(&self, out: &mut Vec<DrawCmd>) {
        out.push(DrawCmd::Quad(self.core.rect));
        out.push(DrawCmd::Text(self.core.rect, self.text.clone(), TextClass::Button));
        proof {
            assert(out@ =~= old(out)@ + self.draw_spec());
        }
    }
}

/// Exact event behaviour of a button; see [`Handler`] for how it is
/// tied to `event`.
pub open spec fn button_event_rel<M>(
    pre: Button<M>,
    pre_mgr: Manager,
    id: WidgetId,
    ev: Event,
    post: Button<M>,
    post_mgr: Manager,
    r: Response<M>,
) -> bool {
    match ev {
        Event::PressStart { source, coord } => {
            if pre_mgr.has_grab(source) {
                &&& post == pre
                &&& crate::widget::drag::mgr_unchanged(pre_mgr, post_mgr)
                &&& r is Nothing
            } else {
                &&& post == (Button { press_source: Some(source), ..pre })
                &&& post_mgr.grabs_spec() == pre_mgr.grabs_spec().push(
                    (crate::event::Grab { source, id: pre.core.id }),
                )
                &&& post_mgr.redraws_spec() == pre_mgr.redraws_spec()
                &&& post_mgr.action_spec() == pre_mgr.action_spec()
                &&& r is Nothing
            }
        },
        Event::PressMove { source, coord } => {
            &&& post == pre
            &&& crate::widget::drag::mgr_unchanged(pre_mgr, post_mgr)
            &&& r is Nothing
        },
        Event::PressEnd { source, coord } => {
            if pre.press_source == Some(source) {
                &&& post == (Button { press_source: None::<PressSource>, ..pre })
                &&& !post_mgr.has_grab(source)
                &&& (forall|s2: PressSource|
                    s2 != source ==> post_mgr.holder(s2) == pre_mgr.holder(s2))
                &&& post_mgr.redraws_spec() == pre_mgr.redraws_spec()
                &&& post_mgr.action_spec() == pre_mgr.action_spec()
                &&& r == if pre.core.rect.contains_spec(coord) {
                    Response::Msg(pre.msg)
                } else {
                    Response::<M>::Nothing
                }
            } else {
                &&& post == pre
                &&& crate::widget::drag::mgr_unchanged(pre_mgr, post_mgr)
                &&& r is Nothing
            }
        },
    }
}

impl<M: Copy> Handler for Button<M> {
    type Msg = M;

    open spec fn handler_wf(&self) -> bool {
        true
    }

    open spec fn event_rel(
        pre: Self,
        pre_mgr: Manager,
        id: WidgetId,
        ev: Event,
        post: Self,
        post_mgr: Manager,
        r: Response<M>,
    ) -> bool {
        button_event_rel(pre, pre_mgr, id, ev, post, post_mgr, r)
    }

    /// A press on the button grabs its source; releasing that press
    /// over the button emits the message, releasing elsewhere cancels.
    fn event(&mut self, mgr: &mut Manager, id: WidgetId, ev: Event) -> (r: Response<M>) {
        match ev {
            Event::PressStart { source, coord } => {
                if mgr.request_grab(self.core.id, source) {
                    self.press_source = Some(source);
                }
                Response::Nothing
            },
            Event::PressMove { .. } => Response::Nothing,
            Event::PressEnd { source, coord } => {
                if self.is_press_source(source) {
                    self.press_source = None;
                    mgr.end_grab(source);
                    if self.core.rect.contains(coord) {
                        Response::Msg(self.msg)
                    } else {
                        Response::Nothing
                    }
                } else {
                    Response::Nothing
                }
            },
        }
    }
}

} // verus!
