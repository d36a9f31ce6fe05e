//! The edit script builder: turns detected boxes, the parsed request
//! and the video dimensions into an edit plan — an ordered chain of
//! filter-graph stages plus a list of timed overlay events. Fills are
//! graph operations on the video stream; text is rendered by the
//! overlay script, never by the fill mechanism. The plan is serialized
//! to the encoder's textual syntax only at the encoding boundary.

use vstd::prelude::*;
use vstd::math::max;
use crate::geom::{BoundingBox, CropRect};
use crate::request::EditRequest;
use crate::textutil::{escaped, escape_braces};

verus! {

/// The time, in centiseconds, standing for "until the end of the
/// video" in overlay events: 9:59:59.99.
pub const EVENT_END_CS: u64 = 3_599_999;

/// One operation of the filter graph.
#[derive(Clone, Copy, Debug, PartialEq, Eq, Structural)]
pub enum StageOp {
    /// Fill a rectangle of the frame with the solid erase color.
    FillRect { x: u32, y: u32, w: u32, h: u32 },
    /// Add a solid band of the given height above the frame.
    PadTop { band: u32 },
    /// Keep only the given sub-rectangle of the frame.
    CropTo { x: u32, y: u32, w: u32, h: u32 },
}

/// One stage of the filter graph: it reads stream `input` and writes
/// stream `output`. Stream 0 is the source video.
#[derive(Clone, Copy, Debug, PartialEq, Eq, Structural)]
pub struct GraphStage {
    pub input: u32,
    pub output: u32,
    pub op: StageOp,
}

/// The text style of an overlay event.
#[derive(Clone, Copy, Debug, PartialEq, Eq, Structural)]
pub enum StyleKind {
    /// Dark text centered inside an erased caption box.
    BoxText,
    /// Light caption text on a padded band.
    BandCaption,
}

/// One timed overlay event: a styled text bound to a time window and a
/// margin box, in the coordinate system of the output video.
pub struct OverlayEvent {
    pub start_cs: u64,
    pub end_cs: u64,
    pub margin_l: u32,
    pub margin_r: u32,
    pub margin_v: u32,
    pub font_size: u32,
    pub style: StyleKind,
    pub text: Vec<u8>,
}

/// The edit plan: the stage chain, the overlay events, the output
/// dimensions, and the stream the encoder maps to its output.
pub struct EditPlan {
    pub stages: Vec<GraphStage>,
    pub events: Vec<OverlayEvent>,
    pub out_width: u32,
    pub out_height: u32,
    pub final_stream: u32,
}

impl EditPlan {
    /// The stages form a chain from the source stream: stage `i` reads
    /// stream `i` and writes stream `i + 1`, and the final stream is
    /// the last one written (the source where there is no stage).
    pub open spec fn wf(self) -> bool {
        &&& forall|i: int| 0 <= i < self.stages@.len() ==> (#[trigger] self.stages@[i]).input == i
            && self.stages@[i].output == i + 1
        &&& self.final_stream == self.stages@.len()
    }
}

/// Why no plan could be built.
#[derive(Clone, Copy, Debug, PartialEq, Eq, Structural)]
pub enum PlanError {
    /// No text was provided and no box was detected: nothing to do.
    NothingToDo,
}

/// Font size of timed text inside a box: three tenths of the box
/// height, at least 20.
pub open spec fn timed_box_font(h: int) -> int {
    max(3 * h / 10, 20)
}

/// Font size of plain text inside a box: three twentieths of the box
/// height, at least 11.
pub open spec fn plain_box_font(h: int) -> int {
    max(3 * h / 20, 11)
}

/// Height of the band added when no box is available: three twentieths
/// of the frame height, at least 100 pixels.
pub open spec fn pad_band_height(h: int) -> int {
    max(3 * h / 20, 100)
}

/// Font size of text on the band: two fifths of the band height, at
/// least 30.
pub open spec fn band_font(p: int) -> int {
    max(2 * p / 5, 30)
}

/// Vertical margin of text on the band: a quarter of the band height.
pub open spec fn band_margin(p: int) -> int {
    p / 4
}

/// Vertical margin of text inside a box: its top edge plus a tenth of
/// its height.
pub open spec fn box_margin_v(b: BoundingBox) -> int {
    b.y + b.h / 10
}

/// The line break of the overlay script, joining the texts rendered on
/// one band.
pub open spec fn line_break() -> Seq<u8> {
    seq![92u8, 78u8]
}

/// Whether an overlay event carries exactly these fields.
pub open spec fn event_is(e: OverlayEvent, start: int, end: int, ml: int, mr: int, mv: int,
    fs: int, style: StyleKind, text: Seq<u8>) -> bool {
    &&& e.start_cs == start
    &&& e.end_cs == end
    &&& e.margin_l == ml
    &&& e.margin_r == mr
    &&& e.margin_v == mv
    &&& e.font_size == fs
    &&& e.style == style
    &&& e.text@ == text
}

/// Whether a stage fills the given box with the erase color.
pub open spec fn stage_fills(s: GraphStage, i: int, b: BoundingBox) -> bool {
    s.input == i && s.output == i + 1 && s.op == (StageOp::FillRect {
        x: b.x, y: b.y, w: b.w, h: b.h })
}

/// Computes three `n`-ths of `v` without overflowing, for small `n`.
fn scaled(v: u32, num: u32, den: u32) -> (r: u32)
    requires
        1 <= num <= 3,
        1 <= den,
        num <= den,
    ensures
        r == (num as int) * (v as int) / (den as int),
{
    proof {
        assert((num as int) * (v as int) <= 3 * 0xffff_ffff) by (nonlinear_arith)
            requires
                0 <= num as int <= 3,
                0 <= v as int <= 0xffff_ffff,
        ;
        assert((num as int) * (v as int) / (den as int) <= v) by (nonlinear_arith)
            requires
                1 <= num as int <= den as int,
                0 <= v as int,
        ;
    }
    (((num as u64) * (v as u64)) / (den as u64)) as u32
}

/// The larger of two values.
fn max_u32(a: u32, b: u32) -> (r: u32)
    ensures
        r == max(a as int, b as int),
{
    if a >= b {
        a
    } else {
        b
    }
}

/// Builds the plan that edits the video: fills and overlays per the
/// policy table — a timed swap prefers the first box and falls back to
/// a band; plain texts fill up to one box each, or go joined onto a
/// band when no box was detected. The only error is a request with
/// nothing to render and no box to erase.
pub fn build_plan(boxes: &Vec<BoundingBox>, req: &EditRequest, width: u32, height: u32)
    -> (r: Result<EditPlan, PlanError>)
    requires
        forall|i: int| 0 <= i < boxes@.len() ==> (#[trigger] boxes@[i]).wf()
            && boxes@[i].within(width as int, height as int),
        height + pad_band_height(height as int) <= u32::MAX,
    ensures
        r is Err <==> boxes@.len() == 0 && (req matches EditRequest::SingleText(t)
            && t@.len() == 0),
        r matches Ok(p) ==> p.wf() && p.out_width == width,
        r matches Ok(p) ==> (boxes@.len() > 0 ==> p.out_height == height),
        r matches Ok(p) ==> (boxes@.len() == 0 ==> p.out_height == height + pad_band_height(
            height as int) && p.out_height > height),
        req matches EditRequest::TimedSwap(t1, t, t2) ==> boxes@.len() > 0 ==> (r matches Ok(p)
            && {
            let b = boxes@[0];
            let fs = timed_box_font(b.h as int);
            let ml = b.x as int;
            let mr = width - (b.x + b.w);
            let mv = box_margin_v(b);
            &&& p.stages@.len() == 1
            &&& stage_fills(p.stages@[0], 0, b)
            &&& p.events@.len() == 2
            &&& event_is(p.events@[0], 0, t as int, ml, mr, mv, fs, StyleKind::BoxText,
                escaped(t1@))
            &&& event_is(p.events@[1], t as int, EVENT_END_CS as int, ml, mr, mv, fs,
                StyleKind::BoxText, escaped(t2@))
        }),
        req matches EditRequest::TimedSwap(t1, t, t2) ==> boxes@.len() == 0 ==> (r matches Ok(p)
            && {
            let band = pad_band_height(height as int);
            let fs = band_font(band);
            let mv = band_margin(band);
            &&& p.stages@.len() == 1
            &&& p.stages@[0].input == 0 && p.stages@[0].output == 1
            &&& p.stages@[0].op == (StageOp::PadTop { band: band as u32 })
            &&& p.events@.len() == 2
            &&& event_is(p.events@[0], 0, t as int, 0, 0, mv, fs, StyleKind::BandCaption,
                escaped(t1@))
            &&& event_is(p.events@[1], t as int, EVENT_END_CS as int, 0, 0, mv, fs,
                StyleKind::BandCaption, escaped(t2@))
        }),
        req matches EditRequest::SingleText(t) ==> boxes@.len() == 0 && t@.len() > 0 ==> (
            r matches Ok(p) && {
            let band = pad_band_height(height as int);
            &&& p.stages@.len() == 1
            &&& p.stages@[0].op == (StageOp::PadTop { band: band as u32 })
            &&& p.events@.len() == 1
            &&& event_is(p.events@[0], 0, EVENT_END_CS as int, 0, 0, band_margin(band),
                band_font(band), StyleKind::BandCaption, escaped(t@))
        }),
        req matches EditRequest::TwoBoxText(a, b) ==> boxes@.len() == 0 ==> (r matches Ok(p) && {
            let band = pad_band_height(height as int);
            &&& p.stages@.len() == 1
            &&& p.stages@[0].op == (StageOp::PadTop { band: band as u32 })
            &&& p.events@.len() == 1
            &&& event_is(p.events@[0], 0, EVENT_END_CS as int, 0, 0, band_margin(band),
                band_font(band), StyleKind::BandCaption, escaped(a@ + line_break() + b@))
        }),
        req matches EditRequest::SingleText(t) ==> boxes@.len() > 0 ==> (
            r matches Ok(p) && {
            let b = boxes@[0];
            &&& p.stages@.len() == 1
            &&& stage_fills(p.stages@[0], 0, b)
            &&& p.events@.len() == 1
            &&& event_is(p.events@[0], 0, EVENT_END_CS as int, b.x as int, width - (b.x + b.w),
                box_margin_v(b), plain_box_font(b.h as int), StyleKind::BoxText, escaped(t@))
        }),
        req matches EditRequest::TwoBoxText(a, b) ==> boxes@.len() >= 1 ==> (r matches Ok(p) && {
            let b0 = boxes@[0];
            &&& p.stages@.len() == (if boxes@.len() >= 2 { 2int } else { 1int })
            &&& stage_fills(p.stages@[0], 0, b0)
            &&& p.events@.len() == p.stages@.len()
            &&& event_is(p.events@[0], 0, EVENT_END_CS as int, b0.x as int,
                width - (b0.x + b0.w), box_margin_v(b0), plain_box_font(b0.h as int),
                StyleKind::BoxText, escaped(a@))
            &&& boxes@.len() >= 2 ==> {
                let b1 = boxes@[1];
                &&& stage_fills(p.stages@[1], 1, b1)
                &&& event_is(p.events@[1], 0, EVENT_END_CS as int, b1.x as int,
                    width - (b1.x + b1.w), box_margin_v(b1), plain_box_font(b1.h as int),
                    StyleKind::BoxText, escaped(b@))
            }
        }),
{
    match req {
        EditRequest::TimedSwap(t1, t, t2) => {
            if boxes.len() > 0 {
                let b = boxes[0];
                assert(b.wf() && b.within(width as int, height as int));
                let fill = GraphStage {
                    input: 0,
                    output: 1,
                    op: StageOp::FillRect { x: b.x, y: b.y, w: b.w, h: b.h },
                };
                let fs = max_u32(scaled(b.h, 3, 10), 20);
                let ml = b.x;
                let mr = width - (b.x + b.w);
                let mv = b.y + b.h / 10;
                let e1 = OverlayEvent {
                    start_cs: 0,
                    end_cs: *t,
                    margin_l: ml,
                    margin_r: mr,
                    margin_v: mv,
                    font_size: fs,
                    style: StyleKind::BoxText,
                    text: escape_braces(t1),
                };
                let e2 = OverlayEvent {
                    start_cs: *t,
                    end_cs: EVENT_END_CS,
                    margin_l: ml,
                    margin_r: mr,
                    margin_v: mv,
                    font_size: fs,
                    style: StyleKind::BoxText,
                    text: escape_braces(t2),
                };
                let mut stages: Vec<GraphStage> = Vec::new();
                stages.push(fill);
                let mut events: Vec<OverlayEvent> = Vec::new();
                events.push(e1);
                events.push(e2);
                Ok(EditPlan {
                    stages,
                    events,
                    out_width: width,
                    out_height: height,
                    final_stream: 1,
                })
            } else {
                let band = max_u32(scaled(height, 3, 20), 100);
                let fs = max_u32(scaled(band, 2, 5), 30);
                let mv = band / 4;
                let pad = GraphStage { input: 0, output: 1, op: StageOp::PadTop { band } };
                let e1 = OverlayEvent {
                    start_cs: 0,
                    end_cs: *t,
                    margin_l: 0,
                    margin_r: 0,
                    margin_v: mv,
                    font_size: fs,
                    style: StyleKind::BandCaption,
                    text: escape_braces(t1),
                };
                let e2 = OverlayEvent {
                    start_cs: *t,
                    end_cs: EVENT_END_CS,
                    margin_l: 0,
                    margin_r: 0,
                    margin_v: mv,
                    font_size: fs,
                    style: StyleKind::BandCaption,
                    text: escape_braces(t2),
                };
                let mut stages: Vec<GraphStage> = Vec::new();
                stages.push(pad);
                let mut events: Vec<OverlayEvent> = Vec::new();
                events.push(e1);
                events.push(e2);
                Ok(EditPlan {
                    stages,
                    events,
                    out_width: width,
                    out_height: height + band,
                    final_stream: 1,
                })
            }
        },
        EditRequest::SingleText(t) => {
            if boxes.len() == 0 {
                if t.len() == 0 {
                    return Err(PlanError::NothingToDo);
                }
                let band = max_u32(scaled(height, 3, 20), 100);
                let fs = max_u32(scaled(band, 2, 5), 30);
                let mv = band / 4;
                let pad = GraphStage { input: 0, output: 1, op: StageOp::PadTop { band } };
                let e = OverlayEvent {
                    start_cs: 0,
                    end_cs: EVENT_END_CS,
                    margin_l: 0,
                    margin_r: 0,
                    margin_v: mv,
                    font_size: fs,
                    style: StyleKind::BandCaption,
                    text: escape_braces(t),
                };
                let mut stages: Vec<GraphStage> = Vec::new();
                stages.push(pad);
                let mut events: Vec<OverlayEvent> = Vec::new();
                events.push(e);
                Ok(EditPlan {
                    stages,
                    events,
                    out_width: width,
                    out_height: height + band,
                    final_stream: 1,
                })
            } else {
                let b = boxes[0];
                assert(b.wf() && b.within(width as int, height as int));
                let fill = GraphStage {
                    input: 0,
                    output: 1,
                    op: StageOp::FillRect { x: b.x, y: b.y, w: b.w, h: b.h },
                };
                let fs = max_u32(scaled(b.h, 3, 20), 11);
                let e = OverlayEvent {
                    start_cs: 0,
                    end_cs: EVENT_END_CS,
                    margin_l: b.x,
                    margin_r: width - (b.x + b.w),
                    margin_v: b.y + b.h / 10,
                    font_size: fs,
                    style: StyleKind::BoxText,
                    text: escape_braces(t),
                };
                let mut stages: Vec<GraphStage> = Vec::new();
                stages.push(fill);
                let mut events: Vec<OverlayEvent> = Vec::new();
                events.push(e);
                Ok(EditPlan {
                    stages,
                    events,
                    out_width: width,
                    out_height: height,
                    final_stream: 1,
                })
            }
        },
        EditRequest::TwoBoxText(a, b) => {
            if boxes.len() == 0 {
                let mut joined: Vec<u8> = Vec::new();
                let mut i: usize = 0;
                assert(a@.take(0) =~= Seq::<u8>::empty());
                while i < a.len()
                    invariant
                        i <= a@.len(),
                        joined@ == a@.take(i as int),
                    decreases a@.len() - i,
                {
                    proof {
                        assert(a@.take(i + 1) =~= a@.take(i as int).push(a@[i as int]));
                    }
                    joined.push(a[i]);
                    i = i + 1;
                }
                assert(a@.take(a@.len() as int) =~= a@);
                joined.push(92);
                joined.push(78);
                let mut j: usize = 0;
                assert(joined@ =~= a@ + line_break() + b@.take(0));
                while j < b.len()
                    invariant
                        j <= b@.len(),
                        joined@ == a@ + line_break() + b@.take(j as int),
                    decreases b@.len() - j,
                {
                    proof {
                        assert(b@.take(j + 1) =~= b@.take(j as int).push(b@[j as int]));
                        assert(a@ + line_break() + b@.take(j + 1) =~= (a@ + line_break()
                            + b@.take(j as int)).push(b@[j as int]));
                    }
                    joined.push(b[j]);
                    j = j + 1;
                }
                assert(b@.take(b@.len() as int) =~= b@);
                assert(joined@ =~= a@ + line_break() + b@);

                let band = max_u32(scaled(height, 3, 20), 100);
                let fs = max_u32(scaled(band, 2, 5), 30);
                let mv = band / 4;
                let pad = GraphStage { input: 0, output: 1, op: StageOp::PadTop { band } };
                let e = OverlayEvent {
                    start_cs: 0,
                    end_cs: EVENT_END_CS,
                    margin_l: 0,
                    margin_r: 0,
                    margin_v: mv,
                    font_size: fs,
                    style: StyleKind::BandCaption,
                    text: escape_braces(&joined),
                };
                let mut stages: Vec<GraphStage> = Vec::new();
                stages.push(pad);
                let mut events: Vec<OverlayEvent> = Vec::new();
                events.push(e);
                Ok(EditPlan {
                    stages,
                    events,
                    out_width: width,
                    out_height: height + band,
                    final_stream: 1,
                })
            } else {
                let b0 = boxes[0];
                assert(b0.wf() && b0.within(width as int, height as int));
                let fill0 = GraphStage {
                    input: 0,
                    output: 1,
                    op: StageOp::FillRect { x: b0.x, y: b0.y, w: b0.w, h: b0.h },
                };
                let e0 = OverlayEvent {
                    start_cs: 0,
                    end_cs: EVENT_END_CS,
                    margin_l: b0.x,
                    margin_r: width - (b0.x + b0.w),
                    margin_v: b0.y + b0.h / 10,
                    font_size: max_u32(scaled(b0.h, 3, 20), 11),
                    style: StyleKind::BoxText,
                    text: escape_braces(a),
                };
                let mut stages: Vec<GraphStage> = Vec::new();
                stages.push(fill0);
                let mut events: Vec<OverlayEvent> = Vec::new();
                events.push(e0);
                let mut n: u32 = 1;
                if boxes.len() >= 2 {
                    let b1 = boxes[1];
                    assert(b1.wf() && b1.within(width as int, height as int));
                    let fill1 = GraphStage {
                        input: 1,
                        output: 2,
                        op: StageOp::FillRect { x: b1.x, y: b1.y, w: b1.w, h: b1.h },
                    };
                    let e1 = OverlayEvent {
                        start_cs: 0,
                        end_cs: EVENT_END_CS,
                        margin_l: b1.x,
                        margin_r: width - (b1.x + b1.w),
                        margin_v: b1.y + b1.h / 10,
                        font_size: max_u32(scaled(b1.h, 3, 20), 11),
                        style: StyleKind::BoxText,
                        text: escape_braces(b),
                    };
                    stages.push(fill1);
                    events.push(e1);
                    n = 2;
                }
                Ok(EditPlan {
                    stages,
                    events,
                    out_width: width,
                    out_height: height,
                    final_stream: n,
                })
            }
        },
    }
}

/// Builds the plan of the border-strip path: one crop stage when a
/// region was detected, no stage at all when none was — then the
/// output keeps the input dimensions.
pub fn crop_plan(crop: &Option<CropRect>, width: u32, height: u32) -> (p: EditPlan)
    ensures
        p.wf(),
        p.events@.len() == 0,
        crop is None ==> p.stages@.len() == 0 && p.out_width == width && p.out_height == height,
        crop matches Some(c) ==> p.stages@.len() == 1 && p.stages@[0].op == (StageOp::CropTo {
            x: c.x, y: c.y, w: c.w, h: c.h }) && p.out_width == c.w && p.out_height == c.h,
{
    match crop {
        None => EditPlan {
            stages: Vec::new(),
            events: Vec::new(),
            out_width: width,
            out_height: height,
            final_stream: 0,
        },
        Some(c) => {
            let stage = GraphStage {
                input: 0,
                output: 1,
                op: StageOp::CropTo { x: c.x, y: c.y, w: c.w, h: c.h },
            };
            let mut stages: Vec<GraphStage> = Vec::new();
            stages.push(stage);
            EditPlan {
                stages,
                events: Vec::new(),
                out_width: c.w,
                out_height: c.h,
                final_stream: 1,
            }
        },
    }
}

} // verus!
