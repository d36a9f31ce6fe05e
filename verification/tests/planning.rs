use capedit::geom::{BoundingBox, CropRect};
use capedit::plan::{build_plan, crop_plan, EditPlan, StageOp, StyleKind, PlanError,
    EVENT_END_CS};
use capedit::request::EditRequest;

fn chain_ok(p: &EditPlan) {
    for (i, s) in p.stages.iter().enumerate() {
        assert_eq!(s.input as usize, i);
        assert_eq!(s.output as usize, i + 1);
    }
    assert_eq!(p.final_stream as usize, p.stages.len());
}

#[test]
fn timed_swap_with_box() {
    // One box and a timed swap: one erase fill, two overlay events
    // whose windows meet exactly at the switch time.
    let boxes = vec![BoundingBox { x: 10, y: 20, w: 300, h: 100 }];
    let req = EditRequest::TimedSwap(b"Hi".to_vec(), 550, b"Bye".to_vec());
    let p = build_plan(&boxes, &req, 640, 360).expect("plan");
    chain_ok(&p);
    assert_eq!(p.stages.len(), 1);
    assert!(matches!(p.stages[0].op, StageOp::FillRect { x: 10, y: 20, w: 300, h: 100 }));
    assert_eq!(p.events.len(), 2);
    assert_eq!(p.events[0].start_cs, 0);
    assert_eq!(p.events[0].end_cs, 550);
    assert_eq!(p.events[1].start_cs, 550);
    assert_eq!(p.events[1].end_cs, EVENT_END_CS);
    assert_eq!(p.events[0].font_size, 30);
    assert_eq!(p.events[0].margin_l, 10);
    assert_eq!(p.events[0].margin_r, 330);
    assert_eq!(p.events[0].margin_v, 30);
    assert_eq!(p.events[0].text, b"Hi".to_vec());
    assert_eq!(p.events[1].text, b"Bye".to_vec());
    assert!(matches!(p.events[0].style, StyleKind::BoxText));
    assert_eq!(p.out_width, 640);
    assert_eq!(p.out_height, 360);
}

#[test]
fn timed_swap_without_box_pads() {
    let boxes: Vec<BoundingBox> = Vec::new();
    let req = EditRequest::TimedSwap(b"One".to_vec(), 100, b"Two".to_vec());
    let p = build_plan(&boxes, &req, 640, 360).expect("plan");
    chain_ok(&p);
    assert_eq!(p.stages.len(), 1);
    assert!(matches!(p.stages[0].op, StageOp::PadTop { band: 100 }));
    assert_eq!(p.events.len(), 2);
    assert_eq!(p.events[0].end_cs, 100);
    assert_eq!(p.events[1].start_cs, 100);
    assert!(matches!(p.events[0].style, StyleKind::BandCaption));
    assert_eq!(p.out_height, 460);
}

#[test]
fn no_boxes_plain_text_pads() {
    // Zero boxes and non-timed text: the plan pads, so the output is
    // taller than the input.
    let boxes: Vec<BoundingBox> = Vec::new();
    let req = EditRequest::SingleText(b"Hello".to_vec());
    let p = build_plan(&boxes, &req, 640, 360).expect("plan");
    chain_ok(&p);
    assert_eq!(p.stages.len(), 1);
    // Band: max(3 * 360 / 20, 100) = 100; font max(2 * 100 / 5, 30) = 40.
    assert!(matches!(p.stages[0].op, StageOp::PadTop { band: 100 }));
    assert!(p.out_height > 360);
    assert_eq!(p.out_height, 460);
    assert_eq!(p.events.len(), 1);
    assert_eq!(p.events[0].font_size, 40);
    assert_eq!(p.events[0].margin_v, 25);
    assert_eq!(p.events[0].end_cs, EVENT_END_CS);
    assert_eq!(p.events[0].text, b"Hello".to_vec());
}

#[test]
fn empty_text_and_no_boxes_is_an_error() {
    let boxes: Vec<BoundingBox> = Vec::new();
    let req = EditRequest::SingleText(Vec::new());
    let r = build_plan(&boxes, &req, 640, 360);
    assert!(matches!(r, Err(PlanError::NothingToDo)));
}

#[test]
fn single_text_centered_in_detected_box() {
    // The end-to-end edit scenario's plan half: the detected box is
    // erased, the text is margined into it, and no padding is added.
    let boxes = vec![BoundingBox { x: 20, y: 20, w: 281, h: 81 }];
    let req = EditRequest::SingleText(b"Hello".to_vec());
    let p = build_plan(&boxes, &req, 640, 360).expect("plan");
    chain_ok(&p);
    assert_eq!(p.stages.len(), 1);
    assert!(matches!(p.stages[0].op, StageOp::FillRect { x: 20, y: 20, w: 281, h: 81 }));
    assert_eq!(p.events.len(), 1);
    assert_eq!(p.events[0].margin_l, 20);
    assert_eq!(p.events[0].margin_r, 640 - (20 + 281));
    assert_eq!(p.events[0].margin_v, 28);
    assert_eq!(p.events[0].font_size, 12);
    assert_eq!(p.events[0].text, b"Hello".to_vec());
    assert_eq!(p.out_width, 640);
    assert_eq!(p.out_height, 360);
}

#[test]
fn braces_are_escaped() {
    let boxes = vec![BoundingBox { x: 0, y: 0, w: 300, h: 100 }];
    let req = EditRequest::SingleText(b"a{b}c".to_vec());
    let p = build_plan(&boxes, &req, 640, 360).expect("plan");
    assert_eq!(p.events[0].text, b"a\\{b\\}c".to_vec());
}

#[test]
fn two_texts_fill_two_boxes() {
    let boxes = vec![
        BoundingBox { x: 0, y: 0, w: 600, h: 100 },
        BoundingBox { x: 0, y: 200, w: 400, h: 80 },
    ];
    let req = EditRequest::TwoBoxText(b"Top".to_vec(), b"Bottom".to_vec());
    let p = build_plan(&boxes, &req, 640, 360).expect("plan");
    chain_ok(&p);
    assert_eq!(p.stages.len(), 2);
    assert!(matches!(p.stages[1].op, StageOp::FillRect { x: 0, y: 200, w: 400, h: 80 }));
    assert_eq!(p.events.len(), 2);
    assert_eq!(p.events[0].text, b"Top".to_vec());
    assert_eq!(p.events[1].text, b"Bottom".to_vec());
    assert_eq!(p.out_height, 360);
}

#[test]
fn two_texts_one_box_drops_second() {
    let boxes = vec![BoundingBox { x: 0, y: 0, w: 600, h: 100 }];
    let req = EditRequest::TwoBoxText(b"Top".to_vec(), b"Bottom".to_vec());
    let p = build_plan(&boxes, &req, 640, 360).expect("plan");
    assert_eq!(p.stages.len(), 1);
    assert_eq!(p.events.len(), 1);
    assert_eq!(p.events[0].text, b"Top".to_vec());
}

#[test]
fn two_texts_no_box_join_on_band() {
    let boxes: Vec<BoundingBox> = Vec::new();
    let req = EditRequest::TwoBoxText(b"one".to_vec(), b"two".to_vec());
    let p = build_plan(&boxes, &req, 640, 360).expect("plan");
    assert_eq!(p.events.len(), 1);
    assert_eq!(p.events[0].text, b"one\\Ntwo".to_vec());
    assert!(p.out_height > 360);
}

#[test]
fn no_crop_keeps_dimensions() {
    // A plan performing no text changes and no crop leaves the output
    // dimensions equal to the input dimensions.
    let p = crop_plan(&None, 640, 360);
    assert!(p.stages.is_empty());
    assert!(p.events.is_empty());
    assert_eq!(p.out_width, 640);
    assert_eq!(p.out_height, 360);
    assert_eq!(p.final_stream, 0);
}

#[test]
fn crop_plan_takes_region_dimensions() {
    let c = CropRect { x: 0, y: 40, w: 640, h: 280 };
    let p = crop_plan(&Some(c), 640, 360);
    assert_eq!(p.stages.len(), 1);
    assert!(matches!(p.stages[0].op, StageOp::CropTo { x: 0, y: 40, w: 640, h: 280 }));
    assert_eq!(p.out_width, 640);
    assert_eq!(p.out_height, 280);
}
