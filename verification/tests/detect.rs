use capedit::frame::Frame;
use capedit::boxes::detect_boxes;
use capedit::crop::detect_crop;
use capedit::geom::BoundingBox;
use capedit::plan::{build_plan, StageOp};
use capedit::request::EditRequest;

fn frame_of(width: u32, height: u32, f: impl Fn(u32, u32) -> u8) -> Frame {
    let mut rows: Vec<Vec<u8>> = Vec::new();
    for y in 0..height {
        let mut row: Vec<u8> = Vec::new();
        for x in 0..width {
            row.push(f(x, y));
        }
        rows.push(row);
    }
    Frame { width, height, rows }
}

fn in_rect(x: u32, y: u32, x0: u32, y0: u32, x1: u32, y1: u32) -> bool {
    x0 <= x && x <= x1 && y0 <= y && y <= y1
}

#[test]
fn white_rect_yields_one_box() {
    // A single clearly isolated white rectangle over the minimum size
    // ratios is found exactly.
    let f = frame_of(640, 360, |x, y| {
        if in_rect(x, y, 20, 20, 300, 100) {
            255
        } else {
            0
        }
    });
    let r = detect_boxes(&f);
    assert_eq!(r.len(), 1);
    assert_eq!(r[0], BoundingBox { x: 20, y: 20, w: 281, h: 81 });
}

#[test]
fn boxes_sorted_by_area_capped_at_two() {
    // Three qualifying rectangles: only the two largest come back,
    // largest first.
    let f = frame_of(640, 360, |x, y| {
        let a = in_rect(x, y, 10, 10, 570, 120);
        let b = in_rect(x, y, 10, 200, 300, 290);
        let c = in_rect(x, y, 320, 200, 600, 280);
        if a || b || c {
            255
        } else {
            0
        }
    });
    let r = detect_boxes(&f);
    assert_eq!(r.len(), 2);
    assert_eq!(r[0], BoundingBox { x: 10, y: 10, w: 561, h: 111 });
    assert_eq!(r[1], BoundingBox { x: 10, y: 200, w: 291, h: 91 });
    let a0 = (r[0].w as u64) * (r[0].h as u64);
    let a1 = (r[1].w as u64) * (r[1].h as u64);
    assert!(a0 >= a1);
}

#[test]
fn featureless_frame_yields_empty_list() {
    // No qualifying region of either color: an empty list, not an
    // error.
    let f = frame_of(640, 360, |_, _| 128);
    let r = detect_boxes(&f);
    assert!(r.is_empty());
}

#[test]
fn black_box_found_when_white_pass_empty() {
    // A black box on a gray frame is found by the fallback pass.
    let f = frame_of(640, 360, |x, y| {
        if in_rect(x, y, 50, 100, 500, 250) {
            0
        } else {
            128
        }
    });
    let r = detect_boxes(&f);
    assert_eq!(r.len(), 1);
    assert_eq!(r[0], BoundingBox { x: 50, y: 100, w: 451, h: 151 });
}

#[test]
fn full_height_region_rejected() {
    // A white column as tall as the frame is a false positive, not a
    // caption box.
    let f = frame_of(640, 360, |x, _| {
        if 100 <= x && x <= 500 {
            255
        } else {
            0
        }
    });
    let r = detect_boxes(&f);
    assert!(r.is_empty());
}

#[test]
fn small_region_rejected() {
    // A white rectangle under the minimum size ratios is dropped.
    let f = frame_of(640, 360, |x, y| {
        if in_rect(x, y, 20, 20, 120, 60) {
            255
        } else {
            0
        }
    });
    let r = detect_boxes(&f);
    assert!(r.is_empty());
}

#[test]
fn identical_frames_no_crop() {
    // No motion anywhere: nothing to crop.
    let f = frame_of(640, 360, |x, y| ((x * 7 + y * 13) % 251) as u8);
    let g = frame_of(640, 360, |x, y| ((x * 7 + y * 13) % 251) as u8);
    assert!(detect_crop(&f, &g).is_none());
}

#[test]
fn mismatched_dimensions_no_crop() {
    let f = frame_of(640, 360, |_, _| 10);
    let g = frame_of(320, 180, |_, _| 10);
    assert!(detect_crop(&f, &g).is_none());
}

#[test]
fn letterbox_bars_cropped() {
    // Static black bars above and below a moving middle region: the
    // crop keeps the middle, full width, even height.
    let a = frame_of(640, 360, |_, y| {
        if y < 40 || y >= 320 {
            0
        } else {
            50
        }
    });
    let b = frame_of(640, 360, |x, y| {
        if y < 40 || y >= 320 {
            0
        } else if ((x / 8) + (y / 8)) % 2 == 0 {
            205
        } else {
            50
        }
    });
    let r = detect_crop(&a, &b).expect("a crop should be detected");
    assert_eq!(r.x, 0);
    assert_eq!(r.w, 640);
    assert!(36 <= r.y && r.y <= 40, "top edge near the bar: {}", r.y);
    assert!(r.h % 2 == 0);
    assert!(r.h >= 276);
    assert!(r.y + r.h <= 360);
}

#[test]
fn blur_spreads_thin_motion() {
    // A one-pixel-wide moving line is below the per-row motion
    // threshold as sampled, and only the blur's spreading lifts it
    // over; unblurred frames would show no crop here.
    let a = frame_of(60, 20, |_, _| 0);
    let b = frame_of(60, 20, |x, y| {
        if x == 30 && 5 <= y && y < 15 {
            255
        } else {
            0
        }
    });
    let r = detect_crop(&a, &b);
    assert!(r.is_some());
}

#[test]
fn detected_box_feeds_the_plan() {
    // End to end: a frame with one white caption box, a single
    // replacement text — the plan erases exactly the detected box,
    // margins the text into it, and adds no padding.
    let f = frame_of(640, 360, |x, y| {
        if in_rect(x, y, 20, 20, 300, 100) {
            255
        } else {
            0
        }
    });
    let boxes = detect_boxes(&f);
    assert_eq!(boxes.len(), 1);
    let req = EditRequest::SingleText(b"Hello".to_vec());
    let p = build_plan(&boxes, &req, 640, 360).expect("plan");
    assert_eq!(p.out_width, 640);
    assert_eq!(p.out_height, 360);
    assert_eq!(p.stages.len(), 1);
    let b = boxes[0];
    match p.stages[0].op {
        StageOp::FillRect { x, y, w, h } => {
            assert_eq!((x, y, w, h), (b.x, b.y, b.w, b.h));
        }
        _ => panic!("expected an erase fill"),
    }
    assert_eq!(p.events.len(), 1);
    assert_eq!(p.events[0].text, b"Hello".to_vec());
    assert_eq!(p.events[0].margin_l, b.x);
    assert_eq!(p.events[0].margin_r, 640 - (b.x + b.w));
}

#[test]
fn negligible_crop_skipped() {
    // Motion filling nearly the whole frame: cropping would remove
    // next to nothing, so no crop is returned.
    let a = frame_of(640, 360, |_, _| 0);
    let b = frame_of(640, 360, |x, y| (((x + y) / 16) % 2) as u8 * 200);
    assert!(detect_crop(&a, &b).is_none());
}
