//! The border/crop detector: compares two frames of the same video
//! sampled about a second apart and finds the sub-rectangle that
//! contains visual motion, scanning inward from each edge and stopping
//! at the first moving line. Static letterbox bars never move, so they
//! fall outside the rectangle, while black video content that does move
//! stays inside it.

use vstd::prelude::*;
use vstd::math::min;
use crate::geom::CropRect;
use crate::frame::Frame;
use crate::vision::{blur_luma, blur_small};

verus! {

/// How much a sample may change between the two frames and still count
/// as static noise.
pub const PIXEL_CUT: u8 = 15;

/// Whether the sample at (x, y) differs between the two grids by more
/// than the noise cut.
pub open spec fn samples_differ(a: Seq<Seq<u8>>, b: Seq<Seq<u8>>, x: int, y: int) -> bool {
    let pa = a[y][x];
    let pb = b[y][x];
    (if pa >= pb { pa - pb } else { pb - pa }) > PIXEL_CUT
}

/// How many of the first `n` samples of row `y` differ.
pub open spec fn row_diffs(a: Seq<Seq<u8>>, b: Seq<Seq<u8>>, y: int, n: int) -> int
    decreases n,
{
    if n <= 0 {
        0
    } else {
        row_diffs(a, b, y, n - 1) + if samples_differ(a, b, n - 1, y) { 1int } else { 0int }
    }
}

/// A row is moving when more than a fiftieth (2%) of its samples differ.
pub open spec fn row_moving(a: Seq<Seq<u8>>, b: Seq<Seq<u8>>, y: int, w: int) -> bool {
    50 * row_diffs(a, b, y, w) > w
}

/// How many of the samples of column `x` in rows `y0 .. y0 + n` differ.
pub open spec fn col_diffs(a: Seq<Seq<u8>>, b: Seq<Seq<u8>>, x: int, y0: int, n: int) -> int
    decreases n,
{
    if n <= 0 {
        0
    } else {
        col_diffs(a, b, x, y0, n - 1) + if samples_differ(a, b, x, y0 + n - 1) { 1int } else { 0int }
    }
}

/// A column is moving, over the rows `y0 .. y1`, when more than a
/// fiftieth (2%) of those samples differ.
pub open spec fn col_moving(a: Seq<Seq<u8>>, b: Seq<Seq<u8>>, x: int, y0: int, y1: int) -> bool {
    50 * col_diffs(a, b, x, y0, y1 - y0) > y1 - y0
}

/// The first moving row at or below `y`, or `h` when none is.
pub open spec fn first_moving_row(a: Seq<Seq<u8>>, b: Seq<Seq<u8>>, w: int, h: int, y: int) -> int
    decreases h - y,
{
    if y >= h {
        h
    } else if row_moving(a, b, y, w) {
        y
    } else {
        first_moving_row(a, b, w, h, y + 1)
    }
}

/// The last moving row at or above `y`, or -1 when none is.
pub open spec fn last_moving_row(a: Seq<Seq<u8>>, b: Seq<Seq<u8>>, w: int, y: int) -> int
    decreases y + 1,
{
    if y < 0 {
        -1
    } else if row_moving(a, b, y, w) {
        y
    } else {
        last_moving_row(a, b, w, y - 1)
    }
}

/// The first moving column at or right of `x`, over rows `y0 .. y1`, or
/// `w` when none is.
pub open spec fn first_moving_col(
    a: Seq<Seq<u8>>, b: Seq<Seq<u8>>, y0: int, y1: int, w: int, x: int) -> int
    decreases w - x,
{
    if x >= w {
        w
    } else if col_moving(a, b, x, y0, y1) {
        x
    } else {
        first_moving_col(a, b, y0, y1, w, x + 1)
    }
}

/// The last moving column at or left of `x`, over rows `y0 .. y1`, or -1
/// when none is.
pub open spec fn last_moving_col(
    a: Seq<Seq<u8>>, b: Seq<Seq<u8>>, y0: int, y1: int, x: int) -> int
    decreases x + 1,
{
    if x < 0 {
        -1
    } else if col_moving(a, b, x, y0, y1) {
        x
    } else {
        last_moving_col(a, b, y0, y1, x - 1)
    }
}

/// What the crop detector decides for two blurred grids of the given
/// dimensions: the rectangle between the outermost moving lines, `None`
/// when that rectangle is degenerate or removes next to nothing, its
/// width and height rounded up to even values clamped to the frame.
pub open spec fn crop_decision(a: Seq<Seq<u8>>, b: Seq<Seq<u8>>, w: int, h: int)
    -> Option<CropRect>
{
    let fr = first_moving_row(a, b, w, h, 0);
    let top = if fr == h { 0int } else { fr };
    let lr = last_moving_row(a, b, w, h - 1);
    let bottom = if lr == -1 { h } else { lr };
    let fc = first_moving_col(a, b, top, bottom, w, 0);
    let left = if fc == w { 0int } else { fc };
    let lc = last_moving_col(a, b, top, bottom, w - 1);
    let right = if lc == -1 { w } else { lc };
    if top >= bottom || left >= right {
        None
    } else {
        let cw = right - left;
        let ch = bottom - top;
        if w - cw < 10 && h - ch < 10 {
            None
        } else {
            let fw = if cw % 2 != 0 { min(cw + 1, w) } else { cw };
            let fh = if ch % 2 != 0 { min(ch + 1, h) } else { ch };
            Some(CropRect { x: left as u32, y: top as u32, w: fw as u32, h: fh as u32 })
        }
    }
}

/// How many of the first `n` samples of row `y` differ, counted.
fn row_motion_count(a: &Frame, b: &Frame, y: u32) -> (c: u64)
    requires
        a.wf(),
        b.wf(),
        a.width == b.width,
        a.height == b.height,
        y < a.height,
    ensures
        c == row_diffs(a.grid(), b.grid(), y as int, a.width as int),
        c <= a.width,
{
    let mut c: u64 = 0;
    let mut x: u32 = 0;
    while x < a.width
        invariant
            a.wf(),
            b.wf(),
            a.width == b.width,
            a.height == b.height,
            y < a.height,
            x <= a.width,
            c <= x,
            c == row_diffs(a.grid(), b.grid(), y as int, x as int),
        decreases a.width - x,
    {
        let pa = a.get(x, y);
        let pb = b.get(x, y);
        let d = if pa >= pb { pa - pb } else { pb - pa };
        if d > PIXEL_CUT {
            c = c + 1;
        }
        x = x + 1;
    }
    c
}

/// Whether row `y` is moving.
fn row_is_moving(a: &Frame, b: &Frame, y: u32) -> (r: bool)
    requires
        a.wf(),
        b.wf(),
        a.width == b.width,
        a.height == b.height,
        y < a.height,
    ensures
        r == row_moving(a.grid(), b.grid(), y as int, a.width as int),
{
    let c = row_motion_count(a, b, y);
    50 * c > a.width as u64
}

/// How many samples of column `x` over rows `y0 .. y1` differ, counted.
fn col_motion_count(a: &Frame, b: &Frame, x: u32, y0: u32, y1: u32) -> (c: u64)
    requires
        a.wf(),
        b.wf(),
        a.width == b.width,
        a.height == b.height,
        x < a.width,
        y0 <= y1 <= a.height,
    ensures
        c == col_diffs(a.grid(), b.grid(), x as int, y0 as int, y1 - y0),
        c <= y1 - y0,
{
    let mut c: u64 = 0;
    let mut y: u32 = y0;
    while y < y1
        invariant
            a.wf(),
            b.wf(),
            a.width == b.width,
            a.height == b.height,
            x < a.width,
            y0 <= y <= y1 <= a.height,
            c <= y - y0,
            c == col_diffs(a.grid(), b.grid(), x as int, y0 as int, y - y0),
        decreases y1 - y,
    {
        let pa = a.get(x, y);
        let pb = b.get(x, y);
        let d = if pa >= pb { pa - pb } else { pb - pa };
        if d > PIXEL_CUT {
            c = c + 1;
        }
        y = y + 1;
    }
    c
}

/// Whether column `x` is moving over rows `y0 .. y1`.
fn col_is_moving(a: &Frame, b: &Frame, x: u32, y0: u32, y1: u32) -> (r: bool)
    requires
        a.wf(),
        b.wf(),
        a.width == b.width,
        a.height == b.height,
        x < a.width,
        y0 <= y1 <= a.height,
    ensures
        r == col_moving(a.grid(), b.grid(), x as int, y0 as int, y1 as int),
{
    let c = col_motion_count(a, b, x, y0, y1);
    50 * c > (y1 - y0) as u64
}

/// The first moving row of the pair, or the height when none is.
fn scan_first_moving_row(a: &Frame, b: &Frame) -> (r: u32)
    requires
        a.wf(),
        b.wf(),
        a.width == b.width,
        a.height == b.height,
    ensures
        r == first_moving_row(a.grid(), b.grid(), a.width as int, a.height as int, 0),
        r <= a.height,
{
    let mut y: u32 = 0;
    while y < a.height
        invariant
            a.wf(),
            b.wf(),
            a.width == b.width,
            a.height == b.height,
            y <= a.height,
            first_moving_row(a.grid(), b.grid(), a.width as int, a.height as int, 0)
                == first_moving_row(a.grid(), b.grid(), a.width as int, a.height as int, y as int),
        decreases a.height - y,
    {
        if row_is_moving(a, b, y) {
            return y;
        }
        y = y + 1;
    }
    y
}

/// The last moving row of the pair; `true` in the second component only
/// when some row is moving.
fn scan_last_moving_row(a: &Frame, b: &Frame) -> (r: (u32, bool))
    requires
        a.wf(),
        b.wf(),
        a.width == b.width,
        a.height == b.height,
    ensures
        r.1 ==> last_moving_row(a.grid(), b.grid(), a.width as int, a.height - 1) == r.0
            && r.0 < a.height,
        !r.1 ==> last_moving_row(a.grid(), b.grid(), a.width as int, a.height - 1) == -1,
{
    let mut y: u32 = a.height;
    while y > 0
        invariant
            a.wf(),
            b.wf(),
            a.width == b.width,
            a.height == b.height,
            y <= a.height,
            last_moving_row(a.grid(), b.grid(), a.width as int, a.height - 1)
                == last_moving_row(a.grid(), b.grid(), a.width as int, y - 1),
        decreases y,
    {
        if row_is_moving(a, b, y - 1) {
            return (y - 1, true);
        }
        y = y - 1;
    }
    (0, false)
}

/// The first moving column over rows `y0 .. y1`, or the width when none
/// is.
fn scan_first_moving_col(a: &Frame, b: &Frame, y0: u32, y1: u32) -> (r: u32)
    requires
        a.wf(),
        b.wf(),
        a.width == b.width,
        a.height == b.height,
        y0 <= y1 <= a.height,
    ensures
        r == first_moving_col(a.grid(), b.grid(), y0 as int, y1 as int, a.width as int, 0),
        r <= a.width,
{
    let mut x: u32 = 0;
    while x < a.width
        invariant
            a.wf(),
            b.wf(),
            a.width == b.width,
            a.height == b.height,
            y0 <= y1 <= a.height,
            x <= a.width,
            first_moving_col(a.grid(), b.grid(), y0 as int, y1 as int, a.width as int, 0)
                == first_moving_col(a.grid(), b.grid(), y0 as int, y1 as int, a.width as int,
                    x as int),
        decreases a.width - x,
    {
        if col_is_moving(a, b, x, y0, y1) {
            return x;
        }
        x = x + 1;
    }
    x
}

/// The last moving column over rows `y0 .. y1`; `true` in the second
/// component only when some column is moving.
fn scan_last_moving_col(a: &Frame, b: &Frame, y0: u32, y1: u32) -> (r: (u32, bool))
    requires
        a.wf(),
        b.wf(),
        a.width == b.width,
        a.height == b.height,
        y0 <= y1 <= a.height,
    ensures
        r.1 ==> last_moving_col(a.grid(), b.grid(), y0 as int, y1 as int, a.width - 1) == r.0
            && r.0 < a.width,
        !r.1 ==> last_moving_col(a.grid(), b.grid(), y0 as int, y1 as int, a.width - 1) == -1,
{
    let mut x: u32 = a.width;
    while x > 0
        invariant
            a.wf(),
            b.wf(),
            a.width == b.width,
            a.height == b.height,
            y0 <= y1 <= a.height,
            x <= a.width,
            last_moving_col(a.grid(), b.grid(), y0 as int, y1 as int, a.width - 1)
                == last_moving_col(a.grid(), b.grid(), y0 as int, y1 as int, x - 1),
        decreases x,
    {
        if col_is_moving(a, b, x - 1, y0, y1) {
            return (x - 1, true);
        }
        x = x - 1;
    }
    (0, false)
}

/// Compares two frames of the same video and finds the sub-rectangle
/// containing visual motion, to be kept when stripping static borders.
/// Returns `None` for mismatched dimensions, for a pair with no
/// consistent motion area, and when cropping would remove next to
/// nothing.
pub fn detect_crop(fa: &Frame, fb: &Frame) -> (r: Option<CropRect>)
    requires
        fa.wf(),
        fb.wf(),
        fa.width * fa.height <= usize::MAX,
    ensures
        fa.width != fb.width || fa.height != fb.height ==> r is None,
        fa.width == fb.width && fa.height == fb.height ==> r == crop_decision(
            blur_luma(fa.grid()), blur_luma(fb.grid()), fa.width as int, fa.height as int),
        r matches Some(c) ==> {
            &&& c.wf()
            &&& c.x < fa.width
            &&& c.y < fa.height
            &&& c.x + c.w <= fa.width + 1
            &&& c.y + c.h <= fa.height + 1
            &&& (c.w % 2 == 0 || c.w == fa.width)
            &&& (c.h % 2 == 0 || c.h == fa.height)
        },
{
    if fa.width != fb.width || fa.height != fb.height {
        return None;
    }
    let w = fa.width;
    let h = fa.height;
    if w == 0 || h == 0 {
        return None;
    }
    let a = blur_small(fa);
    let b = blur_small(fb);
    let ghost ga = a.grid();
    let ghost gb = b.grid();

    let fr = scan_first_moving_row(&a, &b);
    let top = if fr == h { 0 } else { fr };
    let (lr, lr_found) = scan_last_moving_row(&a, &b);
    let bottom = if !lr_found { h } else { lr };
    if top >= bottom {
        return None;
    }
    let fc = scan_first_moving_col(&a, &b, top, bottom);
    let left = if fc == w { 0 } else { fc };
    let (lc, lc_found) = scan_last_moving_col(&a, &b, top, bottom);
    let right = if !lc_found { w } else { lc };
    if left >= right {
        return None;
    }
    let cw = right - left;
    let ch = bottom - top;
    if w - cw < 10 && h - ch < 10 {
        return None;
    }
    let fw = if cw % 2 != 0 {
        if cw < w { cw + 1 } else { w }
    } else {
        cw
    };
    let fh = if ch % 2 != 0 {
        if ch < h { ch + 1 } else { h }
    } else {
        ch
    };
    Some(CropRect { x: left, y: top, w: fw, h: fh })
}

proof fn lemma_row_diffs_self(a: Seq<Seq<u8>>, y: int, n: int)
    ensures
        row_diffs(a, a, y, n) == 0,
    decreases n,
{
    if n > 0 {
        lemma_row_diffs_self(a, y, n - 1);
    }
}

proof fn lemma_col_diffs_self(a: Seq<Seq<u8>>, x: int, y0: int, n: int)
    ensures
        col_diffs(a, a, x, y0, n) == 0,
    decreases n,
{
    if n > 0 {
        lemma_col_diffs_self(a, x, y0, n - 1);
    }
}

proof fn lemma_first_row_self(a: Seq<Seq<u8>>, w: int, h: int, y: int)
    requires
        y <= h,
        w >= 0,
    ensures
        first_moving_row(a, a, w, h, y) == h,
    decreases h - y,
{
    if y < h {
        lemma_row_diffs_self(a, y, w);
        lemma_first_row_self(a, w, h, y + 1);
    }
}

proof fn lemma_last_row_self(a: Seq<Seq<u8>>, w: int, y: int)
    requires
        w >= 0,
    ensures
        last_moving_row(a, a, w, y) == -1,
    decreases y + 1,
{
    if y >= 0 {
        lemma_row_diffs_self(a, y, w);
        lemma_last_row_self(a, w, y - 1);
    }
}

proof fn lemma_first_col_self(a: Seq<Seq<u8>>, y0: int, y1: int, w: int, x: int)
    requires
        x <= w,
        y0 <= y1,
    ensures
        first_moving_col(a, a, y0, y1, w, x) == w,
    decreases w - x,
{
    if x < w {
        lemma_col_diffs_self(a, x, y0, y1 - y0);
        lemma_first_col_self(a, y0, y1, w, x + 1);
    }
}

proof fn lemma_last_col_self(a: Seq<Seq<u8>>, y0: int, y1: int, x: int)
    requires
        y0 <= y1,
    ensures
        last_moving_col(a, a, y0, y1, x) == -1,
    decreases x + 1,
{
    if x >= 0 {
        lemma_col_diffs_self(a, x, y0, y1 - y0);
        lemma_last_col_self(a, y0, y1, x - 1);
    }
}

/// Two identical grids show no motion anywhere, so the crop detector
/// keeps the whole frame and reports that there is nothing to crop.
pub proof fn lemma_still_frames_no_crop(a: Seq<Seq<u8>>, w: int, h: int)
    ensures
        crop_decision(a, a, w, h) is None,
{
    if w >= 0 && h >= 0 {
        lemma_first_row_self(a, w, h, 0);
        lemma_last_row_self(a, w, h - 1);
        assert(first_moving_row(a, a, w, h, 0) == h);
        assert(last_moving_row(a, a, w, h - 1) == -1);
        lemma_first_col_self(a, 0, h, w, 0);
        lemma_last_col_self(a, 0, h, w - 1);
    } else if h < 0 {
        assert(first_moving_row(a, a, w, h, 0) == h);
        assert(last_moving_row(a, a, w, h - 1) == -1);
    } else {
        assert(first_moving_col(a, a, 0, h - 1, w, 0) == w);
        assert(last_moving_col(a, a, 0, h - 1, w - 1) == -1);
        assert(first_moving_col(a, a, 0, h, w, 0) == w);
        assert(last_moving_col(a, a, 0, h, w - 1) == -1);
    }
}

} // verus!
