//! Single-channel (luma) raster frames and the per-pixel transformations
//! the detectors run before tracing contours: thresholding to a binary
//! image and padding with a black border.

use vstd::prelude::*;

verus! {

/// A luma frame: `height` rows of `width` samples each.
pub struct Frame {
    pub width: u32,
    pub height: u32,
    pub rows: Vec<Vec<u8>>,
}

/// The grid of a well-formed frame, as a sequence of rows.
pub open spec fn grid_of(f: Frame) -> Seq<Seq<u8>> {
    Seq::new(f.rows@.len(), |y: int| f.rows@[y]@)
}

impl Frame {
    /// Every row has exactly `width` samples and there are `height` rows.
    pub open spec fn wf(self) -> bool {
        &&& self.rows@.len() == self.height
        &&& forall|y: int| 0 <= y < self.rows@.len() ==> (#[trigger] self.rows@[y])@.len() == self.width
    }

    /// The luma sample at column `x` of row `y`.
    pub open spec fn pix(self, x: int, y: int) -> u8 {
        self.rows@[y]@[x]
    }

    /// The rows of this frame as a mathematical grid.
    pub open spec fn grid(self) -> Seq<Seq<u8>> {
        grid_of(self)
    }

    /// Reads one sample.
    pub fn get(&self, x: u32, y: u32) -> (p: u8)
        requires
            self.wf(),
            x < self.width,
            y < self.height,
        ensures
            p == self.pix(x as int, y as int),
    {
        self.rows[y as usize][x as usize]
    }
}

/// What thresholding against a high cut leaves: 255 where the sample
/// exceeds `t`, 0 elsewhere.
pub open spec fn thresh_above(v: Seq<Seq<u8>>, t: u8) -> Seq<Seq<u8>> {
    Seq::new(v.len(), |y: int| Seq::new(v[y].len(), |x: int| if v[y][x] > t { 255u8 } else { 0u8 }))
}

/// What thresholding against a low cut leaves: 255 where the sample is
/// below `t`, 0 elsewhere.
pub open spec fn thresh_below(v: Seq<Seq<u8>>, t: u8) -> Seq<Seq<u8>> {
    Seq::new(v.len(), |y: int| Seq::new(v[y].len(), |x: int| if v[y][x] < t { 255u8 } else { 0u8 }))
}

/// The sample of a frame padded by one black pixel on all sides: the
/// original sample shifted by one, 0 on the border.
pub open spec fn pad_pix(v: Seq<Seq<u8>>, width: int, x: int, y: int) -> u8 {
    if 1 <= y <= v.len() && 1 <= x <= width {
        v[y - 1][x - 1]
    } else {
        0u8
    }
}

/// The grid padded by one black pixel on all sides.
pub open spec fn padded(v: Seq<Seq<u8>>, width: int) -> Seq<Seq<u8>> {
    Seq::new(v.len() + 2, |y: int| Seq::new((width + 2) as nat, |x: int| pad_pix(v, width, x, y)))
}

/// Binarizes a frame: samples strictly above `t` become foreground (255),
/// the rest background (0).
pub fn threshold_above(f: &Frame, t: u8) -> (r: Frame)
    requires
        f.wf(),
    ensures
        r.wf(),
        r.width == f.width,
        r.height == f.height,
        r.grid() =~~= thresh_above(f.grid(), t),
{
    let mut rows: Vec<Vec<u8>> = Vec::new();
    let mut y: usize = 0;
    while y < f.rows.len()
        invariant
            f.wf(),
            y <= f.rows@.len(),
            rows@.len() == y,
            forall|j: int| 0 <= j < y ==> (#[trigger] rows@[j])@ =~= thresh_above(f.grid(), t)[j],
        decreases f.rows@.len() - y,
    {
        let src = &f.rows[y];
        let mut row: Vec<u8> = Vec::new();
        let mut x: usize = 0;
        while x < src.len()
            invariant
                x <= src@.len(),
                row@.len() == x,
                forall|i: int| 0 <= i < x ==> row@[i] == (if src@[i] > t { 255u8 } else { 0u8 }),
            decreases src@.len() - x,
        {
            if src[x] > t {
                row.push(255);
            } else {
                row.push(0);
            }
            x = x + 1;
        }
        rows.push(row);
        y = y + 1;
    }
    Frame { width: f.width, height: f.height, rows }
}

/// Binarizes a frame: samples strictly below `t` become foreground (255),
/// the rest background (0).
pub fn threshold_below(f: &Frame, t: u8) -> (r: Frame)
    requires
        f.wf(),
    ensures
        r.wf(),
        r.width == f.width,
        r.height == f.height,
        r.grid() =~~= thresh_below(f.grid(), t),
{
    let mut rows: Vec<Vec<u8>> = Vec::new();
    let mut y: usize = 0;
    while y < f.rows.len()
        invariant
            f.wf(),
            y <= f.rows@.len(),
            rows@.len() == y,
            forall|j: int| 0 <= j < y ==> (#[trigger] rows@[j])@ =~= thresh_below(f.grid(), t)[j],
        decreases f.rows@.len() - y,
    {
        let src = &f.rows[y];
        let mut row: Vec<u8> = Vec::new();
        let mut x: usize = 0;
        while x < src.len()
            invariant
                x <= src@.len(),
                row@.len() == x,
                forall|i: int| 0 <= i < x ==> row@[i] == (if src@[i] < t { 255u8 } else { 0u8 }),
            decreases src@.len() - x,
        {
            if src[x] < t {
                row.push(255);
            } else {
                row.push(0);
            }
            x = x + 1;
        }
        rows.push(row);
        y = y + 1;
    }
    Frame { width: f.width, height: f.height, rows }
}

/// Pads a frame by one pixel of black on all sides, so that a region
/// touching the frame edge becomes a fully enclosed component for the
/// contour tracer.
pub fn pad_black(f: &Frame) -> (r: Frame)
    requires
        f.wf(),
        f.width < u32::MAX - 1,
        f.height < u32::MAX - 1,
        f.width + 2 <= usize::MAX,
        f.height + 2 <= usize::MAX,
    ensures
        r.wf(),
        r.width == f.width + 2,
        r.height == f.height + 2,
        r.grid() =~~= padded(f.grid(), f.width as int),
{
    let out_w: usize = f.width as usize + 2;
    let out_h: usize = f.rows.len() + 2;
    let mut rows: Vec<Vec<u8>> = Vec::new();
    let mut y: usize = 0;
    while y < out_h
        invariant
            f.wf(),
            out_w == f.width + 2,
            out_h == f.rows@.len() + 2,
            y <= out_h,
            rows@.len() == y,
            forall|j: int| 0 <= j < y ==> (#[trigger] rows@[j])@ =~= padded(f.grid(), f.width as int)[j],
        decreases out_h - y,
    {
        let mut row: Vec<u8> = Vec::new();
        if y == 0 || y == out_h - 1 {
            let mut x: usize = 0;
            while x < out_w
                invariant
                    x <= out_w,
                    row@.len() == x,
                    forall|i: int| 0 <= i < x ==> row@[i] == 0u8,
                decreases out_w - x,
            {
                row.push(0);
                x = x + 1;
            }
        } else {
            row.push(0);
            let src = &f.rows[y - 1];
            let mut x: usize = 0;
            while x < src.len()
                invariant
                    x <= src@.len(),
                    row@.len() == x + 1,
                    row@[0] == 0u8,
                    forall|i: int| 1 <= i < x + 1 ==> row@[i] == src@[i - 1],
                decreases src@.len() - x,
            {
                row.push(src[x]);
                x = x + 1;
            }
            row.push(0);
        }
        assert forall|i: int| 0 <= i < out_w implies row@[i] == pad_pix(f.grid(), f.width as int, i, y as int) by {}
        rows.push(row);
        y = y + 1;
    }
    Frame { width: f.width + 2, height: f.height + 2, rows }
}

} // verus!
