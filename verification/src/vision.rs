//! Trusted wrappers around the raster operations of the `image` and
//! `imageproc` crates that the detectors call in the middle of their
//! logic: a small Gaussian blur and border-contour tracing.

use vstd::prelude::*;
use crate::frame::Frame;

verus! {

/// What the small-radius Gaussian blur returns for a grid of luma
/// samples. The result depends on the samples alone.
pub uninterp spec fn blur_luma(rows: Seq<Seq<u8>>) -> Seq<Seq<u8>>;

/// What the contour tracer returns for a grid: the borders of its
/// 8-connected foreground (non-zero) regions, each a list of pixel
/// coordinates. The result depends on the samples alone.
pub uninterp spec fn contours_in(rows: Seq<Seq<u8>>) -> Seq<Seq<(u32, u32)>>;

/// Relies on image::imageops::blur: a small-radius Gaussian blur that
/// keeps the image dimensions and computes each output sample from the
/// input samples alone.
#[verifier::external_body]
pub(crate) fn blur_small(f: &Frame) -> (r: Frame)
    requires
        f.wf(),
        f.width >= 1,
        f.height >= 1,
        f.width * f.height <= usize::MAX,
    ensures
        r.wf(),
        r.width == f.width,
        r.height == f.height,
        r.grid() == blur_luma(f.grid()),
{
    let mut flat: Vec<u8> = Vec::with_capacity(f.width as usize * f.height as usize);
    for row in f.rows.iter() {
        flat.extend_from_slice(row);
    }
    let img = image::GrayImage::from_raw(f.width, f.height, flat).unwrap();
    let out = image::imageops::blur(&img, 1u16.into()).into_raw();
    let rows: Vec<Vec<u8>> = out.chunks(f.width as usize).map(|c| c.to_vec()).collect();
    Frame { width: f.width, height: f.height, rows }
}

/// Relies on imageproc::contours::find_contours: traces the borders of
/// all foreground regions of a binary image; every traced point is a
/// pixel position of the image, so each coordinate lies within the
/// image bounds.
#[verifier::external_body]
pub(crate) fn trace_contours(f: &Frame) -> (r: Vec<Vec<(u32, u32)>>)
    requires
        f.wf(),
        f.width <= 0x7fff_ffff,
        f.height <= 0x7fff_ffff,
        f.width * f.height <= usize::MAX,
    ensures
        r@.len() == contours_in(f.grid()).len(),
        forall|i: int| 0 <= i < r@.len() ==> (#[trigger] r@[i])@ == contours_in(f.grid())[i],
        forall|i: int, j: int|
            0 <= i < r@.len() && 0 <= j < (#[trigger] r@[i])@.len()
                ==> (#[trigger] r@[i]@[j]).0 < f.width && r@[i]@[j].1 < f.height,
{
    let mut flat: Vec<u8> = Vec::with_capacity(f.width as usize * f.height as usize);
    for row in f.rows.iter() {
        flat.extend_from_slice(row);
    }
    let img = image::GrayImage::from_raw(f.width, f.height, flat).unwrap();
    let contours = imageproc::contours::find_contours::<i32>(&img);
    contours
        .into_iter()
        .map(|c| c.points.into_iter().map(|p| (p.x as u32, p.y as u32)).collect())
        .collect()
}

} // verus!
