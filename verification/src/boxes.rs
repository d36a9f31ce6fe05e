//! The box detector: finds up to two large solid-color rectangular
//! regions of a frame (candidate caption areas), largest first.
//!
//! A frame is padded by one black pixel, thresholded to a binary image
//! (white boxes first; black boxes only if the white pass yields no
//! candidate), its contours traced, and each contour reduced to its
//! bounding rectangle, mapped back to frame coordinates. Rectangles
//! below the minimum size ratios or as tall as the frame are dropped;
//! of the rest, the two of largest area are returned.

use vstd::prelude::*;
use vstd::math::{min, max};
use crate::geom::BoundingBox;
use crate::frame::{Frame, padded, thresh_above, thresh_below, pad_black, threshold_above,
    threshold_below};
use crate::vision::{contours_in, trace_contours};

verus! {

/// Luma above which a sample counts as part of a white box.
pub const WHITE_CUT: u8 = 230;

/// Luma below which a sample counts as part of a black box.
pub const BLACK_CUT: u8 = 3;

/// Minimum width of a caption box: two fifths of the frame width.
pub open spec fn min_box_width(w: int) -> int {
    2 * w / 5
}

/// Minimum height of a caption box: one fifth of the frame height.
pub open spec fn min_box_height(h: int) -> int {
    h / 5
}

/// The extreme coordinates (min x, min y, max x, max y) of a non-empty
/// list of points.
pub open spec fn extent(ps: Seq<(u32, u32)>) -> (int, int, int, int)
    recommends
        ps.len() > 0,
    decreases ps.len(),
{
    if ps.len() <= 1 {
        (ps[0].0 as int, ps[0].1 as int, ps[0].0 as int, ps[0].1 as int)
    } else {
        let e = extent(ps.drop_last());
        let p = ps.last();
        (min(e.0, p.0 as int), min(e.1, p.1 as int), max(e.2, p.0 as int), max(e.3, p.1 as int))
    }
}

/// Maps the extreme coordinates of a contour of the padded image back to
/// frame coordinates (one less on each axis), clipped to the frame; a
/// rectangle that leaves nothing inside the frame yields no candidate.
pub open spec fn clip_candidate(minx: int, miny: int, maxx: int, maxy: int, w: int, h: int)
    -> Option<BoundingBox>
{
    let x0 = max(minx - 1, 0);
    let y0 = max(miny - 1, 0);
    let x1 = min(maxx - 1, w - 1);
    let y1 = min(maxy - 1, h - 1);
    if x0 <= x1 && y0 <= y1 {
        Some(BoundingBox {
            x: x0 as u32,
            y: y0 as u32,
            w: (x1 - x0 + 1) as u32,
            h: (y1 - y0 + 1) as u32,
        })
    } else {
        None
    }
}

/// The candidate rectangle of one contour: its bounding rectangle in
/// frame coordinates, kept only when at least the minimum size.
pub open spec fn cand_of(ps: Seq<(u32, u32)>, w: int, h: int, minw: int, minh: int)
    -> Option<BoundingBox>
{
    if ps.len() == 0 {
        None
    } else {
        let e = extent(ps);
        match clip_candidate(e.0, e.1, e.2, e.3, w, h) {
            Some(b) => if b.w >= minw && b.h >= minh {
                Some(b)
            } else {
                None
            },
            None => None,
        }
    }
}

/// The candidate rectangles of a list of contours, in contour order.
pub open spec fn cand_list(cs: Seq<Seq<(u32, u32)>>, w: int, h: int, minw: int, minh: int)
    -> Seq<BoundingBox>
    decreases cs.len(),
{
    if cs.len() == 0 {
        Seq::empty()
    } else {
        let rest = cand_list(cs.drop_last(), w, h, minw, minh);
        match cand_of(cs.last(), w, h, minw, minh) {
            Some(b) => rest.push(b),
            None => rest,
        }
    }
}

/// Keeps the rectangles lower than the full frame height; one as tall as
/// the frame is a false positive, not a caption box.
pub open spec fn keep_short(s: Seq<BoundingBox>, h: int) -> Seq<BoundingBox>
    decreases s.len(),
{
    if s.len() == 0 {
        Seq::empty()
    } else {
        let rest = keep_short(s.drop_last(), h);
        if s.last().h < h {
            rest.push(s.last())
        } else {
            rest
        }
    }
}

/// Insertion into a list sorted by descending area: the new rectangle
/// goes after every rectangle of at least its area.
pub open spec fn insert_desc(s: Seq<BoundingBox>, b: BoundingBox) -> Seq<BoundingBox>
    decreases s.len(),
{
    if s.len() == 0 {
        seq![b]
    } else if s[0].area() >= b.area() {
        seq![s[0]] + insert_desc(s.drop_first(), b)
    } else {
        seq![b] + s
    }
}

/// Stable insertion sort by descending area.
pub open spec fn sort_desc(s: Seq<BoundingBox>) -> Seq<BoundingBox>
    decreases s.len(),
{
    if s.len() == 0 {
        Seq::empty()
    } else {
        insert_desc(sort_desc(s.drop_last()), s.last())
    }
}

/// Sorted by descending area.
pub open spec fn sorted_desc(s: Seq<BoundingBox>) -> bool {
    forall|i: int, j: int| 0 <= i < j < s.len() ==> s[i].area() >= s[j].area()
}

/// The candidates of the white-box pass of a frame.
pub open spec fn white_candidates(grid: Seq<Seq<u8>>, w: int, h: int) -> Seq<BoundingBox> {
    cand_list(
        contours_in(thresh_above(padded(grid, w), WHITE_CUT)),
        w, h, min_box_width(w), min_box_height(h),
    )
}

/// The candidates of the black-box pass of a frame.
pub open spec fn black_candidates(grid: Seq<Seq<u8>>, w: int, h: int) -> Seq<BoundingBox> {
    cand_list(
        contours_in(thresh_below(padded(grid, w), BLACK_CUT)),
        w, h, min_box_width(w), min_box_height(h),
    )
}

/// What the box detector returns: the white pass where it yields any
/// candidate, else the black pass; the survivors of the height filter
/// sorted by descending area; of those at most the first two.
pub open spec fn detect_spec(grid: Seq<Seq<u8>>, w: int, h: int) -> Seq<BoundingBox> {
    let white = white_candidates(grid, w, h);
    let cands = if white.len() > 0 {
        white
    } else {
        black_candidates(grid, w, h)
    };
    let sorted = sort_desc(keep_short(cands, h));
    sorted.take(min(2, sorted.len() as int))
}

/// The grids of a list of contours.
pub open spec fn contour_views(cs: Seq<Vec<(u32, u32)>>) -> Seq<Seq<(u32, u32)>> {
    Seq::new(cs.len(), |i: int| cs[i]@)
}

proof fn lemma_insert_desc(s: Seq<BoundingBox>, b: BoundingBox)
    ensures
        insert_desc(s, b).len() == s.len() + 1,
        forall|x: BoundingBox| #[trigger] insert_desc(s, b).contains(x)
            ==> s.contains(x) || x == b,
        sorted_desc(s) ==> sorted_desc(insert_desc(s, b)),
    decreases s.len(),
{
    if s.len() == 0 {
    } else if s[0].area() >= b.area() {
        let rest = s.drop_first();
        lemma_insert_desc(rest, b);
        let r = seq![s[0]] + insert_desc(rest, b);
        assert(insert_desc(s, b) == r);
        assert forall|x: BoundingBox| #[trigger] r.contains(x)
            implies s.contains(x) || x == b by {
            if r.contains(x) {
                let i = choose|i: int| 0 <= i < r.len() && r[i] == x;
                if i == 0 {
                    assert(s[0] == x);
                    assert(s.contains(x));
                } else {
                    assert(insert_desc(rest, b).contains(x));
                    if rest.contains(x) {
                        let j = choose|j: int| 0 <= j < rest.len() && rest[j] == x;
                        assert(s[j + 1] == x);
                        assert(s.contains(x));
                    }
                }
            }
        }
        if sorted_desc(s) {
            assert(sorted_desc(rest)) by {
                assert forall|i: int, j: int| 0 <= i < j < rest.len()
                    implies rest[i].area() >= rest[j].area() by {
                    assert(s[i + 1].area() >= s[j + 1].area());
                }
            }
            assert forall|i: int, j: int| 0 <= i < j < r.len()
                implies r[i].area() >= r[j].area() by {
                if i == 0 {
                    let x = r[j];
                    assert(insert_desc(rest, b).contains(insert_desc(rest, b)[j - 1]));
                    assert(rest.contains(x) || x == b);
                    if rest.contains(x) {
                        let k = choose|k: int| 0 <= k < rest.len() && rest[k] == x;
                        assert(s[0].area() >= s[k + 1].area());
                    }
                }
            }
        }
    } else {
        let r = seq![b] + s;
        assert(insert_desc(s, b) == r);
        assert forall|x: BoundingBox| #[trigger] r.contains(x)
            implies s.contains(x) || x == b by {
            let i = choose|i: int| 0 <= i < r.len() && r[i] == x;
            if i > 0 {
                assert(s[i - 1] == x);
                assert(s.contains(x));
            }
        }
        if sorted_desc(s) {
            assert forall|i: int, j: int| 0 <= i < j < r.len()
                implies r[i].area() >= r[j].area() by {
                if i == 0 {
                    assert(r[j] == s[j - 1]);
                    if j > 1 {
                        assert(s[0].area() >= s[j - 1].area());
                    }
                }
            }
        }
    }
}

proof fn lemma_sort_desc(s: Seq<BoundingBox>)
    ensures
        sort_desc(s).len() == s.len(),
        forall|x: BoundingBox| #[trigger] sort_desc(s).contains(x) ==> s.contains(x),
        sorted_desc(sort_desc(s)),
    decreases s.len(),
{
    if s.len() == 0 {
    } else {
        let rest = s.drop_last();
        lemma_sort_desc(rest);
        lemma_insert_desc(sort_desc(rest), s.last());
        assert forall|x: BoundingBox| #[trigger] sort_desc(s).contains(x)
            implies s.contains(x) by {
            if sort_desc(s).contains(x) {
                if sort_desc(rest).contains(x) {
                    let j = choose|j: int| 0 <= j < rest.len() && rest[j] == x;
                    assert(s[j] == x);
                    assert(s.contains(x));
                } else {
                    assert(x == s.last());
                    assert(s.contains(x));
                }
            }
        }
    }
}

proof fn lemma_keep_short(s: Seq<BoundingBox>, h: int)
    ensures
        forall|x: BoundingBox| #[trigger] keep_short(s, h).contains(x)
            ==> s.contains(x) && x.h < h,
    decreases s.len(),
{
    if s.len() == 0 {
    } else {
        let rest = s.drop_last();
        lemma_keep_short(rest, h);
        assert forall|x: BoundingBox| #[trigger] keep_short(s, h).contains(x)
            implies s.contains(x) && x.h < h by {
            if keep_short(s, h).contains(x) {
                if keep_short(rest, h).contains(x) {
                    let j = choose|j: int| 0 <= j < rest.len() && rest[j] == x;
                    assert(s[j] == x);
                    assert(s.contains(x));
                } else {
                    assert(x == s.last() && (s.last().h as int) < h);
                    assert(s.contains(x));
                }
            }
        }
    }
}

proof fn lemma_cand_list_props(cs: Seq<Seq<(u32, u32)>>, w: int, h: int, minw: int, minh: int)
    requires
        0 <= w <= u32::MAX,
        0 <= h <= u32::MAX,
    ensures
        forall|x: BoundingBox| #[trigger] cand_list(cs, w, h, minw, minh).contains(x)
            ==> x.wf() && x.within(w, h) && x.w >= minw && x.h >= minh,
    decreases cs.len(),
{
    if cs.len() == 0 {
    } else {
        let rest = cs.drop_last();
        lemma_cand_list_props(rest, w, h, minw, minh);
        assert forall|x: BoundingBox| #[trigger] cand_list(cs, w, h, minw, minh).contains(x)
            implies x.wf() && x.within(w, h) && x.w >= minw && x.h >= minh by {
            if cand_list(cs, w, h, minw, minh).contains(x) {
                if !cand_list(rest, w, h, minw, minh).contains(x) {
                    assert(cand_of(cs.last(), w, h, minw, minh) == Some(x));
                }
            }
        }
    }
}

/// A frame with no qualifying candidate of either color yields an
/// empty list — never an error, so callers proceed without boxes.
pub proof fn lemma_no_candidates_empty(grid: Seq<Seq<u8>>, w: int, h: int)
    requires
        white_candidates(grid, w, h).len() == 0,
        black_candidates(grid, w, h).len() == 0,
    ensures
        detect_spec(grid, w, h).len() == 0,
{
    lemma_sort_desc(keep_short(black_candidates(grid, w, h), h));
}

/// The extreme coordinates of a non-empty contour.
fn contour_extent(ps: &Vec<(u32, u32)>) -> (e: (u32, u32, u32, u32))
    requires
        ps@.len() > 0,
    ensures
        extent(ps@) == (e.0 as int, e.1 as int, e.2 as int, e.3 as int),
{
    let mut minx = ps[0].0;
    let mut miny = ps[0].1;
    let mut maxx = ps[0].0;
    let mut maxy = ps[0].1;
    let mut j: usize = 1;
    assert(ps@.take(1) =~= seq![ps@[0]]);
    while j < ps.len()
        invariant
            1 <= j <= ps@.len(),
            extent(ps@.take(j as int)) == (minx as int, miny as int, maxx as int, maxy as int),
        decreases ps@.len() - j,
    {
        let p = ps[j];
        proof {
            assert(ps@.take(j + 1).drop_last() =~= ps@.take(j as int));
            assert(ps@.take(j + 1).last() == ps@[j as int]);
        }
        if p.0 < minx {
            minx = p.0;
        }
        if p.1 < miny {
            miny = p.1;
        }
        if p.0 > maxx {
            maxx = p.0;
        }
        if p.1 > maxy {
            maxy = p.1;
        }
        j = j + 1;
    }
    assert(ps@.take(ps@.len() as int) =~= ps@);
    (minx, miny, maxx, maxy)
}

/// The candidate rectangle of one contour, if it qualifies.
fn cand_from_contour(ps: &Vec<(u32, u32)>, w: u32, h: u32, minw: u32, minh: u32)
    -> (r: Option<BoundingBox>)
    ensures
        r == cand_of(ps@, w as int, h as int, minw as int, minh as int),
{
    if ps.len() == 0 {
        return None;
    }
    let e = contour_extent(ps);
    if w == 0 || h == 0 || e.2 == 0 || e.3 == 0 {
        return None;
    }
    let x0 = if e.0 >= 1 { e.0 - 1 } else { 0 };
    let y0 = if e.1 >= 1 { e.1 - 1 } else { 0 };
    let x1 = if e.2 - 1 <= w - 1 { e.2 - 1 } else { w - 1 };
    let y1 = if e.3 - 1 <= h - 1 { e.3 - 1 } else { h - 1 };
    if x0 <= x1 && y0 <= y1 {
        let b = BoundingBox { x: x0, y: y0, w: x1 - x0 + 1, h: y1 - y0 + 1 };
        if b.w >= minw && b.h >= minh {
            Some(b)
        } else {
            None
        }
    } else {
        None
    }
}

/// The candidate rectangles of a list of contours.
fn candidates_from(contours: &Vec<Vec<(u32, u32)>>, w: u32, h: u32, minw: u32, minh: u32)
    -> (r: Vec<BoundingBox>)
    ensures
        r@ == cand_list(contour_views(contours@), w as int, h as int, minw as int, minh as int),
{
    let ghost cv = contour_views(contours@);
    let mut r: Vec<BoundingBox> = Vec::new();
    let mut i: usize = 0;
    assert(cv.take(0) =~= Seq::<Seq<(u32, u32)>>::empty());
    while i < contours.len()
        invariant
            i <= contours@.len(),
            cv == contour_views(contours@),
            r@ == cand_list(cv.take(i as int), w as int, h as int, minw as int, minh as int),
        decreases contours@.len() - i,
    {
        proof {
            assert(cv.take(i + 1).drop_last() =~= cv.take(i as int));
            assert(cv.take(i + 1).last() == contours@[i as int]@);
        }
        match cand_from_contour(&contours[i], w, h, minw, minh) {
            Some(b) => r.push(b),
            None => (),
        }
        i = i + 1;
    }
    assert(cv.take(contours@.len() as int) =~= cv);
    r
}

/// Keeps the rectangles lower than the full frame height.
fn filter_short(v: &Vec<BoundingBox>, h: u32) -> (r: Vec<BoundingBox>)
    ensures
        r@ == keep_short(v@, h as int),
{
    let mut r: Vec<BoundingBox> = Vec::new();
    let mut i: usize = 0;
    assert(v@.take(0) =~= Seq::<BoundingBox>::empty());
    while i < v.len()
        invariant
            i <= v@.len(),
            r@ == keep_short(v@.take(i as int), h as int),
        decreases v@.len() - i,
    {
        proof {
            assert(v@.take(i + 1).drop_last() =~= v@.take(i as int));
            assert(v@.take(i + 1).last() == v@[i as int]);
        }
        if v[i].h < h {
            r.push(v[i]);
        }
        i = i + 1;
    }
    assert(v@.take(v@.len() as int) =~= v@);
    r
}

/// The area of a rectangle, in a width that cannot overflow.
fn area_u64(b: &BoundingBox) -> (a: u64)
    ensures
        a == b.area(),
{
    proof {
        assert((b.w as int) * (b.h as int) <= 0xffff_ffff * 0xffff_ffff) by (nonlinear_arith)
            requires
                0 <= b.w as int <= 0xffff_ffff,
                0 <= b.h as int <= 0xffff_ffff,
        ;
    }
    (b.w as u64) * (b.h as u64)
}

proof fn lemma_insert_desc_at(s: Seq<BoundingBox>, b: BoundingBox, j: int)
    requires
        0 <= j <= s.len(),
        forall|k: int| 0 <= k < j ==> s[k].area() >= b.area(),
        j < s.len() ==> s[j].area() < b.area(),
    ensures
        insert_desc(s, b) == s.insert(j, b),
    decreases j,
{
    if j == 0 {
        if s.len() == 0 {
            assert(insert_desc(s, b) =~= s.insert(0, b));
        } else {
            assert(s[0].area() < b.area());
            assert(insert_desc(s, b) =~= s.insert(0, b));
        }
    } else {
        let rest = s.drop_first();
        lemma_insert_desc_at(rest, b, j - 1);
        assert(s[0].area() >= b.area());
        assert(insert_desc(s, b) == seq![s[0]] + insert_desc(rest, b));
        assert(seq![s[0]] + rest.insert(j - 1, b) =~= s.insert(j, b));
    }
}

/// Inserts a rectangle into a list sorted by descending area, after
/// every rectangle of at least its area.
fn insert_by_area(acc: &mut Vec<BoundingBox>, b: BoundingBox)
    ensures
        final(acc)@ == insert_desc(old(acc)@, b),
{
    let mut j: usize = 0;
    let ab = area_u64(&b);
    while j < acc.len() && area_u64(&acc[j]) >= ab
        invariant
            j <= acc@.len(),
            ab == b.area(),
            acc@ == old(acc)@,
            forall|k: int| 0 <= k < j ==> (#[trigger] acc@[k]).area() >= b.area(),
        decreases acc@.len() - j,
    {
        j = j + 1;
    }
    proof {
        lemma_insert_desc_at(acc@, b, j as int);
    }
    acc.insert(j, b);
}

/// Sorts rectangles by descending area (stable).
fn sort_by_area(v: &Vec<BoundingBox>) -> (r: Vec<BoundingBox>)
    ensures
        r@ == sort_desc(v@),
{
    let mut r: Vec<BoundingBox> = Vec::new();
    let mut i: usize = 0;
    assert(v@.take(0) =~= Seq::<BoundingBox>::empty());
    while i < v.len()
        invariant
            i <= v@.len(),
            r@ == sort_desc(v@.take(i as int)),
        decreases v@.len() - i,
    {
        proof {
            assert(v@.take(i + 1).drop_last() =~= v@.take(i as int));
            assert(v@.take(i + 1).last() == v@[i as int]);
        }
        insert_by_area(&mut r, v[i]);
        i = i + 1;
    }
    assert(v@.take(v@.len() as int) =~= v@);
    r
}

/// Finds up to two large solid-color rectangular regions of a frame:
/// candidate caption areas, largest area first. A frame with no
/// qualifying region of either color yields an empty list.
pub fn detect_boxes(f: &Frame) -> (r: Vec<BoundingBox>)
    requires
        f.wf(),
        f.width <= 0x7fff_fffd,
        f.height <= 0x7fff_fffd,
        (f.width + 2) * (f.height + 2) <= usize::MAX,
    ensures
        r@ == detect_spec(f.grid(), f.width as int, f.height as int),
        r@.len() <= 2,
        forall|i: int, j: int| 0 <= i < j < r@.len()
            ==> (#[trigger] r@[i]).area() >= (#[trigger] r@[j]).area(),
        forall|i: int| 0 <= i < r@.len() ==> {
            let b = #[trigger] r@[i];
            &&& b.wf()
            &&& b.within(f.width as int, f.height as int)
            &&& (b.h as int) < f.height
            &&& b.w >= min_box_width(f.width as int)
            &&& b.h >= min_box_height(f.height as int)
        },
{
    let ghost grid = f.grid();
    let ghost wi = f.width as int;
    let ghost hi = f.height as int;
    let minw = ((2 * (f.width as u64)) / 5) as u32;
    let minh = f.height / 5;
    assert(minw == min_box_width(wi));
    assert(minh as int == min_box_height(hi));

    let p = pad_black(f);
    let wbin = threshold_above(&p, WHITE_CUT);
    let wcontours = trace_contours(&wbin);
    assert(contour_views(wcontours@) =~~= contours_in(thresh_above(padded(grid, wi), WHITE_CUT)));
    let mut cands = candidates_from(&wcontours, f.width, f.height, minw, minh);
    assert(cands@ == white_candidates(grid, wi, hi));

    if cands.len() == 0 {
        let bbin = threshold_below(&p, BLACK_CUT);
        let bcontours = trace_contours(&bbin);
        assert(contour_views(bcontours@) =~~= contours_in(
            thresh_below(padded(grid, wi), BLACK_CUT)));
        cands = candidates_from(&bcontours, f.width, f.height, minw, minh);
        assert(cands@ == black_candidates(grid, wi, hi));
    }
    let ghost cand_view = cands@;

    let filtered = filter_short(&cands, f.height);
    let mut sorted = sort_by_area(&filtered);
    proof {
        lemma_sort_desc(filtered@);
        lemma_keep_short(cand_view, hi);
        lemma_cand_list_props(
            contours_in(thresh_above(padded(grid, wi), WHITE_CUT)),
            wi, hi, min_box_width(wi), min_box_height(hi));
        lemma_cand_list_props(
            contours_in(thresh_below(padded(grid, wi), BLACK_CUT)),
            wi, hi, min_box_width(wi), min_box_height(hi));
    }
    let ghost sorted_view = sorted@;
    sorted.truncate(2);
    assert(sorted@ == sorted_view.take(min(2, sorted_view.len() as int)));
    assert forall|i: int| 0 <= i < sorted@.len() implies {
        let b = #[trigger] sorted@[i];
        &&& b.wf()
        &&& b.within(wi, hi)
        &&& (b.h as int) < hi
        &&& b.w >= min_box_width(wi)
        &&& b.h >= min_box_height(hi)
    } by {
        assert(sorted_view.contains(sorted_view[i]));
        assert(filtered@.contains(sorted_view[i]));
        assert(cand_view.contains(sorted_view[i]));
    }
    sorted
}

} // verus!
