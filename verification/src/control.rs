//! The remaining decisions the pipelines make between waits: choosing
//! the encoder backend, reading the encoder's own border-scan and
//! dimension probes, and the pagination of the stored-video listing.

use vstd::prelude::*;
use crate::geom::CropRect;
use crate::textutil::{all_digits, dec_value, trimmed, trim, split_all, split_needle, byte_views,
    parse_u32};

verus! {

/// The encoder settings chosen once at process start.
pub struct EncoderConfig {
    /// The host is too weak for anything but CPU-optimized settings.
    pub bad_hardware: bool,
    /// An explicitly configured encoder name, empty when none is.
    pub encoder_name: Vec<u8>,
    /// A CUDA device is available.
    pub cuda: bool,
}

/// The encoder backend to invoke.
#[derive(Debug)]
pub enum EncoderChoice {
    /// Software encoder at a fast preset, constrained quality, few
    /// threads.
    CpuOptimized,
    /// The explicitly configured encoder, by name.
    Named(Vec<u8>),
    /// The CUDA hardware encoder.
    CudaNvenc,
    /// Software encoder at a fast preset.
    CpuFast,
}

/// Chooses the encoder backend: a weak host forces the CPU-optimized
/// settings; otherwise an explicitly configured encoder wins, then the
/// CUDA encoder, then the plain software fallback.
pub fn choose_encoder(cfg: &EncoderConfig) -> (r: EncoderChoice)
    ensures
        cfg.bad_hardware ==> r is CpuOptimized,
        !cfg.bad_hardware && cfg.encoder_name@.len() > 0 ==> (r matches EncoderChoice::Named(n)
            && n@ == cfg.encoder_name@),
        !cfg.bad_hardware && cfg.encoder_name@.len() == 0 && cfg.cuda ==> r is CudaNvenc,
        !cfg.bad_hardware && cfg.encoder_name@.len() == 0 && !cfg.cuda ==> r is CpuFast,
{
    if cfg.bad_hardware {
        EncoderChoice::CpuOptimized
    } else if cfg.encoder_name.len() > 0 {
        let mut name: Vec<u8> = Vec::new();
        let mut i: usize = 0;
        assert(cfg.encoder_name@.take(0) =~= Seq::<u8>::empty());
        while i < cfg.encoder_name.len()
            invariant
                i <= cfg.encoder_name@.len(),
                name@ == cfg.encoder_name@.take(i as int),
            decreases cfg.encoder_name@.len() - i,
        {
            proof {
                assert(cfg.encoder_name@.take(i + 1) =~= cfg.encoder_name@.take(i as int).push(
                    cfg.encoder_name@[i as int]));
            }
            name.push(cfg.encoder_name[i]);
            i = i + 1;
        }
        assert(cfg.encoder_name@.take(cfg.encoder_name@.len() as int) =~= cfg.encoder_name@);
        EncoderChoice::Named(name)
    } else if cfg.cuda {
        EncoderChoice::CudaNvenc
    } else {
        EncoderChoice::CpuFast
    }
}

/// The key the encoder's border scan prints before each suggestion.
pub open spec fn crop_key() -> Seq<u8> {
    seq![99u8, 114u8, 111u8, 112u8, 61u8]
}

/// The value of a digit run, or 0 where it is empty, holds another
/// byte, or does not fit — the scan line is then taken as zero, as the
/// encoder never prints such a field.
pub open spec fn u32_or_zero(t: Seq<u8>) -> int {
    if t.len() > 0 && all_digits(t) && dec_value(t) <= u32::MAX {
        dec_value(t)
    } else {
        0
    }
}

/// Reads one line of the encoder's border scan: the four colon-
/// separated values after the first `crop=` are width, height, and the
/// offsets of the region the encoder suggests keeping.
pub fn parse_crop_line(line: &Vec<u8>) -> (r: Option<CropRect>)
    ensures
        r is Some <==> split_all(line@, crop_key()).len() > 1 && split_all(
            split_all(line@, crop_key())[1], seq![58u8]).len() == 4,
        r matches Some(c) ==> {
            let vals = split_all(split_all(line@, crop_key())[1], seq![58u8]);
            &&& c.w == u32_or_zero(vals[0])
            &&& c.h == u32_or_zero(vals[1])
            &&& c.x == u32_or_zero(vals[2])
            &&& c.y == u32_or_zero(vals[3])
        },
{
    let mut key: Vec<u8> = Vec::new();
    key.push(99);
    key.push(114);
    key.push(111);
    key.push(112);
    key.push(61);
    assert(key@ =~= crop_key());
    let parts = split_needle(line, &key);
    if parts.len() <= 1 {
        return None;
    }
    proof {
        assert(parts@[1]@ == byte_views(parts@)[1]);
    }
    let mut colon: Vec<u8> = Vec::new();
    colon.push(58);
    assert(colon@ =~= seq![58u8]);
    let vals = split_needle(&parts[1], &colon);
    if vals.len() != 4 {
        return None;
    }
    proof {
        assert(vals@[0]@ == byte_views(vals@)[0]);
        assert(vals@[1]@ == byte_views(vals@)[1]);
        assert(vals@[2]@ == byte_views(vals@)[2]);
        assert(vals@[3]@ == byte_views(vals@)[3]);
    }
    let w = match parse_u32(&vals[0]) {
        Some(x) => x,
        None => 0,
    };
    let h = match parse_u32(&vals[1]) {
        Some(x) => x,
        None => 0,
    };
    let x = match parse_u32(&vals[2]) {
        Some(x) => x,
        None => 0,
    };
    let y = match parse_u32(&vals[3]) {
        Some(x) => x,
        None => 0,
    };
    Some(CropRect { x, y, w, h })
}

/// Whether a digit run names a value that fits `u32`.
pub open spec fn u32_run(t: Seq<u8>) -> bool {
    t.len() > 0 && all_digits(t) && dec_value(t) <= u32::MAX
}

/// Reads the probed dimensions, `width x height`, surrounding
/// whitespace ignored. Succeeds exactly on two fitting digit runs
/// around one `x`.
pub fn parse_dims(v: &Vec<u8>) -> (r: Option<(u32, u32)>)
    ensures
        ({
            let parts = split_all(trimmed(v@), seq![120u8]);
            &&& r is Some <==> parts.len() == 2 && u32_run(parts[0]) && u32_run(parts[1])
            &&& r matches Some(d) ==> d.0 == dec_value(parts[0]) && d.1 == dec_value(parts[1])
        }),
{
    let t = trim(v);
    let mut sep: Vec<u8> = Vec::new();
    sep.push(120);
    assert(sep@ =~= seq![120u8]);
    let parts = split_needle(&t, &sep);
    if parts.len() != 2 {
        return None;
    }
    proof {
        assert(parts@[0]@ == byte_views(parts@)[0]);
        assert(parts@[1]@ == byte_views(parts@)[1]);
    }
    let w = parse_u32(&parts[0]);
    let h = parse_u32(&parts[1]);
    match (w, h) {
        (Some(a), Some(b)) => Some((a, b)),
        _ => None,
    }
}

/// How many stored videos one removal-keyboard page shows.
pub const REMOVE_PAGE_SIZE: u64 = 8;

/// How many results one inline-query page shows.
pub const QUERY_PAGE_SIZE: u64 = 30;

/// The removal keyboard's page window: the page count, the requested
/// page clamped to it, and the first record of that page — always a
/// valid offset into the records.
pub fn page_window(total: u64, page: u64) -> (r: (u64, u64, u64))
    requires
        1 <= total <= u64::MAX - REMOVE_PAGE_SIZE,
    ensures
        r.1 == (total + REMOVE_PAGE_SIZE - 1) / (REMOVE_PAGE_SIZE as int),
        r.0 == (if page < r.1 { page as int } else { r.1 - 1 }),
        r.2 == r.0 * REMOVE_PAGE_SIZE,
        r.2 < total,
{
    let pages = (total + REMOVE_PAGE_SIZE - 1) / REMOVE_PAGE_SIZE;
    let current = if page < pages {
        page
    } else {
        pages - 1
    };
    proof {
        let p = pages as int;
        let c = current as int;
        assert(p * 8 <= total + 7) by (nonlinear_arith)
            requires
                p == (total + 7) / 8,
                0 <= total as int,
        ;
        assert(c * 8 <= (p - 1) * 8) by (nonlinear_arith)
            requires
                c <= p - 1,
        ;
    }
    let offset = current * REMOVE_PAGE_SIZE;
    (current, pages, offset)
}

/// The record offset of an inline-query page.
pub fn query_offset(page: u64) -> (r: u64)
    requires
        page <= u64::MAX / QUERY_PAGE_SIZE,
    ensures
        r == page * QUERY_PAGE_SIZE,
{
    proof {
        assert(page * 30 <= (u64::MAX / 30) * 30 <= u64::MAX) by (nonlinear_arith)
            requires
                0 <= page <= u64::MAX as int / 30,
        ;
    }
    page * QUERY_PAGE_SIZE
}

/// The page to ask for next: only a full page promises more results.
pub fn next_page(results: usize, page: u64) -> (r: Option<u64>)
    requires
        page < u64::MAX,
    ensures
        r is Some <==> results == QUERY_PAGE_SIZE,
        r matches Some(n) ==> n == page + 1,
{
    if results == QUERY_PAGE_SIZE as usize {
        Some(page + 1)
    } else {
        None
    }
}

} // verus!
