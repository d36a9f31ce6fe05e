//! The user's edit request: raw text split on `///` into one of three
//! parsed forms. Parsing is syntactic; a part that is not a valid
//! nonnegative decimal number of seconds falls back to the plain-text
//! interpretations.

use vstd::prelude::*;
use crate::textutil::{all_digits, dec_value, trimmed, trim, find_sub, rfind_byte, slice_range,
    find_needle, rfind_byte_at, is_digit, lemma_find_sub_bounds, split_all, split_needle,
    byte_views};

verus! {

/// A parsed edit request: one replacement text, texts for the top two
/// boxes, or a timed swap of two texts at a switch time (centiseconds).
pub enum EditRequest {
    SingleText(Vec<u8>),
    TwoBoxText(Vec<u8>, Vec<u8>),
    TimedSwap(Vec<u8>, u64, Vec<u8>),
}

/// The index of the first `.` of the byte string, or its length.
pub open spec fn first_dot(s: Seq<u8>, i: int) -> int
    decreases s.len() - i,
{
    if i < 0 || i >= s.len() {
        s.len() as int
    } else if s[i] == 46 {
        i
    } else {
        first_dot(s, i + 1)
    }
}

/// The digits before the first `.`.
pub open spec fn time_int_part(s: Seq<u8>) -> Seq<u8> {
    s.take(first_dot(s, 0))
}

/// The digits after the first `.`, empty when there is none.
pub open spec fn time_frac_part(s: Seq<u8>) -> Seq<u8> {
    if first_dot(s, 0) < s.len() {
        s.skip(first_dot(s, 0) + 1)
    } else {
        Seq::empty()
    }
}

/// The first two fractional digits as centiseconds; further digits are
/// cut off.
pub open spec fn frac2(f: Seq<u8>) -> int {
    if f.len() == 0 {
        0
    } else if f.len() == 1 {
        10 * (f[0] - 48)
    } else {
        10 * (f[0] - 48) + (f[1] - 48)
    }
}

/// Whether the two parts form a valid time: all digits, at least one of
/// them somewhere.
pub open spec fn time_parts_ok(ip: Seq<u8>, fp: Seq<u8>) -> bool {
    all_digits(ip) && all_digits(fp) && ip.len() + fp.len() > 0
}

/// The centiseconds the two parts stand for.
pub open spec fn centi_value(ip: Seq<u8>, fp: Seq<u8>) -> int {
    dec_value(ip) * 100 + frac2(fp)
}

/// A byte string is a valid switch time when its integer and fractional
/// digit runs are well-formed and the value fits.
pub open spec fn time_valid(s: Seq<u8>) -> bool {
    time_parts_ok(time_int_part(s), time_frac_part(s)) && centi_value(
        time_int_part(s), time_frac_part(s)) <= u64::MAX
}

/// The centiseconds a valid switch time stands for.
pub open spec fn time_centi(s: Seq<u8>) -> int {
    centi_value(time_int_part(s), time_frac_part(s))
}

/// Parses a nonnegative decimal number of seconds, such as `5.5` or
/// `12`, into centiseconds; fractional digits beyond the second are cut
/// off. Succeeds exactly on digit runs around at most one dot, at least
/// one digit in all, value fitting.
pub fn parse_centiseconds(v: &Vec<u8>) -> (r: Option<u64>)
    ensures
        r is Some <==> time_valid(v@),
        r matches Some(x) ==> x == time_centi(v@),
{
    let n = v.len();
    let mut k: usize = 0;
    while k < n && v[k] != 46
        invariant
            n == v@.len(),
            k <= n,
            first_dot(v@, 0) == first_dot(v@, k as int),
        decreases n - k,
    {
        k = k + 1;
    }
    assert(first_dot(v@, 0) == k as int);
    let ip = slice_range(v, 0, k);
    assert(ip@ =~= time_int_part(v@));
    let fp = if k < n {
        let f = slice_range(v, k + 1, n);
        assert(f@ =~= time_frac_part(v@));
        f
    } else {
        let f: Vec<u8> = Vec::new();
        assert(f@ =~= time_frac_part(v@));
        f
    };

    if ip.len() == 0 && fp.len() == 0 {
        return None;
    }

    let mut acc: u128 = 0;
    let mut i: usize = 0;
    assert(ip@.take(0) =~= Seq::<u8>::empty());
    while i < ip.len()
        invariant
            i <= ip@.len(),
            ip@ == time_int_part(v@),
            all_digits(ip@.take(i as int)),
            acc < 0x1_0000_0000_0000_0000u128 * 10,
            acc < 0x1_0000_0000_0000_0000u128 ==> acc == dec_value(ip@.take(i as int)),
            acc >= 0x1_0000_0000_0000_0000u128 ==> dec_value(ip@.take(i as int))
                >= 0x1_0000_0000_0000_0000,
        decreases ip@.len() - i,
    {
        let c = ip[i];
        proof {
            assert(ip@.take(i + 1).drop_last() =~= ip@.take(i as int));
            assert(ip@.take(i + 1).last() == ip@[i as int]);
        }
        if c < 48 || c > 57 {
            assert(!all_digits(ip@)) by {
                assert(!is_digit(ip@[i as int]));
            }
            return None;
        }
        if acc < 0x1_0000_0000_0000_0000u128 {
            acc = acc * 10 + (c - 48) as u128;
        } else {
            proof {
                let dv = dec_value(ip@.take(i as int));
                assert(dv * 10 + (ip@[i as int] - 48) >= dv) by (nonlinear_arith)
                    requires
                        dv >= 0x1_0000_0000_0000_0000,
                        ip@[i as int] >= 48,
                ;
            }
        }
        i = i + 1;
    }
    assert(ip@.take(ip@.len() as int) =~= ip@);

    let mut j: usize = 0;
    while j < fp.len()
        invariant
            j <= fp@.len(),
            fp@ == time_frac_part(v@),
            forall|m: int| 0 <= m < j ==> is_digit(#[trigger] fp@[m]),
        decreases fp@.len() - j,
    {
        let c = fp[j];
        if c < 48 || c > 57 {
            assert(!all_digits(fp@)) by {
                assert(!is_digit(fp@[j as int]));
            }
            return None;
        }
        j = j + 1;
    }
    assert(all_digits(fp@));

    let f2: u64 = if fp.len() == 0 {
        0
    } else if fp.len() == 1 {
        assert(is_digit(fp@[0]));
        10 * (fp[0] - 48) as u64
    } else {
        assert(is_digit(fp@[0]) && is_digit(fp@[1]));
        10 * (fp[0] - 48) as u64 + (fp[1] - 48) as u64
    };
    assert(f2 == frac2(fp@) && f2 <= 99);

    if acc >= 0x1_0000_0000_0000_0000u128 {
        proof {
            let dv = dec_value(ip@);
            assert(dv * 100 >= dv) by (nonlinear_arith)
                requires
                    dv >= 0,
            ;
        }
        return None;
    }
    let centi: u128 = acc * 100 + f2 as u128;
    assert(centi == centi_value(ip@, fp@));
    if centi > u64::MAX as u128 {
        return None;
    }
    Some(centi as u64)
}

/// The separator of the raw request text.
pub open spec fn part_sep() -> Seq<u8> {
    seq![47u8, 47u8, 47u8]
}

/// The raw request split on `///`, every part in order.
pub open spec fn split_parts(s: Seq<u8>) -> Seq<Seq<u8>> {
    split_all(s, part_sep())
}

proof fn lemma_find_sub_len(s: Seq<u8>, p: Seq<u8>)
    ensures
        find_sub(s, p) == -1 || (0 <= find_sub(s, p) && find_sub(s, p) + p.len() <= s.len()),
{
    lemma_find_sub_bounds(s, p, 0);
}

/// Splits the raw request text on `///`.
pub fn split_request(raw: &Vec<u8>) -> (r: Vec<Vec<u8>>)
    ensures
        byte_views(r@) == split_parts(raw@),
        r@.len() >= 1,
{
    let mut sep: Vec<u8> = Vec::new();
    sep.push(47);
    sep.push(47);
    sep.push(47);
    assert(sep@ =~= part_sep());
    split_needle(raw, &sep)
}

/// Parses the raw request text: three parts whose middle part is a
/// valid time make a timed swap; otherwise two or more parts fill two
/// boxes; otherwise the whole text is a single replacement. Texts are
/// trimmed of surrounding whitespace.
pub fn parse_request(raw: &Vec<u8>) -> (r: EditRequest)
    ensures
        ({
            let parts = split_parts(raw@);
            let timed = parts.len() == 3 && time_valid(parts[1]);
            &&& timed ==> (r matches EditRequest::TimedSwap(a, t, b) && a@ == trimmed(parts[0])
                && t == time_centi(parts[1]) && b@ == trimmed(parts[2]))
            &&& !timed && parts.len() >= 2 ==> (r matches EditRequest::TwoBoxText(a, b)
                && a@ == trimmed(parts[0]) && b@ == trimmed(parts[1]))
            &&& parts.len() == 1 ==> (r matches EditRequest::SingleText(a)
                && a@ == trimmed(parts[0]))
        }),
{
    let parts = split_request(raw);
    proof {
        assert(parts@[0]@ == byte_views(parts@)[0]);
    }
    if parts.len() == 3 {
        proof {
            assert(parts@[1]@ == byte_views(parts@)[1]);
            assert(parts@[2]@ == byte_views(parts@)[2]);
        }
        match parse_centiseconds(&parts[1]) {
            Some(t) => {
                return EditRequest::TimedSwap(trim(&parts[0]), t, trim(&parts[2]));
            },
            None => {
                return EditRequest::TwoBoxText(trim(&parts[0]), trim(&parts[1]));
            },
        }
    }
    if parts.len() >= 2 {
        proof {
            assert(parts@[1]@ == byte_views(parts@)[1]);
        }
        return EditRequest::TwoBoxText(trim(&parts[0]), trim(&parts[1]));
    }
    EditRequest::SingleText(trim(&parts[0]))
}

/// Splits a byte string at the first occurrence of the needle, the
/// needle removed.
pub fn split_first(v: &Vec<u8>, p: &Vec<u8>) -> (r: Option<(Vec<u8>, Vec<u8>)>)
    ensures
        r is Some <==> find_sub(v@, p@) != -1,
        r matches Some(pair) ==> {
            let j = find_sub(v@, p@);
            pair.0@ == v@.take(j) && pair.1@ == v@.skip(j + p@.len())
        },
{
    match find_needle(v, p) {
        None => None,
        Some(j) => {
            proof {
                lemma_find_sub_len(v@, p@);
            }
            let before = slice_range(v, 0, j);
            let v_len = v.len();
            let after = slice_range(v, j + p.len(), v_len);
            proof {
                assert(before@ =~= v@.take(j as int));
                assert(after@ =~= v@.skip(j + p@.len()));
            }
            Some((before, after))
        },
    }
}

/// Parses the free-form edit command of the inline flow: `text1 /5.5
/// text2` swaps texts at a time, `one /box2 two` fills two boxes, and
/// anything else is a single replacement text. The whole command is
/// trimmed first, as are the texts.
pub fn parse_edit_command(params: &Vec<u8>) -> (r: EditRequest)
    ensures
        ({
            let p = trimmed(params@);
            let j = rfind_byte(p, 47, p.len() - 1);
            let timed = j != -1 && {
                let rt = trimmed(p.skip(j + 1));
                let k = find_sub(rt, seq![32u8]);
                k != -1 && time_valid(rt.take(k))
            };
            let jb = find_sub(p, seq![47u8, 98u8, 111u8, 120u8, 50u8]);
            &&& timed ==> (r matches EditRequest::TimedSwap(a, t, b) && {
                let rt = trimmed(p.skip(j + 1));
                let k = find_sub(rt, seq![32u8]);
                a@ == trimmed(p.take(j)) && t == time_centi(rt.take(k)) && b@ == trimmed(
                    rt.skip(k + 1))
            })
            &&& !timed && jb != -1 ==> (r matches EditRequest::TwoBoxText(a, b)
                && a@ == trimmed(p.take(jb)) && b@ == trimmed(p.skip(jb + 5)))
            &&& !timed && jb == -1 ==> (r matches EditRequest::SingleText(a) && a@ == p)
        }),
{
    let p = trim(params);
    match rfind_byte_at(&p, 47) {
        Some(j) => {
            proof {
                crate::textutil::lemma_rfind_byte_bounds(p@, 47, p@.len() - 1);
            }
            let p_len = p.len();
            let rest = slice_range(&p, j + 1, p_len);
            assert(rest@ =~= p@.skip(j + 1));
            let rt = trim(&rest);
            let mut space: Vec<u8> = Vec::new();
            space.push(32);
            assert(space@ =~= seq![32u8]);
            match find_needle(&rt, &space) {
                Some(k) => {
                    proof {
                        lemma_find_sub_len(rt@, space@);
                    }
                    let ts = slice_range(&rt, 0, k);
                    assert(ts@ =~= rt@.take(k as int));
                    match parse_centiseconds(&ts) {
                        Some(t) => {
                            proof {
                                lemma_find_sub_len(rt@, space@);
                            }
                            let before = slice_range(&p, 0, j);
                            assert(before@ =~= p@.take(j as int));
                            let rt_len = rt.len();
                            let after = slice_range(&rt, k + 1, rt_len);
                            assert(after@ =~= rt@.skip(k + 1));
                            return EditRequest::TimedSwap(trim(&before), t, trim(&after));
                        },
                        None => (),
                    }
                },
                None => (),
            }
        },
        None => (),
    }
    let mut box2: Vec<u8> = Vec::new();
    box2.push(47);
    box2.push(98);
    box2.push(111);
    box2.push(120);
    box2.push(50);
    assert(box2@ =~= seq![47u8, 98u8, 111u8, 120u8, 50u8]);
    match split_first(&p, &box2) {
        Some(pair) => EditRequest::TwoBoxText(trim(&pair.0), trim(&pair.1)),
        None => EditRequest::SingleText(p),
    }
}

} // verus!
