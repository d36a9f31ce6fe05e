//! Byte-string helpers shared by request parsing and the plan builder:
//! trimming, escaping of overlay-script control characters, decimal
//! formatting and parsing, and substring search. All texts are byte
//! strings; callers at the I/O edge convert to and from UTF-8.

use vstd::prelude::*;

verus! {

/// ASCII whitespace.
pub open spec fn is_space(c: u8) -> bool {
    c == 32 || (9 <= c <= 13)
}

/// ASCII decimal digit.
pub open spec fn is_digit(c: u8) -> bool {
    48 <= c <= 57
}

/// Every byte a decimal digit.
pub open spec fn all_digits(s: Seq<u8>) -> bool {
    forall|i: int| 0 <= i < s.len() ==> is_digit(#[trigger] s[i])
}

/// The first index at or after `i` holding a non-space byte, or the
/// length when there is none.
pub open spec fn skip_spaces(s: Seq<u8>, i: int) -> int
    decreases s.len() - i,
{
    if i < 0 || i >= s.len() || !is_space(s[i]) {
        i
    } else {
        skip_spaces(s, i + 1)
    }
}

/// One past the last non-space byte strictly before `i`, or 0 when
/// there is none.
pub open spec fn rskip_spaces(s: Seq<u8>, i: int) -> int
    decreases i,
{
    if i <= 0 || !is_space(s[i - 1]) {
        i
    } else {
        rskip_spaces(s, i - 1)
    }
}

/// The byte string with leading and trailing ASCII whitespace removed.
pub open spec fn trimmed(s: Seq<u8>) -> Seq<u8> {
    let a = skip_spaces(s, 0);
    let b = rskip_spaces(s, s.len() as int);
    if a < b {
        s.subrange(a, b)
    } else {
        Seq::empty()
    }
}

/// Removes leading and trailing ASCII whitespace.
pub fn trim(v: &Vec<u8>) -> (r: Vec<u8>)
    ensures
        r@ == trimmed(v@),
{
    let n = v.len();
    let mut a: usize = 0;
    while a < n && (v[a] == 32 || (9 <= v[a] && v[a] <= 13))
        invariant
            n == v@.len(),
            a <= n,
            skip_spaces(v@, 0) == skip_spaces(v@, a as int),
        decreases n - a,
    {
        a = a + 1;
    }
    let mut b: usize = n;
    while b > 0 && (v[b - 1] == 32 || (9 <= v[b - 1] && v[b - 1] <= 13))
        invariant
            n == v@.len(),
            b <= n,
            rskip_spaces(v@, n as int) == rskip_spaces(v@, b as int),
        decreases b,
    {
        b = b - 1;
    }
    let mut r: Vec<u8> = Vec::new();
    if a >= b {
        assert(r@ =~= trimmed(v@));
        return r;
    }
    let mut i: usize = a;
    while i < b
        invariant
            a <= i <= b <= v@.len(),
            r@ == v@.subrange(a as int, i as int),
        decreases b - i,
    {
        proof {
            assert(v@.subrange(a as int, i + 1) =~= v@.subrange(a as int, i as int).push(
                v@[i as int]));
        }
        r.push(v[i]);
        i = i + 1;
    }
    r
}

/// The text with each curly brace preceded by a backslash, so that the
/// overlay script cannot read user text as a directive.
pub open spec fn escaped(s: Seq<u8>) -> Seq<u8>
    decreases s.len(),
{
    if s.len() == 0 {
        Seq::empty()
    } else {
        let rest = escaped(s.drop_last());
        let c = s.last();
        if c == 123 || c == 125 {
            rest + seq![92u8, c]
        } else {
            rest.push(c)
        }
    }
}

/// Escapes the curly braces of user text for the overlay script.
pub fn escape_braces(v: &Vec<u8>) -> (r: Vec<u8>)
    ensures
        r@ == escaped(v@),
{
    let mut r: Vec<u8> = Vec::new();
    let mut i: usize = 0;
    assert(v@.take(0) =~= Seq::<u8>::empty());
    while i < v.len()
        invariant
            i <= v@.len(),
            r@ == escaped(v@.take(i as int)),
        decreases v@.len() - i,
    {
        proof {
            assert(v@.take(i + 1).drop_last() =~= v@.take(i as int));
            assert(v@.take(i + 1).last() == v@[i as int]);
        }
        let c = v[i];
        if c == 123 || c == 125 {
            r.push(92);
        }
        r.push(c);
        i = i + 1;
    }
    assert(v@.take(v@.len() as int) =~= v@);
    r
}

/// The decimal digits of a nonnegative number, most significant first.
pub open spec fn dec_digits(n: int) -> Seq<u8>
    recommends
        n >= 0,
    decreases n,
{
    if n < 10 {
        seq![(48 + n) as u8]
    } else {
        dec_digits(n / 10).push((48 + n % 10) as u8)
    }
}

/// Two decimal digits, zero-padded; for a number below 100.
pub open spec fn dec2(n: int) -> Seq<u8> {
    seq![(48 + n / 10) as u8, (48 + n % 10) as u8]
}

/// Appends the decimal digits of `n`.
pub fn push_dec(out: &mut Vec<u8>, n: u64)
    ensures
        final(out)@ == old(out)@ + dec_digits(n as int),
    decreases n,
{
    if n < 10 {
        out.push(48 + n as u8);
        assert(final(out)@ =~= old(out)@ + dec_digits(n as int));
    } else {
        push_dec(out, n / 10);
        out.push(48 + (n % 10) as u8);
        assert(final(out)@ =~= old(out)@ + dec_digits(n as int));
    }
}

/// Appends two zero-padded decimal digits of `n`, below 100.
pub fn push_dec2(out: &mut Vec<u8>, n: u64)
    requires
        n < 100,
    ensures
        final(out)@ == old(out)@ + dec2(n as int),
{
    out.push(48 + (n / 10) as u8);
    out.push(48 + (n % 10) as u8);
    assert(final(out)@ =~= old(out)@ + dec2(n as int));
}

/// A time of the overlay script, `H:MM:SS.CC`, from centiseconds.
pub open spec fn ass_time(cs: int) -> Seq<u8> {
    dec_digits(cs / 360000) + seq![58u8] + dec2((cs % 360000) / 6000) + seq![58u8] + dec2(
        (cs % 6000) / 100) + seq![46u8] + dec2(cs % 100)
}

/// Formats a time in centiseconds for the overlay script, `H:MM:SS.CC`.
pub fn format_ass_time(cs: u64) -> (r: Vec<u8>)
    ensures
        r@ == ass_time(cs as int),
{
    let mut r: Vec<u8> = Vec::new();
    push_dec(&mut r, cs / 360000);
    r.push(58);
    push_dec2(&mut r, (cs % 360000) / 6000);
    r.push(58);
    push_dec2(&mut r, (cs % 6000) / 100);
    r.push(46);
    push_dec2(&mut r, cs % 100);
    assert(r@ =~= ass_time(cs as int));
    r
}

/// The number the decimal digits stand for, most significant first.
pub open spec fn dec_value(s: Seq<u8>) -> int
    decreases s.len(),
{
    if s.len() == 0 {
        0
    } else {
        dec_value(s.drop_last()) * 10 + (s.last() - 48)
    }
}

proof fn lemma_dec_value_nonneg(s: Seq<u8>)
    requires
        all_digits(s),
    ensures
        dec_value(s) >= 0,
    decreases s.len(),
{
    if s.len() > 0 {
        assert(is_digit(s[s.len() - 1]));
        lemma_dec_value_nonneg(s.drop_last());
    }
}

/// Parses an unsigned decimal number fitting `u32`. Succeeds exactly on
/// non-empty all-digit strings whose value fits.
pub fn parse_u32(v: &Vec<u8>) -> (r: Option<u32>)
    ensures
        r is Some <==> v@.len() > 0 && all_digits(v@) && dec_value(v@) <= u32::MAX,
        r matches Some(x) ==> x == dec_value(v@),
{
    if v.len() == 0 {
        return None;
    }
    let mut acc: u64 = 0;
    let mut i: usize = 0;
    assert(v@.take(0) =~= Seq::<u8>::empty());
    while i < v.len()
        invariant
            i <= v@.len(),
            v@.len() > 0,
            all_digits(v@.take(i as int)),
            acc <= u32::MAX,
            acc == dec_value(v@.take(i as int)),
        decreases v@.len() - i,
    {
        let c = v[i];
        proof {
            assert(v@.take(i + 1).drop_last() =~= v@.take(i as int));
            assert(v@.take(i + 1).last() == v@[i as int]);
        }
        if c < 48 || c > 57 {
            assert(!is_digit(v@[i as int]));
            return None;
        }
        let next = acc * 10 + (c - 48) as u64;
        if next > u32::MAX as u64 {
            proof {
                if all_digits(v@) {
                    lemma_dec_value_grows(v@, i + 1);
                }
            }
            return None;
        }
        acc = next;
        i = i + 1;
    }
    assert(v@.take(v@.len() as int) =~= v@);
    Some(acc as u32)
}

proof fn lemma_dec_value_grows(s: Seq<u8>, i: int)
    requires
        0 <= i <= s.len(),
        all_digits(s),
    ensures
        dec_value(s) >= dec_value(s.take(i)),
    decreases s.len() - i,
{
    if i < s.len() {
        lemma_dec_value_grows(s, i + 1);
        assert(s.take(i + 1).drop_last() =~= s.take(i));
        assert(s.take(i + 1).last() == s[i]);
        assert(all_digits(s.take(i))) by {
            assert forall|k: int| 0 <= k < s.take(i).len() implies is_digit(
                #[trigger] s.take(i)[k]) by {
                assert(s.take(i)[k] == s[k]);
                assert(is_digit(s[k]));
            }
        }
        lemma_dec_value_nonneg(s.take(i));
        assert(is_digit(s[i]));
        assert(dec_value(s.take(i + 1)) == dec_value(s.take(i)) * 10 + (s[i] - 48));
        assert(dec_value(s.take(i)) * 10 >= dec_value(s.take(i))) by (nonlinear_arith)
            requires
                dec_value(s.take(i)) >= 0,
        ;
    } else {
        assert(s.take(i) =~= s);
    }
}

/// Whether the needle occurs in `s` starting at `i`.
pub open spec fn match_at(s: Seq<u8>, p: Seq<u8>, i: int) -> bool {
    0 <= i && i + p.len() <= s.len() && s.subrange(i, i + p.len() as int) == p
}

/// The first index at or after `i` where the needle occurs, or -1.
pub open spec fn find_from(s: Seq<u8>, p: Seq<u8>, i: int) -> int
    decreases s.len() - i,
{
    if i < 0 || i + p.len() > s.len() {
        -1
    } else if match_at(s, p, i) {
        i
    } else if i >= s.len() {
        -1
    } else {
        find_from(s, p, i + 1)
    }
}

/// The first index where the needle occurs, or -1.
pub open spec fn find_sub(s: Seq<u8>, p: Seq<u8>) -> int {
    find_from(s, p, 0)
}

/// Whether the needle occurs at `i`, checked.
fn match_here(v: &Vec<u8>, p: &Vec<u8>, i: usize) -> (r: bool)
    requires
        i + p@.len() <= v@.len(),
    ensures
        r == match_at(v@, p@, i as int),
{
    let n = v.len();
    let mut j: usize = 0;
    while j < p.len()
        invariant
            n == v@.len(),
            i + p@.len() <= v@.len(),
            j <= p@.len(),
            forall|k: int| 0 <= k < j ==> v@[i + k] == p@[k],
        decreases p@.len() - j,
    {
        if v[i + j] != p[j] {
            assert(v@.subrange(i as int, i + p@.len() as int)[j as int] != p@[j as int]);
            return false;
        }
        j = j + 1;
    }
    assert(v@.subrange(i as int, i + p@.len() as int) =~= p@);
    true
}

/// Finds the first occurrence of the needle.
pub fn find_needle(v: &Vec<u8>, p: &Vec<u8>) -> (r: Option<usize>)
    ensures
        r matches Some(i) ==> find_sub(v@, p@) == i,
        r is None ==> find_sub(v@, p@) == -1,
{
    let mut i: usize = 0;
    if p.len() > v.len() {
        return None;
    }
    if p.len() == 0 {
        assert(v@.subrange(0, 0) =~= p@);
        return Some(0);
    }
    let last = v.len() - p.len();
    while i <= last
        invariant
            0 < p@.len() <= v@.len(),
            v@.len() <= usize::MAX,
            last == v@.len() - p@.len(),
            i <= last + 1,
            find_from(v@, p@, 0) == find_from(v@, p@, i as int),
        decreases last + 1 - i,
    {
        if match_here(v, p, i) {
            return Some(i);
        }
        i = i + 1;
    }
    None
}

/// The last index at or before `i` holding byte `c`, or -1.
pub open spec fn rfind_byte(s: Seq<u8>, c: u8, i: int) -> int
    decreases i + 1,
{
    if i < 0 || i >= s.len() {
        -1
    } else if s[i] == c {
        i
    } else {
        rfind_byte(s, c, i - 1)
    }
}

/// Where the byte is found, its index lies within the text.
pub proof fn lemma_rfind_byte_bounds(s: Seq<u8>, c: u8, i: int)
    ensures
        rfind_byte(s, c, i) == -1 || (0 <= rfind_byte(s, c, i) <= i && rfind_byte(s, c, i)
            < s.len()),
    decreases i + 1,
{
    if !(i < 0 || i >= s.len()) && s[i] != c {
        lemma_rfind_byte_bounds(s, c, i - 1);
    }
}

/// Finds the last occurrence of a byte.
pub fn rfind_byte_at(v: &Vec<u8>, c: u8) -> (r: Option<usize>)
    ensures
        r matches Some(i) ==> rfind_byte(v@, c, v@.len() - 1) == i,
        r is None ==> rfind_byte(v@, c, v@.len() - 1) == -1,
{
    let mut i: usize = v.len();
    while i > 0
        invariant
            i <= v@.len(),
            rfind_byte(v@, c, v@.len() - 1) == rfind_byte(v@, c, i - 1),
        decreases i,
    {
        if v[i - 1] == c {
            return Some(i - 1);
        }
        i = i - 1;
    }
    None
}

/// Copies the byte range `a .. b`.
pub fn slice_range(v: &Vec<u8>, a: usize, b: usize) -> (r: Vec<u8>)
    requires
        a <= b <= v@.len(),
    ensures
        r@ == v@.subrange(a as int, b as int),
{
    let mut r: Vec<u8> = Vec::new();
    let mut i: usize = a;
    assert(v@.subrange(a as int, a as int) =~= Seq::<u8>::empty());
    while i < b
        invariant
            a <= i <= b <= v@.len(),
            r@ == v@.subrange(a as int, i as int),
        decreases b - i,
    {
        proof {
            assert(v@.subrange(a as int, i + 1) =~= v@.subrange(a as int, i as int).push(
                v@[i as int]));
        }
        r.push(v[i]);
        i = i + 1;
    }
    r
}

/// Where the needle is found, the match lies within the text.
pub proof fn lemma_find_sub_bounds(s: Seq<u8>, p: Seq<u8>, i: int)
    requires
        0 <= i,
    ensures
        find_from(s, p, i) == -1 || (i <= find_from(s, p, i)
            && find_from(s, p, i) + p.len() <= s.len()),
    decreases s.len() - i,
{
    if !(i < 0 || i + p.len() > s.len()) && !match_at(s, p, i) && i < s.len() {
        lemma_find_sub_bounds(s, p, i + 1);
    }
}

/// The views of a list of byte strings.
pub open spec fn byte_views(v: Seq<Vec<u8>>) -> Seq<Seq<u8>> {
    Seq::new(v.len(), |i: int| v[i]@)
}

/// The text split on every occurrence of the needle, parts in order; a
/// text without the needle is one part.
pub open spec fn split_all(s: Seq<u8>, p: Seq<u8>) -> Seq<Seq<u8>>
    decreases s.len(),
    via split_all_decreases
{
    let j = find_sub(s, p);
    if p.len() == 0 || j == -1 {
        seq![s]
    } else {
        seq![s.take(j)] + split_all(s.skip(j + p.len()), p)
    }
}

#[via_fn]
proof fn split_all_decreases(s: Seq<u8>, p: Seq<u8>) {
    if p.len() > 0 && find_sub(s, p) != -1 {
        lemma_find_sub_bounds(s, p, 0);
    }
}

/// Splits the text on every occurrence of the needle.
pub fn split_needle(v: &Vec<u8>, p: &Vec<u8>) -> (r: Vec<Vec<u8>>)
    requires
        p@.len() > 0,
    ensures
        byte_views(r@) == split_all(v@, p@),
        r@.len() >= 1,
{
    let mut rem: Vec<u8> = slice_range(v, 0, v.len());
    assert(rem@ =~= v@);
    let mut out: Vec<Vec<u8>> = Vec::new();
    loop
        invariant
            p@.len() > 0,
            byte_views(out@) + split_all(rem@, p@) == split_all(v@, p@),
        decreases rem@.len(),
    {
        match find_needle(&rem, p) {
            None => {
                out.push(rem);
                assert(byte_views(out@) =~= split_all(v@, p@));
                return out;
            },
            Some(j) => {
                proof {
                    lemma_find_sub_bounds(rem@, p@, 0);
                }
                let part = slice_range(&rem, 0, j);
                assert(part@ =~= rem@.take(j as int));
                let rem_len = rem.len();
                let next = slice_range(&rem, j + p.len(), rem_len);
                proof {
                    assert(next@ =~= rem@.skip(j + p@.len()));
                }
                out.push(part);
                proof {
                    assert(byte_views(out@) + split_all(next@, p@) =~= split_all(v@, p@));
                }
                rem = next;
            },
        }
    }
}

/// The text with every occurrence of the needle removed, left to right.
pub open spec fn removed(s: Seq<u8>, p: Seq<u8>) -> Seq<u8>
    decreases s.len(),
    via removed_decreases
{
    if p.len() == 0 {
        s
    } else {
        let j = find_sub(s, p);
        if j == -1 {
            s
        } else {
            s.take(j) + removed(s.skip(j + p.len()), p)
        }
    }
}

#[via_fn]
proof fn removed_decreases(s: Seq<u8>, p: Seq<u8>) {
    if p.len() > 0 && find_sub(s, p) != -1 {
        lemma_find_sub_bounds(s, p, 0);
    }
}

/// Removes every occurrence of the needle from the text.
pub fn remove_all(v: &Vec<u8>, p: &Vec<u8>) -> (r: Vec<u8>)
    requires
        p@.len() > 0,
    ensures
        r@ == removed(v@, p@),
{
    let mut rem: Vec<u8> = slice_range(v, 0, v.len());
    assert(rem@ =~= v@);
    let mut out: Vec<u8> = Vec::new();
    loop
        invariant
            p@.len() > 0,
            out@ + removed(rem@, p@) == removed(v@, p@),
        decreases rem@.len(),
    {
        match find_needle(&rem, p) {
            None => {
                let mut i: usize = 0;
                let ghost out0 = out@;
                while i < rem.len()
                    invariant
                        i <= rem@.len(),
                        out@ == out0 + rem@.take(i as int),
                        out0 + rem@ == removed(v@, p@),
                    decreases rem@.len() - i,
                {
                    proof {
                        assert(rem@.take(i + 1) =~= rem@.take(i as int).push(rem@[i as int]));
                    }
                    out.push(rem[i]);
                    i = i + 1;
                }
                assert(rem@.take(rem@.len() as int) =~= rem@);
                assert(out@ =~= removed(v@, p@));
                return out;
            },
            Some(j) => {
                proof {
                    lemma_find_sub_bounds(rem@, p@, 0);
                }
                let mut i: usize = 0;
                let ghost out0 = out@;
                while i < j
                    invariant
                        i <= j,
                        j + p@.len() <= rem@.len(),
                        out@ == out0 + rem@.take(i as int),
                    decreases j - i,
                {
                    proof {
                        assert(rem@.take(i + 1) =~= rem@.take(i as int).push(rem@[i as int]));
                    }
                    out.push(rem[i]);
                    i = i + 1;
                }
                let rem_len = rem.len();
                let next = slice_range(&rem, j + p.len(), rem_len);
                proof {
                    assert(next@ =~= rem@.skip(j + p@.len()));
                    assert(removed(rem@, p@) == rem@.take(j as int) + removed(
                        rem@.skip(j + p@.len()), p@));
                    assert(out@ + removed(next@, p@) =~= removed(v@, p@));
                }
                rem = next;
            },
        }
    }
}

} // verus!
