//! Character-level text utilities with exact specifications.
//!
//! Strings are specified through their views, sequences of `char`.

use vstd::prelude::*;
use vstd::utf8::encode_utf8;

verus! {

// ---------------------------------------------------------------------------
// Specifications
// ---------------------------------------------------------------------------

/// Unicode `White_Space`, the set that `char::is_whitespace` and `str::trim` use.
pub open spec fn is_ws(c: char) -> bool {
    ||| ('\u{9}' <= c && c <= '\u{d}')
    ||| c == ' '
    ||| c == '\u{85}'
    ||| c == '\u{a0}'
    ||| c == '\u{1680}'
    ||| ('\u{2000}' <= c && c <= '\u{200a}')
    ||| c == '\u{2028}'
    ||| c == '\u{2029}'
    ||| c == '\u{202f}'
    ||| c == '\u{205f}'
    ||| c == '\u{3000}'
}

/// Index of the first non-whitespace character at or after `i`.
pub open spec fn skip_ws_from(s: Seq<char>, i: int) -> int
    decreases s.len() - i,
{
    if 0 <= i < s.len() && is_ws(s[i]) {
        skip_ws_from(s, i + 1)
    } else {
        i
    }
}

/// End of `s.take(j)` once trailing whitespace is dropped.
pub open spec fn skip_ws_back(s: Seq<char>, j: int) -> int
    decreases j,
{
    if 0 < j <= s.len() && is_ws(s[j - 1]) {
        skip_ws_back(s, j - 1)
    } else {
        j
    }
}

/// `s` without leading whitespace.
pub open spec fn trim_start_spec(s: Seq<char>) -> Seq<char> {
    s.skip(skip_ws_from(s, 0))
}

/// `s` without trailing whitespace.
pub open spec fn trim_end_spec(s: Seq<char>) -> Seq<char> {
    s.take(skip_ws_back(s, s.len() as int))
}

/// `s` without leading and trailing whitespace (what `str::trim` returns).
pub open spec fn trim_spec(s: Seq<char>) -> Seq<char> {
    trim_end_spec(trim_start_spec(s))
}

pub open spec fn starts_with_spec(s: Seq<char>, p: Seq<char>) -> bool {
    p.len() <= s.len() && s.take(p.len() as int) == p
}

pub open spec fn ends_with_spec(s: Seq<char>, p: Seq<char>) -> bool {
    p.len() <= s.len() && s.skip(s.len() - p.len()) == p
}

/// Whether `p` occurs in `s` at position `i`.
pub open spec fn occurs_at(s: Seq<char>, p: Seq<char>, i: int) -> bool {
    0 <= i && i + p.len() <= s.len() && s.subrange(i, i + p.len()) == p
}

pub open spec fn contains_spec(s: Seq<char>, p: Seq<char>) -> bool {
    exists|i: int| occurs_at(s, p, i)
}

/// `s` with every leading copy of `p` removed (what `str::trim_start_matches` returns).
pub open spec fn strip_all_prefix(s: Seq<char>, p: Seq<char>) -> Seq<char>
    decreases s.len(),
{
    if p.len() > 0 && starts_with_spec(s, p) {
        strip_all_prefix(s.skip(p.len() as int), p)
    } else {
        s
    }
}

/// `s` with every trailing copy of `p` removed (what `str::trim_end_matches` returns).
pub open spec fn strip_all_suffix(s: Seq<char>, p: Seq<char>) -> Seq<char>
    decreases s.len(),
{
    if p.len() > 0 && ends_with_spec(s, p) {
        strip_all_suffix(s.take(s.len() - p.len()), p)
    } else {
        s
    }
}

/// Left-to-right, non-overlapping replacement of a non-empty pattern
/// (what `str::replace` returns).
pub open spec fn replace_spec(s: Seq<char>, p: Seq<char>, r: Seq<char>) -> Seq<char>
    decreases s.len(),
{
    if p.len() == 0 || s.len() == 0 {
        s
    } else if starts_with_spec(s, p) {
        r + replace_spec(s.skip(p.len() as int), p, r)
    } else {
        seq![s[0]] + replace_spec(s.drop_first(), p, r)
    }
}

/// ASCII lower-case of one character.
pub open spec fn ascii_lower(c: char) -> char {
    if 'A' <= c && c <= 'Z' {
        ((c as u32) + 32) as char
    } else {
        c
    }
}

/// `s` equals the lower-case ASCII text `lit` up to the case of ASCII letters.
pub open spec fn eq_ignore_ascii_case_spec(s: Seq<char>, lit: Seq<char>) -> bool {
    s.len() == lit.len() && forall|i: int| 0 <= i < s.len() ==> ascii_lower(s[i]) == lit[i]
}

// ---------------------------------------------------------------------------
// Trusted primitive
// ---------------------------------------------------------------------------

/// `String::push`: appends one character to the string.
#[verifier::external_body]
pub(crate) fn push_char(s: &mut String, c: char)
    ensures
        final(s)@ == old(s)@.push(c),
{
    s.push(c);
}

// ---------------------------------------------------------------------------
// Conversions
// ---------------------------------------------------------------------------

/// The characters of `s`, in order.
pub fn chars_of(s: &str) -> (v: Vec<char>)
    ensures
        v@ == s@,
{
    let mut v: Vec<char> = Vec::new();
    for c in it: s.chars()
        invariant
            v@ == it.seq().take(it.index() as int),
            it.seq() == s@,
    {
        v.push(c);
    }
    v
}

/// The string made of `v[lo..hi]`.
pub fn string_from_range(v: &[char], lo: usize, hi: usize) -> (s: String)
    requires
        lo <= hi <= v@.len(),
    ensures
        s@ == v@.subrange(lo as int, hi as int),
{
    let mut s = String::new();
    let mut i = lo;
    while i < hi
        invariant
            lo <= i <= hi <= v@.len(),
            s@ == v@.subrange(lo as int, i as int),
        decreases hi - i,
    {
        push_char(&mut s, v[i]);
        proof {
            assert(v@.subrange(lo as int, i + 1) == v@.subrange(lo as int, i as int).push(v@[i as int]));
        }
        i += 1;
    }
    s
}

/// The string made of all of `v`.
pub fn string_from_chars(v: &[char]) -> (s: String)
    ensures
        s@ == v@,
{
    let s = string_from_range(v, 0, v.len());
    proof {
        assert(v@.subrange(0, v@.len() as int) == v@);
    }
    s
}

/// A copy of `s`.
pub fn to_owned_string(s: &str) -> (r: String)
    ensures
        r@ == s@,
{
    s.to_owned()
}

/// `a` followed by `b`.
pub fn concat2(a: &str, b: &str) -> (r: String)
    ensures
        r@ == a@ + b@,
{
    let mut r = a.to_owned();
    r.append(b);
    r
}

/// `a`, `b` and `c`, in that order.
pub fn concat3(a: &str, b: &str, c: &str) -> (r: String)
    ensures
        r@ == a@ + b@ + c@,
{
    let mut r = a.to_owned();
    r.append(b);
    r.append(c);
    r
}

// ---------------------------------------------------------------------------
// Comparisons
// ---------------------------------------------------------------------------

/// Whether `a[ai..ai+n] == b[bi..bi+n]`.
fn range_eq(a: &[char], ai: usize, b: &[char], bi: usize, n: usize) -> (r: bool)
    requires
        ai + n <= a.len(),
        bi + n <= b.len(),
    ensures
        r == (a@.subrange(ai as int, ai + n) == b@.subrange(bi as int, bi + n)),
{
    let mut k: usize = 0;
    while k < n
        invariant
            k <= n,
            ai + n <= a.len(),
            bi + n <= b.len(),
            a@.subrange(ai as int, ai + k) == b@.subrange(bi as int, bi + k),
        decreases n - k,
    {
        if a[ai + k] != b[bi + k] {
            proof {
                assert(a@.subrange(ai as int, ai + n)[k as int] != b@.subrange(bi as int, bi + n)[k as int]);
            }
            return false;
        }
        proof {
            assert(a@.subrange(ai as int, ai + k + 1) == a@.subrange(ai as int, ai + k).push(a@[ai + k]));
            assert(b@.subrange(bi as int, bi + k + 1) == b@.subrange(bi as int, bi + k).push(b@[bi + k]));
        }
        k += 1;
    }
    true
}

/// Whether the two character sequences are equal.
pub fn chars_eq(a: &[char], b: &[char]) -> (r: bool)
    ensures
        r == (a@ == b@),
{
    if a.len() != b.len() {
        return false;
    }
    let r = range_eq(a, 0, b, 0, a.len());
    proof {
        assert(a@.subrange(0, a@.len() as int) == a@);
        assert(b@.subrange(0, b@.len() as int) == b@);
    }
    r
}

/// Whether `a` and `b` hold the same text.
pub fn str_eq(a: &str, b: &str) -> (r: bool)
    ensures
        r == (a@ == b@),
{
    let av = chars_of(a);
    let bv = chars_of(b);
    chars_eq(av.as_slice(), bv.as_slice())
}

/// Whether `s` begins with `p`.
pub fn chars_starts_with(s: &[char], p: &[char]) -> (r: bool)
    ensures
        r == starts_with_spec(s@, p@),
{
    if p.len() > s.len() {
        return false;
    }
    let r = range_eq(s, 0, p, 0, p.len());
    proof {
        assert(p@.subrange(0, p@.len() as int) == p@);
        assert(s@.subrange(0, p@.len() as int) == s@.take(p@.len() as int));
    }
    r
}

/// Whether `s` ends with `p`.
pub fn chars_ends_with(s: &[char], p: &[char]) -> (r: bool)
    ensures
        r == ends_with_spec(s@, p@),
{
    if p.len() > s.len() {
        return false;
    }
    let r = range_eq(s, s.len() - p.len(), p, 0, p.len());
    proof {
        assert(p@.subrange(0, p@.len() as int) == p@);
        assert(s@.subrange(s@.len() - p@.len(), s@.len() as int) == s@.skip(s@.len() - p@.len()));
    }
    r
}

/// Whether `s` begins with `p` (`str::starts_with`).
pub fn starts_with(s: &str, p: &str) -> (r: bool)
    ensures
        r == starts_with_spec(s@, p@),
{
    let sv = chars_of(s);
    let pv = chars_of(p);
    chars_starts_with(sv.as_slice(), pv.as_slice())
}

/// Whether `s` ends with `p` (`str::ends_with`).
pub fn ends_with(s: &str, p: &str) -> (r: bool)
    ensures
        r == ends_with_spec(s@, p@),
{
    let sv = chars_of(s);
    let pv = chars_of(p);
    chars_ends_with(sv.as_slice(), pv.as_slice())
}

/// `s` without its prefix `p`, if it has it (`str::strip_prefix`).
pub fn strip_prefix(s: &str, p: &str) -> (r: Option<String>)
    ensures
        r is Some <==> starts_with_spec(s@, p@),
        r matches Some(t) ==> t@ == s@.skip(p@.len() as int),
{
    let sv = chars_of(s);
    let pv = chars_of(p);
    if chars_starts_with(sv.as_slice(), pv.as_slice()) {
        let t = string_from_range(sv.as_slice(), pv.len(), sv.len());
        proof {
            assert(sv@.subrange(pv@.len() as int, sv@.len() as int) == sv@.skip(pv@.len() as int));
        }
        Some(t)
    } else {
        None
    }
}

/// Whether `p` occurs in `s` (`str::contains`).
pub fn contains(s: &str, p: &str) -> (r: bool)
    ensures
        r == contains_spec(s@, p@),
{
    let sv = chars_of(s);
    let pv = chars_of(p);
    if pv.len() > sv.len() {
        proof {
            assert forall|i: int| !occurs_at(s@, p@, i) by {}
        }
        return false;
    }
    if pv.len() == 0 {
        proof {
            assert(s@.subrange(0, 0) =~= p@);
            assert(occurs_at(s@, p@, 0));
        }
        return true;
    }
    let last = sv.len() - pv.len();
    let mut i: usize = 0;
    while i <= last
        invariant
            sv@ == s@,
            pv@ == p@,
            last == sv@.len() - pv@.len(),
            pv@.len() > 0,
            last < sv.len(),
            i <= last + 1,
            forall|j: int| 0 <= j < i ==> !occurs_at(s@, p@, j),
        decreases last + 1 - i,
    {
        if range_eq(sv.as_slice(), i, pv.as_slice(), 0, pv.len()) {
            proof {
                assert(pv@.subrange(0, pv@.len() as int) == pv@);
                assert(occurs_at(s@, p@, i as int));
            }
            return true;
        }
        proof {
            assert(pv@.subrange(0, pv@.len() as int) == pv@);
        }
        i += 1;
    }
    proof {
        assert forall|j: int| !occurs_at(s@, p@, j) by {
            if 0 <= j && j + p@.len() <= s@.len() {
                assert(j < i);
            }
        }
    }
    false
}

/// Whether `s` equals the lower-case ASCII text `lit` up to ASCII case.
pub fn eq_ignore_ascii_case(s: &str, lit: &str) -> (r: bool)
    ensures
        r == eq_ignore_ascii_case_spec(s@, lit@),
{
    let sv = chars_of(s);
    let lv = chars_of(lit);
    if sv.len() != lv.len() {
        return false;
    }
    let mut i: usize = 0;
    while i < sv.len()
        invariant
            sv@ == s@,
            lv@ == lit@,
            sv@.len() == lv@.len(),
            i <= sv@.len(),
            forall|j: int| 0 <= j < i ==> ascii_lower(s@[j]) == lit@[j],
        decreases sv@.len() - i,
    {
        let c = sv[i];
        let lc = if 'A' <= c && c <= 'Z' {
            char_from_u32_ascii((c as u32) + 32)
        } else {
            c
        };
        if lc != lv[i] {
            return false;
        }
        i += 1;
    }
    true
}

/// The ASCII character with code `u`.
fn char_from_u32_ascii(u: u32) -> (c: char)
    requires
        u < 128,
    ensures
        c == u as char,
{
    let b: u8 = u as u8;
    b as char
}


// ---------------------------------------------------------------------------
// Trimming and rewriting
// ---------------------------------------------------------------------------

/// Whether `c` is Unicode whitespace (`char::is_whitespace`).
pub fn is_whitespace(c: char) -> (r: bool)
    ensures
        r == is_ws(c),
{
    ('\u{9}' <= c && c <= '\u{d}') || c == ' ' || c == '\u{85}' || c == '\u{a0}' || c == '\u{1680}'
        || ('\u{2000}' <= c && c <= '\u{200a}') || c == '\u{2028}' || c == '\u{2029}' || c
        == '\u{202f}' || c == '\u{205f}' || c == '\u{3000}'
}

/// Bounds `(lo, hi)` such that `v[lo..hi]` is `v` trimmed.
pub fn trim_bounds(v: &[char]) -> (r: (usize, usize))
    ensures
        r.0 <= r.1 <= v@.len(),
        v@.subrange(r.0 as int, r.1 as int) == trim_spec(v@),
{
    let mut lo: usize = 0;
    while lo < v.len() && is_whitespace(v[lo])
        invariant
            lo <= v@.len(),
            skip_ws_from(v@, lo as int) == skip_ws_from(v@, 0),
        decreases v@.len() - lo,
    {
        lo += 1;
    }
    let ghost t = v@.skip(lo as int);
    assert(trim_start_spec(v@) == t);
    let mut hi: usize = v.len();
    while hi > lo && is_whitespace(v[hi - 1])
        invariant
            lo <= hi <= v@.len(),
            t == v@.skip(lo as int),
            skip_ws_back(t, hi - lo) == skip_ws_back(t, t.len() as int),
        decreases hi,
    {
        assert(t[hi - lo - 1] == v@[hi - 1]);
        hi -= 1;
    }
    assert(t.take(hi - lo) =~= v@.subrange(lo as int, hi as int));
    (lo, hi)
}

/// `s` without leading and trailing whitespace (`str::trim`).
pub fn trim(s: &str) -> (r: String)
    ensures
        r@ == trim_spec(s@),
{
    let v = chars_of(s);
    let (lo, hi) = trim_bounds(v.as_slice());
    string_from_range(v.as_slice(), lo, hi)
}

/// `v` with every leading copy of `p` removed, as a start index into `v`.
fn strip_all_prefix_index(v: &[char], p: &[char]) -> (i: usize)
    ensures
        i <= v@.len(),
        v@.skip(i as int) == strip_all_prefix(v@, p@),
{
    let mut i: usize = 0;
    assert(v@.skip(0) =~= v@);
    if p.len() == 0 {
        return 0;
    }
    while i <= v.len() && p.len() <= v.len() - i && range_eq(v, i, p, 0, p.len())
        invariant
            i <= v@.len(),
            p@.len() > 0,
            strip_all_prefix(v@.skip(i as int), p@) == strip_all_prefix(v@, p@),
        decreases v@.len() - i,
    {
        proof {
            let t = v@.skip(i as int);
            assert(p@.subrange(0, p@.len() as int) =~= p@);
            assert(t.take(p@.len() as int) =~= v@.subrange(i as int, i + p@.len()));
            assert(t.skip(p@.len() as int) =~= v@.skip(i + p@.len()));
        }
        i += p.len();
    }
    proof {
        let t = v@.skip(i as int);
        assert(p@.subrange(0, p@.len() as int) =~= p@);
        if p@.len() <= t.len() {
            assert(t.take(p@.len() as int) =~= v@.subrange(i as int, i + p@.len()));
        }
    }
    i
}

/// `v` with every trailing copy of `p` removed, as an end index into `v`.
fn strip_all_suffix_index(v: &[char], p: &[char]) -> (j: usize)
    ensures
        j <= v@.len(),
        v@.take(j as int) == strip_all_suffix(v@, p@),
{
    let mut j: usize = v.len();
    assert(v@.take(v@.len() as int) =~= v@);
    if p.len() == 0 {
        return j;
    }
    while p.len() <= j && range_eq(v, j - p.len(), p, 0, p.len())
        invariant
            j <= v@.len(),
            p@.len() > 0,
            strip_all_suffix(v@.take(j as int), p@) == strip_all_suffix(v@, p@),
        decreases j,
    {
        proof {
            let t = v@.take(j as int);
            assert(p@.subrange(0, p@.len() as int) =~= p@);
            assert(t.skip(t.len() - p@.len()) =~= v@.subrange(j - p@.len(), j as int));
            assert(t.take(t.len() - p@.len()) =~= v@.take(j - p@.len()));
        }
        j -= p.len();
    }
    proof {
        let t = v@.take(j as int);
        assert(p@.subrange(0, p@.len() as int) =~= p@);
        if p@.len() <= t.len() {
            assert(t.skip(t.len() - p@.len()) =~= v@.subrange(j - p@.len(), j as int));
        }
    }
    j
}

/// `s` with every leading copy of `p` removed (`str::trim_start_matches`).
pub fn trim_start_matches(s: &str, p: &str) -> (r: String)
    ensures
        r@ == strip_all_prefix(s@, p@),
{
    let v = chars_of(s);
    let pv = chars_of(p);
    let i = strip_all_prefix_index(v.as_slice(), pv.as_slice());
    let r = string_from_range(v.as_slice(), i, v.len());
    assert(v@.subrange(i as int, v@.len() as int) =~= v@.skip(i as int));
    r
}

/// `s` with every trailing copy of `p` removed (`str::trim_end_matches`).
pub fn trim_end_matches(s: &str, p: &str) -> (r: String)
    ensures
        r@ == strip_all_suffix(s@, p@),
{
    let v = chars_of(s);
    let pv = chars_of(p);
    let j = strip_all_suffix_index(v.as_slice(), pv.as_slice());
    let r = string_from_range(v.as_slice(), 0, j);
    assert(v@.subrange(0, j as int) =~= v@.take(j as int));
    r
}

/// Every occurrence of the non-empty pattern `p` in `s` replaced by `r`,
/// scanning left to right (`str::replace`).
pub fn replace(s: &str, p: &str, r: &str) -> (out: String)
    requires
        p@.len() > 0,
    ensures
        out@ == replace_spec(s@, p@, r@),
{
    let v = chars_of(s);
    let pv = chars_of(p);
    let mut out = String::new();
    let mut i: usize = 0;
    assert(v@.skip(0) =~= v@);
    while i < v.len()
        invariant
            v@ == s@,
            pv@ == p@,
            p@.len() > 0,
            i <= v@.len(),
            replace_spec(s@, p@, r@) == out@ + replace_spec(v@.skip(i as int), p@, r@),
        decreases v@.len() - i,
    {
        let ghost t = v@.skip(i as int);
        let ghost before = out@;
        if pv.len() <= v.len() - i && range_eq(v.as_slice(), i, pv.as_slice(), 0, pv.len()) {
            proof {
                assert(pv@.subrange(0, pv@.len() as int) =~= pv@);
                assert(t.take(p@.len() as int) =~= v@.subrange(i as int, i + p@.len()));
                assert(t.skip(p@.len() as int) =~= v@.skip(i + p@.len()));
                assert(before + (r@ + replace_spec(t.skip(p@.len() as int), p@, r@)) =~= (before
                    + r@) + replace_spec(t.skip(p@.len() as int), p@, r@));
            }
            out.append(r);
            i += pv.len();
        } else {
            proof {
                assert(pv@.subrange(0, pv@.len() as int) =~= pv@);
                if p@.len() <= t.len() {
                    assert(t.take(p@.len() as int) =~= v@.subrange(i as int, i + p@.len()));
                }
                assert(t.drop_first() =~= v@.skip(i + 1));
                assert(before + (seq![t[0]] + replace_spec(t.drop_first(), p@, r@)) =~= before.push(
                    v@[i as int],
                ) + replace_spec(t.drop_first(), p@, r@));
            }
            push_char(&mut out, v[i]);
            i += 1;
        }
    }
    proof {
        assert(v@.skip(i as int).len() == 0);
        assert(out@ + v@.skip(i as int) =~= out@);
    }
    out
}

// ---------------------------------------------------------------------------
// Splitting
// ---------------------------------------------------------------------------

/// The fields of `s` separated by `c` (what `str::split(c)` yields).
pub open spec fn split_spec(s: Seq<char>, c: char) -> Seq<Seq<char>>
    decreases s.len(),
{
    if s.len() == 0 {
        seq![Seq::<char>::empty()]
    } else {
        let prev = split_spec(s.drop_last(), c);
        if s.last() == c {
            prev.push(Seq::<char>::empty())
        } else {
            prev.update(prev.len() - 1, prev.last().push(s.last()))
        }
    }
}

pub proof fn lemma_split_nonempty(s: Seq<char>, c: char)
    ensures
        split_spec(s, c).len() >= 1,
    decreases s.len(),
{
    if s.len() > 0 {
        lemma_split_nonempty(s.drop_last(), c);
    }
}

/// The last field of a split is a suffix of the text.
pub proof fn lemma_split_last_suffix(s: Seq<char>, c: char)
    ensures
        split_spec(s, c).len() >= 1,
        split_spec(s, c).last().len() <= s.len(),
        s.skip(s.len() - split_spec(s, c).last().len()) == split_spec(s, c).last(),
    decreases s.len(),
{
    lemma_split_nonempty(s, c);
    if s.len() > 0 {
        lemma_split_last_suffix(s.drop_last(), c);
        let prev = split_spec(s.drop_last(), c);
        if s.last() == c {
            assert(s.skip(s.len() as int) =~= Seq::<char>::empty());
        } else {
            let l = prev.last();
            assert(s.drop_last().skip(s.drop_last().len() - l.len()) == l);
            assert(s.skip(s.len() - (l.len() + 1)) =~= l.push(s.last()));
        }
    }
}

/// The UTF-8 encoding of a concatenation is the concatenation of the encodings.
pub proof fn lemma_encode_concat(a: Seq<char>, b: Seq<char>)
    ensures
        encode_utf8(a + b) == encode_utf8(a) + encode_utf8(b),
    decreases a.len(),
{
    if a.len() == 0 {
        assert(a + b =~= b);
        assert(encode_utf8(a) =~= Seq::<u8>::empty());
        assert(encode_utf8(a) + encode_utf8(b) =~= encode_utf8(b));
    } else {
        lemma_encode_concat(a.drop_first(), b);
        assert((a + b).drop_first() =~= a.drop_first() + b);
        assert((a + b)[0] == a[0]);
        let e = vstd::utf8::encode_scalar(a[0] as u32);
        assert(e + (encode_utf8(a.drop_first()) + encode_utf8(b)) =~= (e
            + encode_utf8(a.drop_first())) + encode_utf8(b));
    }
}

/// Trimming does not lengthen the UTF-8 encoding.
pub proof fn lemma_trim_encode_bound(s: Seq<char>)
    ensures
        encode_utf8(trim_spec(s)).len() <= encode_utf8(s).len(),
{
    let lo = skip_ws_from(s, 0);
    lemma_skip_ws_from_bounds(s, 0);
    let t = s.skip(lo);
    let hi = skip_ws_back(t, t.len() as int);
    lemma_skip_ws_back_bounds(t, t.len() as int);
    assert(s =~= s.take(lo) + t);
    lemma_encode_concat(s.take(lo), t);
    assert(t =~= t.take(hi) + t.skip(hi));
    lemma_encode_concat(t.take(hi), t.skip(hi));
}

proof fn lemma_skip_ws_from_bounds(s: Seq<char>, i: int)
    requires
        0 <= i <= s.len(),
    ensures
        i <= skip_ws_from(s, i) <= s.len(),
    decreases s.len() - i,
{
    if i < s.len() && is_ws(s[i]) {
        lemma_skip_ws_from_bounds(s, i + 1);
    }
}

proof fn lemma_skip_ws_back_bounds(s: Seq<char>, j: int)
    requires
        0 <= j <= s.len(),
    ensures
        0 <= skip_ws_back(s, j) <= j,
    decreases j,
{
    if 0 < j && is_ws(s[j - 1]) {
        lemma_skip_ws_back_bounds(s, j - 1);
    }
}

proof fn lemma_skip_ws_from_stops(s: Seq<char>, i: int)
    requires
        0 <= i <= s.len(),
    ensures
        skip_ws_from(s, i) == s.len() || !is_ws(s[skip_ws_from(s, i)]),
    decreases s.len() - i,
{
    if i < s.len() && is_ws(s[i]) {
        lemma_skip_ws_from_stops(s, i + 1);
    }
}

proof fn lemma_skip_ws_back_stops(s: Seq<char>, j: int)
    requires
        0 <= j <= s.len(),
    ensures
        skip_ws_back(s, j) == 0 || !is_ws(s[skip_ws_back(s, j) - 1]),
    decreases j,
{
    if 0 < j && is_ws(s[j - 1]) {
        lemma_skip_ws_back_stops(s, j - 1);
    }
}

/// Trimming a trimmed text changes nothing.
pub proof fn lemma_trim_idempotent(s: Seq<char>)
    ensures
        trim_spec(trim_spec(s)) == trim_spec(s),
{
    let k = skip_ws_from(s, 0);
    lemma_skip_ws_from_bounds(s, 0);
    lemma_skip_ws_from_stops(s, 0);
    let a = s.skip(k);
    let j = skip_ws_back(a, a.len() as int);
    lemma_skip_ws_back_bounds(a, a.len() as int);
    lemma_skip_ws_back_stops(a, a.len() as int);
    let t = a.take(j);
    assert(trim_spec(s) == t);
    if t.len() > 0 {
        assert(t[0] == a[0]);
        assert(t[j - 1] == a[j - 1]);
    }
    assert(skip_ws_from(t, 0) == 0);
    assert(t.skip(0) =~= t);
    assert(skip_ws_back(t, t.len() as int) == t.len());
    assert(t.take(t.len() as int) =~= t);
}

/// Where the pattern occurs in a text, its replacement occurs in the result.
pub proof fn lemma_replace_shows_replacement(s: Seq<char>, p: Seq<char>, r: Seq<char>)
    requires
        p.len() > 0,
        contains_spec(s, p),
    ensures
        contains_spec(replace_spec(s, p, r), r),
    decreases s.len(),
{
    let i = choose|i: int| occurs_at(s, p, i);
    if starts_with_spec(s, p) {
        let out = replace_spec(s, p, r);
        assert(out.subrange(0, r.len() as int) =~= r);
        assert(occurs_at(out, r, 0));
    } else {
        if i == 0 {
            assert(s.take(p.len() as int) =~= s.subrange(0, p.len() as int));
        }
        assert(s.len() > 0);
        let t = s.drop_first();
        assert(t.subrange(i - 1, i - 1 + p.len()) =~= s.subrange(i, i + p.len()));
        assert(occurs_at(t, p, i - 1));
        lemma_replace_shows_replacement(t, p, r);
        let rest = replace_spec(t, p, r);
        let j = choose|j: int| occurs_at(rest, r, j);
        let out = replace_spec(s, p, r);
        assert(out == seq![s[0]] + rest);
        assert(out.subrange(j + 1, j + 1 + r.len()) =~= rest.subrange(j, j + r.len()));
        assert(occurs_at(out, r, j + 1));
    }
}

/// Where the pattern occurs, replacing it by a non-empty text gives a
/// longer result than replacing it by nothing.
pub proof fn lemma_replace_longer(s: Seq<char>, p: Seq<char>, r: Seq<char>)
    requires
        p.len() > 0,
        r.len() > 0,
        contains_spec(s, p),
    ensures
        replace_spec(s, p, r).len() > replace_spec(s, p, Seq::empty()).len(),
    decreases s.len(),
{
    lemma_replace_len_le(s, p, r);
    let i = choose|i: int| occurs_at(s, p, i);
    if starts_with_spec(s, p) {
        lemma_replace_len_le(s.skip(p.len() as int), p, r);
        assert(Seq::<char>::empty() + replace_spec(s.skip(p.len() as int), p, Seq::empty()) =~= replace_spec(
            s.skip(p.len() as int),
            p,
            Seq::empty(),
        ));
    } else {
        if i == 0 {
            assert(s.take(p.len() as int) =~= s.subrange(0, p.len() as int));
        }
        let t = s.drop_first();
        assert(t.subrange(i - 1, i - 1 + p.len()) =~= s.subrange(i, i + p.len()));
        assert(occurs_at(t, p, i - 1));
        lemma_replace_longer(t, p, r);
    }
}

/// Replacing by some text never gives a shorter result than replacing by
/// nothing.
pub proof fn lemma_replace_len_le(s: Seq<char>, p: Seq<char>, r: Seq<char>)
    requires
        p.len() > 0,
    ensures
        replace_spec(s, p, r).len() >= replace_spec(s, p, Seq::empty()).len(),
    decreases s.len(),
{
    if s.len() == 0 {
    } else if starts_with_spec(s, p) {
        lemma_replace_len_le(s.skip(p.len() as int), p, r);
    } else {
        lemma_replace_len_le(s.drop_first(), p, r);
    }
}

/// A text that neither starts nor ends with whitespace is its own trim.
pub proof fn lemma_trim_of_trimmed(s: Seq<char>)
    requires
        s.len() > 0,
        !is_ws(s[0]),
        !is_ws(s.last()),
    ensures
        trim_spec(s) == s,
{
    assert(skip_ws_from(s, 0) == 0);
    assert(s.skip(0) =~= s);
    assert(skip_ws_back(s, s.len() as int) == s.len());
    assert(s.take(s.len() as int) =~= s);
}

/// A text without the separator is one field.
pub proof fn lemma_split_no_sep(s: Seq<char>, c: char)
    requires
        forall|i: int| 0 <= i < s.len() ==> s[i] != c,
    ensures
        split_spec(s, c) == seq![s],
    decreases s.len(),
{
    if s.len() > 0 {
        lemma_split_no_sep(s.drop_last(), c);
        assert(s.drop_last().push(s.last()) =~= s);
        assert(seq![s.drop_last()].update(0, s.drop_last().push(s.last())) =~= seq![s]);
    } else {
        assert(s =~= Seq::<char>::empty());
    }
}

/// Splitting at a separator: the fields before it, then the fields after it.
pub proof fn lemma_split_concat(p: Seq<char>, q: Seq<char>, c: char)
    ensures
        split_spec(p.push(c) + q, c) == split_spec(p, c) + split_spec(q, c),
    decreases q.len(),
{
    let s = p.push(c) + q;
    if q.len() == 0 {
        assert(s =~= p.push(c));
        assert(s.drop_last() =~= p);
        assert(split_spec(q, c) =~= seq![Seq::<char>::empty()]);
        assert(split_spec(p, c).push(Seq::<char>::empty()) =~= split_spec(p, c) + split_spec(q, c));
    } else {
        lemma_split_concat(p, q.drop_last(), c);
        lemma_split_nonempty(q.drop_last(), c);
        assert(s.drop_last() =~= p.push(c) + q.drop_last());
        assert(s.last() == q.last());
        let a = split_spec(p, c);
        let b = split_spec(q.drop_last(), c);
        if q.last() == c {
            assert((a + b).push(Seq::<char>::empty()) =~= a + b.push(Seq::<char>::empty()));
        } else {
            assert((a + b).update((a + b).len() - 1, (a + b).last().push(q.last())) =~= a + b.update(
                b.len() - 1,
                b.last().push(q.last()),
            ));
        }
    }
}

/// No field of a split holds the separator.
pub proof fn lemma_split_fields_no_sep(s: Seq<char>, c: char)
    ensures
        forall|k: int, i: int|
            0 <= k < split_spec(s, c).len() && 0 <= i < split_spec(s, c)[k].len() ==> #[trigger] split_spec(
                s,
                c,
            )[k][i] != c,
    decreases s.len(),
{
    lemma_split_nonempty(s, c);
    if s.len() > 0 {
        lemma_split_fields_no_sep(s.drop_last(), c);
        lemma_split_nonempty(s.drop_last(), c);
        let prev = split_spec(s.drop_last(), c);
        let cur = split_spec(s, c);
        assert forall|k: int, i: int| 0 <= k < cur.len() && 0 <= i < cur[k].len() implies #[trigger] cur[k][i]
            != c by {
            if s.last() == c {
                if k < prev.len() {
                    assert(cur[k] == prev[k]);
                }
            } else {
                if k < prev.len() - 1 {
                    assert(cur[k] == prev[k]);
                } else {
                    assert(cur[k] == prev.last().push(s.last()));
                    if i < prev.last().len() {
                        assert(cur[k][i] == prev[prev.len() - 1][i]);
                    }
                }
            }
        }
    }
}

/// Splitting `x + y`: the complete fields of `x`, then the split of its last
/// field continued by `y`.
pub proof fn lemma_split_append(x: Seq<char>, y: Seq<char>, c: char)
    ensures
        split_spec(x + y, c) == split_spec(x, c).drop_last() + split_spec(split_spec(x, c).last() + y, c),
    decreases y.len(),
{
    lemma_split_nonempty(x, c);
    let d = split_spec(x, c).drop_last();
    let l = split_spec(x, c).last();
    if y.len() == 0 {
        assert(x + y =~= x);
        assert(l + y =~= l);
        lemma_split_fields_no_sep(x, c);
        assert forall|i: int| 0 <= i < l.len() implies l[i] != c by {
            assert(split_spec(x, c)[split_spec(x, c).len() - 1][i] != c);
        }
        lemma_split_no_sep(l, c);
        assert(split_spec(x, c) =~= d + seq![l]);
    } else {
        let y0 = y.drop_last();
        lemma_split_append(x, y0, c);
        lemma_split_nonempty(l + y0, c);
        assert((x + y).drop_last() =~= x + y0);
        assert((x + y).last() == y.last());
        assert((l + y).drop_last() =~= l + y0);
        assert((l + y).last() == y.last());
        let t = split_spec(l + y0, c);
        if y.last() == c {
            assert((d + t).push(Seq::<char>::empty()) =~= d + t.push(Seq::<char>::empty()));
        } else {
            assert((d + t).update((d + t).len() - 1, (d + t).last().push(y.last())) =~= d + t.update(
                t.len() - 1,
                t.last().push(y.last()),
            ));
        }
    }
}

/// Views of a vector of strings.
pub open spec fn views(v: Seq<String>) -> Seq<Seq<char>> {
    v.map_values(|x: String| x@)
}

/// The fields of `s` separated by `c` (`str::split(c)`, collected).
pub fn split_char(s: &str, c: char) -> (r: Vec<String>)
    ensures
        views(r@) == split_spec(s@, c),
{
    let v = chars_of(s);
    let mut fields: Vec<String> = Vec::new();
    let mut start: usize = 0;
    let mut i: usize = 0;
    assert(v@.take(0) =~= Seq::<char>::empty());
    while i < v.len()
        invariant
            v@ == s@,
            start <= i <= v@.len(),
            split_spec(v@.take(i as int), c) == views(fields@).push(v@.subrange(start as int, i as int)),
        decreases v@.len() - i,
    {
        let ghost prev = split_spec(v@.take(i as int), c);
        assert(v@.take(i + 1).drop_last() =~= v@.take(i as int));
        assert(v@.take(i + 1).last() == v@[i as int]);
        if v[i] == c {
            let f = string_from_range(v.as_slice(), start, i);
            fields.push(f);
            proof {
                assert(views(fields@) =~= prev);
                assert(v@.subrange(i + 1, i + 1) =~= Seq::<char>::empty());
            }
            start = i + 1;
        } else {
            proof {
                assert(v@.subrange(start as int, i + 1) =~= v@.subrange(start as int, i as int).push(v@[i as int]));
                assert(prev.update(prev.len() - 1, prev.last().push(v@[i as int])) =~= views(fields@).push(
                    v@.subrange(start as int, i + 1),
                ));
            }
        }
        i += 1;
    }
    let f = string_from_range(v.as_slice(), start, v.len());
    fields.push(f);
    proof {
        assert(v@.take(v@.len() as int) =~= v@);
        assert(views(fields@) =~= split_spec(s@, c));
    }
    fields
}

/// `x` without one trailing `'\r'`, if it has one.
pub open spec fn strip_cr(x: Seq<char>) -> Seq<char> {
    if x.len() > 0 && x.last() == '\r' {
        x.drop_last()
    } else {
        x
    }
}

/// The lines of `s` (what `str::lines` yields): the fields between `'\n'`s,
/// each that a `'\n'` ends without one trailing `'\r'`, and the last field
/// left out when it is empty.
pub open spec fn lines_spec(s: Seq<char>) -> Seq<Seq<char>> {
    let parts = split_spec(s, '\n');
    let ended = parts.drop_last().map_values(|x: Seq<char>| strip_cr(x));
    if parts.last().len() == 0 {
        ended
    } else {
        ended.push(parts.last())
    }
}

/// The lines of `s` (`str::lines`, collected).
pub fn lines(s: &str) -> (r: Vec<String>)
    ensures
        views(r@) == lines_spec(s@),
{
    let parts = split_char(s, '\n');
    proof {
        lemma_split_nonempty(s@, '\n');
    }
    let n = parts.len();
    let mut out: Vec<String> = Vec::new();
    let mut i: usize = 0;
    while i + 1 < n
        invariant
            n == parts@.len(),
            n >= 1,
            views(parts@) == split_spec(s@, '\n'),
            i <= n - 1,
            views(out@) == split_spec(s@, '\n').take(i as int).map_values(|x: Seq<char>| strip_cr(x)),
        decreases n - i,
    {
        let pv = chars_of(parts[i].as_str());
        let l = if pv.len() > 0 && pv[pv.len() - 1] == '\r' {
            string_from_range(pv.as_slice(), 0, pv.len() - 1)
        } else {
            string_from_range(pv.as_slice(), 0, pv.len())
        };
        proof {
            assert(views(parts@)[i as int] == parts@[i as int]@);
            assert(pv@.subrange(0, pv@.len() as int) =~= pv@);
            if pv@.len() > 0 {
                assert(pv@.subrange(0, pv@.len() - 1) =~= pv@.drop_last());
            }
            assert(l@ == strip_cr(split_spec(s@, '\n')[i as int]));
        }
        let ghost old_out = views(out@);
        out.push(l);
        proof {
            let sp = split_spec(s@, '\n');
            assert(views(out@) =~= old_out.push(l@));
            assert(sp.take(i + 1).map_values(|x: Seq<char>| strip_cr(x)) =~= sp.take(i as int).map_values(
                |x: Seq<char>| strip_cr(x),
            ).push(strip_cr(sp[i as int])));
        }
        i += 1;
    }
    proof {
        let sp = split_spec(s@, '\n');
        assert(sp.take(n - 1) =~= sp.drop_last());
        assert(views(parts@)[n - 1] == parts@[n - 1]@);
    }
    if parts[n - 1].as_str().is_empty() {
        out
    } else {
        let last = parts[n - 1].clone();
        out.push(last);
        proof {
            let sp = split_spec(s@, '\n');
            assert(views(out@) =~= sp.drop_last().map_values(|x: Seq<char>| strip_cr(x)).push(sp.last()));
        }
        out
    }
}

// ---------------------------------------------------------------------------
// Case mapping
// ---------------------------------------------------------------------------

/// What `str::to_uppercase` returns: the Unicode upper case of each character.
pub uninterp spec fn uppercase(s: Seq<char>) -> Seq<char>;

/// ASCII upper case of one character.
pub open spec fn ascii_upper(c: char) -> char {
    if 'a' <= c && c <= 'z' {
        ((c as u32) - 32) as char
    } else {
        c
    }
}

/// `str::to_uppercase`: the Unicode upper case of `s`. Its result is named
/// by `uppercase`; for ASCII text, as its documentation and the Unicode
/// tables give, it maps `a`..`z` to `A`..`Z` and keeps every other character.
#[verifier::external_body]
pub(crate) fn to_uppercase(s: &str) -> (r: String)
    ensures
        r@ == uppercase(s@),
        vstd::utf8::is_ascii_chars(s@) ==> r@ == s@.map_values(|c: char| ascii_upper(c)),
{
    s.to_uppercase()
}

// ---------------------------------------------------------------------------
// Debug text
// ---------------------------------------------------------------------------

/// What `format!("{:?}", s)` writes for a string: it quoted, with the
/// characters that `str::escape_debug` escapes escaped.
pub uninterp spec fn debug_quoted(s: Seq<char>) -> Seq<char>;

/// Whether `{:?}` writes `c` as it stands: a printable ASCII character other
/// than a quote or a backslash.
pub open spec fn debug_plain_char(c: char) -> bool {
    &&& ' ' <= c <= '~'
    &&& c != '"'
    &&& c != '\\'
    &&& c != '\''
}

/// `<str as Debug>::fmt`, through `format!("{:?}", s)`; its result is named
/// by `debug_quoted`. As the documentation of `char::escape_debug` gives, a
/// text of printable ASCII characters without quotes or backslashes is
/// written as it stands, between double quotes.
#[verifier::external_body]
pub(crate) fn debug_str(s: &str) -> (r: String)
    ensures
        r@ == debug_quoted(s@),
        (forall|i: int| 0 <= i < s@.len() ==> debug_plain_char(#[trigger] s@[i])) ==> r@ == seq!['"']
            + s@ + seq!['"'],
{
    format!("{:?}", s)
}

/// The view of an optional string.
pub open spec fn opt_view(o: Option<String>) -> Option<Seq<char>> {
    match o {
        Some(s) => Some(s@),
        None => None,
    }
}

/// What `{:?}` writes for an optional string.
pub open spec fn debug_option(name: Option<Seq<char>>) -> Seq<char> {
    match name {
        Some(n) => "Some("@ + debug_quoted(n) + ")"@,
        None => "None"@,
    }
}

} // verus!
