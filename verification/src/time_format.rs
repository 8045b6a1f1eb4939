//! The timestamps of log lines.

use vstd::prelude::*;
use crate::text::chars_of;
use crate::text::string_from_range;

verus! {

/// Index of the last `c` in `s`, if any.
pub open spec fn last_index_of(s: Seq<char>, c: char) -> Option<int>
    decreases s.len(),
{
    if s.len() == 0 {
        None
    } else if s.last() == c {
        Some(s.len() - 1)
    } else {
        last_index_of(s.drop_last(), c)
    }
}

/// Whether `c` takes one byte in UTF-8.
pub open spec fn is_one_byte(c: char) -> bool {
    (c as u32) < 0x80
}

/// Whether `c` takes two bytes in UTF-8.
pub open spec fn is_two_bytes(c: char) -> bool {
    0x80 <= (c as u32) && (c as u32) < 0x800
}

/// Whether the two bytes after the last `.` of `ts`, if there is one, are
/// whole characters (else slicing there would panic).
pub open spec fn has_two_decimals(ts: Seq<char>) -> bool {
    last_index_of(ts, '.') matches Some(k) ==> {
        &&& k + 1 < ts.len()
        &&& is_one_byte(ts[k + 1]) ==> k + 2 < ts.len() && is_one_byte(ts[k + 2])
        &&& !is_one_byte(ts[k + 1]) ==> is_two_bytes(ts[k + 1])
    }
}

/// `ts` with its fraction cut to two bytes: what precedes the last `.`, the
/// `.`, and the characters of the two bytes after it; `ts` unchanged where
/// it has no `.`.
pub open spec fn two_decimals_spec(ts: Seq<char>) -> Seq<char> {
    match last_index_of(ts, '.') {
        Some(k) => if is_one_byte(ts[k + 1]) {
            ts.take(k + 1) + ts.subrange(k + 1, k + 3)
        } else {
            ts.take(k + 1) + ts.subrange(k + 1, k + 2)
        },
        None => ts,
    }
}

proof fn lemma_last_index_bounds(s: Seq<char>, c: char)
    ensures
        last_index_of(s, c) matches Some(k) ==> 0 <= k < s.len() && s[k] == c,
    decreases s.len(),
{
    if s.len() > 0 && s.last() != c {
        lemma_last_index_bounds(s.drop_last(), c);
    }
}

/// A log timestamp with two decimals of seconds (`…09.123` becomes `…09.12`).
/// The cut is made by bytes, as the formatter slices the text.
pub fn two_decimals(ts: &str) -> (r: String)
    requires
        has_two_decimals(ts@),
    ensures
        r@ == two_decimals_spec(ts@),
{
    let v = chars_of(ts);
    let mut j: usize = v.len();
    assert(ts@.take(ts@.len() as int) =~= ts@);
    while j > 0 && v[j - 1] != '.'
        invariant
            v@ == ts@,
            j <= v@.len(),
            last_index_of(ts@, '.') == last_index_of(ts@.take(j as int), '.'),
        decreases j,
    {
        proof {
            assert(ts@.take(j as int).drop_last() =~= ts@.take(j - 1));
        }
        j -= 1;
    }
    if j == 0 {
        proof {
            assert(ts@.take(0) =~= Seq::<char>::empty());
        }
        return ts.to_owned();
    }
    proof {
        assert(ts@.take(j as int).last() == '.');
        lemma_last_index_bounds(ts@, '.');
    }
    let k = j - 1;
    let mut r = string_from_range(v.as_slice(), 0, k + 1);
    let end = if (v[k + 1] as u32) < 0x80 {
        k + 3
    } else {
        k + 2
    };
    let tail = string_from_range(v.as_slice(), k + 1, end);
    r.append(tail.as_str());
    proof {
        assert(v@.subrange(0, k + 1) =~= ts@.take(k + 1));
    }
    r
}

} // verus!
