//! Path-segment handling for the resource routes: finding the final
//! `/`-delimited segment of a request path and parsing it as a decimal
//! integer id.
use vstd::prelude::*;

verus! {

use vstd::string::*;

/// Index of the last `/` in `s`, or `-1` when `s` has none.
pub open spec fn last_slash(s: Seq<char>) -> int
    decreases s.len(),
{
    if s.len() == 0 {
        -1
    } else if s[s.len() - 1] == '/' {
        s.len() - 1
    } else {
        last_slash(s.drop_last())
    }
}

/// Everything after the last `/` of `s`; the whole of `s` when it has no `/`.
pub open spec fn trailing_segment(s: Seq<char>) -> Seq<char> {
    s.subrange(last_slash(s) + 1, s.len() as int)
}

pub proof fn lemma_last_slash(s: Seq<char>)
    ensures
        -1 <= last_slash(s) < s.len(),
        last_slash(s) >= 0 ==> s[last_slash(s)] == '/',
        forall|k: int| last_slash(s) < k < s.len() ==> s[k] != '/',
    decreases s.len(),
{
    if s.len() == 0 {
    } else if s[s.len() - 1] == '/' {
    } else {
        lemma_last_slash(s.drop_last());
        assert forall|k: int| last_slash(s) < k < s.len() implies s[k] != '/' by {
            if k < s.len() - 1 {
                assert(s.drop_last()[k] == s[k]);
            }
        }
    }
}

pub proof fn lemma_last_slash_at(s: Seq<char>, i: int)
    requires
        0 <= i < s.len(),
        s[i] == '/',
        forall|k: int| i < k < s.len() ==> s[k] != '/',
    ensures
        last_slash(s) == i,
    decreases s.len(),
{
    if i < s.len() - 1 {
        assert(s[s.len() - 1] != '/');
        assert(s.drop_last()[i] == s[i]);
        assert forall|k: int| i < k < s.drop_last().len() implies s.drop_last()[k] != '/' by {
            assert(s.drop_last()[k] == s[k]);
        }
        lemma_last_slash_at(s.drop_last(), i);
    }
}

pub proof fn lemma_last_slash_none(s: Seq<char>)
    requires
        forall|k: int| 0 <= k < s.len() ==> s[k] != '/',
    ensures
        last_slash(s) == -1,
    decreases s.len(),
{
    if s.len() > 0 {
        assert forall|k: int| 0 <= k < s.drop_last().len() implies s.drop_last()[k] != '/' by {
            assert(s.drop_last()[k] == s[k]);
        }
        lemma_last_slash_none(s.drop_last());
    }
}

/// Index of the last `/` of `s`, or `None` when `s` has none.
pub fn find_last_slash(s: &str) -> (r: Option<usize>)
    ensures
        match r {
            Some(i) => last_slash(s@) == i as int,
            None => last_slash(s@) == -1,
        },
{
    let n = s.unicode_len();
    let mut j = n;
    while 0 < j
        invariant
            j <= n,
            n == s@.len(),
            forall|k: int| j <= k < s@.len() ==> s@[k] != '/',
        decreases j,
    {
        let c = s.get_char(j - 1);
        if c == '/' {
            proof {
                lemma_last_slash_at(s@, j - 1);
            }
            return Some(j - 1);
        }
        j = j - 1;
    }
    proof {
        lemma_last_slash_none(s@);
    }
    None
}

/// The final `/`-delimited segment of `s` (the whole of `s` when it has no
/// `/`).
pub fn trailing_segment_of(s: &str) -> (seg: &str)
    ensures
        seg@ == trailing_segment(s@),
{
    let n = s.unicode_len();
    match find_last_slash(s) {
        Some(i) => {
            proof {
                lemma_last_slash(s@);
            }
            s.substring_char(i + 1, n)
        },
        None => {
            proof {
                assert(trailing_segment(s@) =~= s@);
            }
            s
        },
    }
}

/// Whether the first `p@.len()` characters of `s` are exactly `p`.
pub fn prefix_eq(s: &str, p: &str) -> (b: bool)
    requires
        p@.len() <= s@.len(),
    ensures
        b == (s@.take(p@.len() as int) == p@),
{
    let plen = p.unicode_len();
    let mut k: usize = 0;
    while k < plen
        invariant
            k <= plen,
            plen == p@.len(),
            p@.len() <= s@.len(),
            forall|t: int| 0 <= t < k ==> s@[t] == p@[t],
        decreases plen - k,
    {
        if s.get_char(k) != p.get_char(k) {
            proof {
                assert(s@.take(plen as int)[k as int] == s@[k as int]);
            }
            return false;
        }
        k = k + 1;
    }
    proof {
        assert(s@.take(plen as int) =~= p@);
    }
    true
}

pub open spec fn is_digit_char(c: char) -> bool {
    48 <= c as int && c as int <= 57
}

pub open spec fn digit_val(c: char) -> int {
    c as int - 48
}

/// The value of a sequence of decimal digit characters, most significant
/// first.
pub open spec fn digits_value(s: Seq<char>) -> int
    decreases s.len(),
{
    if s.len() == 0 {
        0
    } else {
        digits_value(s.drop_last()) * 10 + digit_val(s.last())
    }
}

pub open spec fn all_digits(s: Seq<char>) -> bool {
    forall|i: int| 0 <= i < s.len() ==> is_digit_char(s[i])
}

/// The digit part of a decimal integer literal: everything after an optional
/// leading sign.
pub open spec fn id_digits(s: Seq<char>) -> Seq<char> {
    if s.len() > 0 && (s[0] == '-' || s[0] == '+') {
        s.drop_first()
    } else {
        s
    }
}

pub open spec fn id_negative(s: Seq<char>) -> bool {
    s.len() > 0 && s[0] == '-'
}

/// What parsing a trailing segment as an id yields: an optional sign followed
/// by at least one decimal digit, with the value within the 32-bit signed
/// range; anything else is rejected.
pub open spec fn spec_parse_id(s: Seq<char>) -> Option<int> {
    let digits = id_digits(s);
    if digits.len() == 0 || !all_digits(digits) {
        None
    } else {
        let v = if id_negative(s) {
            -digits_value(digits)
        } else {
            digits_value(digits)
        };
        if -0x8000_0000 <= v && v <= 0x7fff_ffff {
            Some(v)
        } else {
            None
        }
    }
}

/// The id carried by a request path: its trailing segment parsed as an
/// integer.
pub open spec fn path_id(path: Seq<char>) -> Option<int> {
    spec_parse_id(trailing_segment(path))
}

pub proof fn lemma_digits_value_nonneg(s: Seq<char>)
    requires
        all_digits(s),
    ensures
        digits_value(s) >= 0,
    decreases s.len(),
{
    if s.len() > 0 {
        assert forall|i: int| 0 <= i < s.drop_last().len() implies is_digit_char(s.drop_last()[i]) by {
            assert(s.drop_last()[i] == s[i]);
        }
        lemma_digits_value_nonneg(s.drop_last());
    }
}

pub proof fn lemma_digits_value_prefix(s: Seq<char>, k: int)
    requires
        all_digits(s),
        0 <= k <= s.len(),
    ensures
        digits_value(s) >= digits_value(s.take(k)),
    decreases s.len() - k,
{
    if k == s.len() {
        assert(s.take(k) =~= s);
    } else {
        lemma_digits_value_prefix(s, k + 1);
        assert(s.take(k + 1).drop_last() =~= s.take(k));
        assert(s.take(k + 1).last() == s[k]);
        assert forall|i: int| 0 <= i < s.take(k).len() implies is_digit_char(s.take(k)[i]) by {
            assert(s.take(k)[i] == s[i]);
        }
        lemma_digits_value_nonneg(s.take(k));
        assert(digits_value(s.take(k + 1)) == digits_value(s.take(k)) * 10 + digit_val(s[k]));
        assert(digits_value(s.take(k)) * 10 >= digits_value(s.take(k)));
    }
}

/// Parses a decimal integer in the 32-bit signed range; `None` on an empty
/// string, a stray character, or overflow.
pub fn parse_id(s: &str) -> (r: Option<i32>)
    ensures
        match r {
            Some(v) => spec_parse_id(s@) == Some(v as int),
            None => spec_parse_id(s@) is None,
        },
{
    let n = s.unicode_len();
    let mut start: usize = 0;
    let mut neg = false;
    if n > 0 {
        let c0 = s.get_char(0);
        if c0 == '-' {
            neg = true;
            start = 1;
        } else if c0 == '+' {
            start = 1;
        }
    }
    let ghost digits = id_digits(s@);
    proof {
        assert(digits =~= s@.subrange(start as int, n as int));
    }
    if start == n {
        return None;
    }
    let mut acc: u64 = 0;
    let mut j = start;
    while j < n
        invariant
            start <= j <= n,
            n == s@.len(),
            start <= 1,
            digits == id_digits(s@),
            digits =~= s@.subrange(start as int, n as int),
            neg == id_negative(s@),
            acc < 0x1_0000_0000u64,
            all_digits(s@.subrange(start as int, j as int)),
            acc as int == digits_value(s@.subrange(start as int, j as int)),
        decreases n - j,
    {
        let c = s.get_char(j);
        let u = c as u32;
        if u < 48 || u > 57 {
            proof {
                assert(digits[j - start] == s@[j as int]);
                assert(!is_digit_char(digits[j - start]));
            }
            return None;
        }
        let d = (u - 48) as u64;
        proof {
            assert(s@.subrange(start as int, j + 1).drop_last() =~= s@.subrange(
                start as int,
                j as int,
            ));
            assert(s@.subrange(start as int, j + 1).last() == s@[j as int]);
            assert forall|i: int|
                0 <= i < s@.subrange(start as int, j + 1).len() implies is_digit_char(
                #[trigger] s@.subrange(start as int, j + 1)[i],
            ) by {
                assert(s@.subrange(start as int, j + 1)[i] == s@[start + i]);
            }
        }
        let acc2 = acc * 10 + d;
        if acc2 >= 0x1_0000_0000u64 {
            proof {
                if all_digits(digits) {
                    assert(digits.take(j + 1 - start) =~= s@.subrange(start as int, j + 1));
                    lemma_digits_value_prefix(digits, j + 1 - start);
                    assert(digits_value(digits) >= acc2 as int);
                }
            }
            return None;
        }
        acc = acc2;
        j = j + 1;
    }
    proof {
        assert(digits =~= s@.subrange(start as int, j as int));
        assert(acc as int == digits_value(digits));
    }
    if neg {
        if acc > 0x8000_0000u64 {
            return None;
        }
        let v = -(acc as i64);
        proof {
            assert(-0x8000_0000 <= v as int <= 0);
        }
        Some(v as i32)
    } else {
        if acc > 0x7fff_ffffu64 {
            return None;
        }
        Some(acc as i32)
    }
}

/// The trailing segment of `path` parsed as an id.
pub fn path_id_of(path: &String) -> (r: Option<i32>)
    ensures
        match r {
            Some(v) => path_id(path@) == Some(v as int),
            None => path_id(path@) is None,
        },
{
    let seg = trailing_segment_of(path.as_str());
    parse_id(seg)
}

} // verus!
