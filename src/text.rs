//! Reading the plain-text output of the disk probes: blanks, decimal numbers
//! and megabyte fields such as `123M`.
use vstd::prelude::*;

verus! {

pub open spec fn is_digit(c: char) -> bool {
    '0' <= c && c <= '9'
}

pub open spec fn is_blank(c: char) -> bool {
    c == ' ' || c == '\t'
}

pub open spec fn digit_value(c: char) -> int {
    (c as u32) as int - ('0' as u32) as int
}

pub open spec fn all_digits(s: Seq<char>) -> bool {
    forall|i: int| 0 <= i < s.len() ==> is_digit(#[trigger] s[i])
}

/// The number that a run of decimal digits writes.
pub open spec fn decimal_value(s: Seq<char>) -> int
    decreases s.len(),
{
    if s.len() == 0 {
        0
    } else {
        10 * decimal_value(s.drop_last()) + digit_value(s.last())
    }
}

/// The first index at or after `i` that does not hold a blank.
pub open spec fn skip_blanks(s: Seq<char>, i: int) -> int
    decreases s.len() - i,
{
    if 0 <= i < s.len() && is_blank(s[i]) {
        skip_blanks(s, i + 1)
    } else {
        i
    }
}

/// The first index at or after `i` that does not hold a digit.
pub open spec fn skip_digits(s: Seq<char>, i: int) -> int
    decreases s.len() - i,
{
    if 0 <= i < s.len() && is_digit(s[i]) {
        skip_digits(s, i + 1)
    } else {
        i
    }
}

/// A megabyte field at `i`: one or more digits and then `M`.  Gives the
/// number and the index just after the `M`.
pub open spec fn mb_field(s: Seq<char>, i: int) -> Option<(int, int)> {
    let e = skip_digits(s, i);
    if i < e && e < s.len() && s[e] == 'M' {
        Some((decimal_value(s.subrange(i, e)), e + 1))
    } else {
        None
    }
}

proof fn lemma_skip_digits(s: Seq<char>, i: int)
    requires
        0 <= i <= s.len(),
    ensures
        i <= skip_digits(s, i) <= s.len(),
        all_digits(s.subrange(i, skip_digits(s, i))),
    decreases s.len() - i,
{
    if i < s.len() && is_digit(s[i]) {
        lemma_skip_digits(s, i + 1);
        let e = skip_digits(s, i);
        assert forall|k: int| 0 <= k < e - i implies is_digit(#[trigger] s.subrange(i, e)[k]) by {
            if k > 0 {
                assert(s.subrange(i, e)[k] == s.subrange(i + 1, e)[k - 1]);
            }
        }
    }
}

proof fn lemma_decimal_nonneg(s: Seq<char>)
    requires
        all_digits(s),
    ensures
        decimal_value(s) >= 0,
    decreases s.len(),
{
    if s.len() > 0 {
        assert(all_digits(s.drop_last())) by {
            assert forall|i: int| 0 <= i < s.len() - 1 implies is_digit(#[trigger] s.drop_last()[i]) by {
                assert(s.drop_last()[i] == s[i]);
            }
        }
        lemma_decimal_nonneg(s.drop_last());
        assert(is_digit(s[s.len() - 1]));
    }
}

/// A longer run of digits writes a number at least as large.
proof fn lemma_decimal_monotone(s: Seq<char>, k: int)
    requires
        all_digits(s),
        0 <= k <= s.len(),
    ensures
        decimal_value(s.subrange(0, k)) <= decimal_value(s),
    decreases s.len(),
{
    if k < s.len() {
        let t = s.drop_last();
        assert(all_digits(t)) by {
            assert forall|i: int| 0 <= i < t.len() implies is_digit(#[trigger] t[i]) by {
                assert(t[i] == s[i]);
            }
        }
        lemma_decimal_monotone(t, k);
        assert(t.subrange(0, k) == s.subrange(0, k));
        lemma_decimal_nonneg(t);
        assert(is_digit(s[s.len() - 1]));
    } else {
        assert(s.subrange(0, k) == s);
    }
}

fn blank_char(c: char) -> (r: bool)
    ensures
        r == is_blank(c),
{
    c == ' ' || c == '\t'
}

fn digit_char(c: char) -> (r: bool)
    ensures
        r == is_digit(c),
{
    '0' <= c && c <= '9'
}

pub fn skip_blanks_from(s: &str, n: usize, i: usize) -> (r: usize)
    requires
        n == s@.len(),
        i <= n,
    ensures
        r as int == skip_blanks(s@, i as int),
        i <= r <= n,
{
    let mut j: usize = i;
    while j < n && blank_char(s.get_char(j))
        invariant
            n == s@.len(),
            i <= j <= n,
            skip_blanks(s@, i as int) == skip_blanks(s@, j as int),
        decreases n - j,
    {
        j = j + 1;
    }
    j
}

pub fn skip_digits_from(s: &str, n: usize, i: usize) -> (r: usize)
    requires
        n == s@.len(),
        i <= n,
    ensures
        r as int == skip_digits(s@, i as int),
        i <= r <= n,
{
    let mut j: usize = i;
    while j < n && digit_char(s.get_char(j))
        invariant
            n == s@.len(),
            i <= j <= n,
            skip_digits(s@, i as int) == skip_digits(s@, j as int),
        decreases n - j,
    {
        j = j + 1;
    }
    j
}

/// The number that the digits `s[from..to]` write, where it fits in a `u32`.
pub fn decimal_u32(s: &str, from: usize, to: usize) -> (r: Option<u32>)
    requires
        from <= to <= s@.len(),
        all_digits(s@.subrange(from as int, to as int)),
    ensures
        decimal_value(s@.subrange(from as int, to as int)) <= u32::MAX ==> r == Some(
            decimal_value(s@.subrange(from as int, to as int)) as u32,
        ),
        decimal_value(s@.subrange(from as int, to as int)) > u32::MAX ==> r is None,
{
    let ghost full = s@.subrange(from as int, to as int);
    let mut acc: u64 = 0;
    let mut k: usize = from;
    while k < to
        invariant
            from <= k <= to <= s@.len(),
            full == s@.subrange(from as int, to as int),
            all_digits(full),
            acc as int == decimal_value(full.subrange(0, k - from)),
            acc <= u32::MAX,
        decreases to - k,
    {
        let c = s.get_char(k);
        proof {
            assert(full[k - from] == c);
            assert(full.subrange(0, k - from + 1).drop_last() == full.subrange(0, k - from));
        }
        let d = (c as u32 - '0' as u32) as u64;
        acc = acc * 10 + d;
        k = k + 1;
        if acc > u32::MAX as u64 {
            proof {
                lemma_decimal_monotone(full, k - from);
            }
            return None;
        }
    }
    assert(full.subrange(0, to - from) == full);
    Some(acc as u32)
}

/// Reads a megabyte field at `i`; `None` where there is none or its number
/// does not fit in a `u32`.
pub fn mb_field_at(s: &str, n: usize, i: usize) -> (r: Option<(u32, usize)>)
    requires
        n == s@.len(),
        i <= n,
    ensures
        match mb_field(s@, i as int) {
            Some((v, next)) => if v <= u32::MAX {
                r == Some((v as u32, next as usize)) && next <= n
            } else {
                r is None
            },
            None => r is None,
        },
{
    let e = skip_digits_from(s, n, i);
    proof {
        lemma_skip_digits(s@, i as int);
    }
    if i < e && e < n && s.get_char(e) == 'M' {
        match decimal_u32(s, i, e) {
            Some(v) => Some((v, e + 1)),
            None => None,
        }
    } else {
        None
    }
}

} // verus!
