//! Parsing the retention-period literal of the configuration file: a
//! signed whole number followed by one unit suffix (`Y`, `M`, `w`, `d`,
//! `h` or `H`, `m`, `s`), giving a duration in seconds.
//!
//! A year counts as 365 days and a month as 30. A literal whose number or
//! whose resulting seconds leave the range of `i64` is rejected.

use vstd::prelude::*;

verus! {

/// The value of a decimal digit character.
pub open spec fn digit_val(c: char) -> Option<int> {
    if c == '0' {
        Some(0)
    } else if c == '1' {
        Some(1)
    } else if c == '2' {
        Some(2)
    } else if c == '3' {
        Some(3)
    } else if c == '4' {
        Some(4)
    } else if c == '5' {
        Some(5)
    } else if c == '6' {
        Some(6)
    } else if c == '7' {
        Some(7)
    } else if c == '8' {
        Some(8)
    } else if c == '9' {
        Some(9)
    } else {
        None
    }
}

pub open spec fn all_digits(s: Seq<char>) -> bool {
    forall|i: int| 0 <= i < s.len() ==> (#[trigger] digit_val(s[i])) is Some
}

/// The number a run of decimal digits denotes.
pub open spec fn digits_val(s: Seq<char>) -> int
    decreases s.len(),
{
    if s.len() == 0 {
        0
    } else {
        digits_val(s.drop_last()) * 10 + digit_val(s.last())->Some_0
    }
}

/// The integer a string denotes: an optional leading minus sign, then one
/// or more decimal digits.
pub open spec fn spec_parse_int(s: Seq<char>) -> Option<int> {
    if s.len() > 0 && s[0] == '-' {
        if s.len() > 1 && all_digits(s.skip(1)) {
            Some(-digits_val(s.skip(1)))
        } else {
            None
        }
    } else if s.len() > 0 && all_digits(s) {
        Some(digits_val(s))
    } else {
        None
    }
}

/// Seconds in one unit, by suffix character.
pub open spec fn unit_seconds(c: char) -> Option<int> {
    if c == 'Y' {
        Some(31536000)
    } else if c == 'M' {
        Some(2592000)
    } else if c == 'w' {
        Some(604800)
    } else if c == 'd' {
        Some(86400)
    } else if c == 'h' || c == 'H' {
        Some(3600)
    } else if c == 'm' {
        Some(60)
    } else if c == 's' {
        Some(1)
    } else {
        None
    }
}

/// What a retention-period literal denotes: the number before the final
/// suffix character, times that unit's seconds — provided the number and
/// the product both fit an `i64`.
pub open spec fn spec_parse_retention_period(s: Seq<char>) -> Option<int> {
    if s.len() == 0 {
        None
    } else {
        match (spec_parse_int(s.drop_last()), unit_seconds(s.last())) {
            (Some(v), Some(u)) => {
                if i64::MIN <= v && v <= i64::MAX && i64::MIN <= v * u && v * u <= i64::MAX {
                    Some(v * u)
                } else {
                    None
                }
            },
            _ => None,
        }
    }
}

proof fn lemma_digit_val_bounds(c: char)
    ensures
        digit_val(c) matches Some(d) ==> 0 <= d <= 9,
{
}

proof fn lemma_all_digits_drop_last(s: Seq<char>)
    requires
        s.len() > 0,
        all_digits(s),
    ensures
        all_digits(s.drop_last()),
{
    assert forall|i: int| 0 <= i < s.drop_last().len() implies (#[trigger] digit_val(
        s.drop_last()[i],
    )) is Some by {
        assert(s.drop_last()[i] == s[i]);
    }
}

proof fn lemma_digits_val_nonneg(s: Seq<char>)
    requires
        all_digits(s),
    ensures
        digits_val(s) >= 0,
    decreases s.len(),
{
    if s.len() > 0 {
        lemma_all_digits_drop_last(s);
        lemma_digits_val_nonneg(s.drop_last());
        lemma_digit_val_bounds(s.last());
        assert(digit_val(s.last()) is Some);
    }
}

/// A digit run denotes at least as much as any of its prefixes.
proof fn lemma_digits_val_prefix(s: Seq<char>, k: int)
    requires
        all_digits(s),
        0 <= k <= s.len(),
    ensures
        digits_val(s.take(k)) <= digits_val(s),
    decreases s.len(),
{
    if k == s.len() {
        assert(s.take(k) =~= s);
    } else {
        lemma_all_digits_drop_last(s);
        assert(s.drop_last().take(k) =~= s.take(k));
        lemma_digits_val_prefix(s.drop_last(), k);
        lemma_digits_val_nonneg(s.drop_last());
        lemma_digit_val_bounds(s.last());
        assert(digit_val(s.last()) is Some);
    }
}

/// The shape of [`spec_parse_int`] on a string split into an optional
/// sign and its digit run.
proof fn lemma_parse_int_shape(full: Seq<char>, neg: bool, digits: Seq<char>)
    requires
        neg ==> full.len() > 1 && full[0] == '-' && digits =~= full.skip(1),
        !neg ==> full.len() > 0 && full[0] != '-' && digits =~= full,
        digits.len() > 0,
    ensures
        spec_parse_int(full) == (if all_digits(digits) {
            if neg {
                Some(-digits_val(digits))
            } else {
                Some(digits_val(digits))
            }
        } else {
            None::<int>
        }),
{
    if neg {
        assert(full.skip(1) == digits);
    } else {
        assert(full == digits);
    }
}

/// A literal whose digit run fails somewhere denotes nothing.
proof fn lemma_reject_nondigit(s: Seq<char>, start: int, jj: int, neg: bool)
    requires
        s.len() >= 2,
        start == if neg { 1int } else { 0int },
        neg ==> s[0] == '-' && s.len() >= 3,
        !neg ==> s[0] != '-',
        start <= jj < s.len() - 1,
        digit_val(s[jj]) is None,
    ensures
        spec_parse_retention_period(s) is None,
{
    let m = s.len() - 1;
    let digits = s.subrange(start, m);
    if neg {
        assert(s.drop_last().skip(1) =~= digits);
    } else {
        assert(s.drop_last() =~= digits);
    }
    lemma_parse_int_shape(s.drop_last(), neg, digits);
    assert(digit_val(digits[jj - start]) is None);
    assert(!all_digits(digits));
}

/// A literal whose digit run already exceeds the representable range in a
/// prefix denotes nothing.
proof fn lemma_reject_overflow(s: Seq<char>, start: int, jj: int, neg: bool, v1: int)
    requires
        s.len() >= 2,
        start == if neg { 1int } else { 0int },
        neg ==> s[0] == '-' && s.len() >= 3,
        !neg ==> s[0] != '-',
        start < jj <= s.len() - 1,
        all_digits(s.subrange(start, jj)),
        v1 == digits_val(s.subrange(start, jj)),
        !neg ==> v1 > i64::MAX,
        neg ==> -v1 < i64::MIN,
    ensures
        spec_parse_retention_period(s) is None,
{
    let m = s.len() - 1;
    let digits = s.subrange(start, m);
    if neg {
        assert(s.drop_last().skip(1) =~= digits);
    } else {
        assert(s.drop_last() =~= digits);
    }
    lemma_parse_int_shape(s.drop_last(), neg, digits);
    if all_digits(digits) {
        assert(digits.take(jj - start) =~= s.subrange(start, jj));
        lemma_digits_val_prefix(digits, jj - start);
    }
}

fn digit_of(c: char) -> (r: Option<u8>)
    ensures
        match r {
            Some(d) => digit_val(c) == Some(d as int) && d <= 9,
            None => digit_val(c) is None,
        },
{
    if c == '0' {
        Some(0)
    } else if c == '1' {
        Some(1)
    } else if c == '2' {
        Some(2)
    } else if c == '3' {
        Some(3)
    } else if c == '4' {
        Some(4)
    } else if c == '5' {
        Some(5)
    } else if c == '6' {
        Some(6)
    } else if c == '7' {
        Some(7)
    } else if c == '8' {
        Some(8)
    } else if c == '9' {
        Some(9)
    } else {
        None
    }
}

fn unit_of(c: char) -> (r: Option<i64>)
    ensures
        match r {
            Some(u) => unit_seconds(c) == Some(u as int),
            None => unit_seconds(c) is None,
        },
{
    if c == 'Y' {
        Some(31536000)
    } else if c == 'M' {
        Some(2592000)
    } else if c == 'w' {
        Some(604800)
    } else if c == 'd' {
        Some(86400)
    } else if c == 'h' || c == 'H' {
        Some(3600)
    } else if c == 'm' {
        Some(60)
    } else if c == 's' {
        Some(1)
    } else {
        None
    }
}

/// Parses a retention-period literal to seconds, exactly as
/// [`spec_parse_retention_period`] says.
pub fn parse_retention_period(s: &str) -> (r: Option<i64>)
    ensures
        match r {
            Some(x) => spec_parse_retention_period(s@) == Some(x as int),
            None => spec_parse_retention_period(s@) is None,
        },
{
    let n = s.unicode_len();
    if n == 0 {
        return None;
    }
    let unit = match unit_of(s.get_char(n - 1)) {
        None => {
            proof {
                assert(s@.last() == s@[n as int - 1]);
            }
            return None;
        },
        Some(u) => u,
    };
    proof {
        assert(s@.last() == s@[n as int - 1]);
    }
    let m = n - 1;
    if m == 0 {
        proof {
            assert(s@.drop_last().len() == 0);
            assert(spec_parse_int(s@.drop_last()) is None);
        }
        return None;
    }
    let neg = s.get_char(0) == '-';
    let start: usize = if neg {
        1
    } else {
        0
    };
    if neg && m == 1 {
        proof {
            assert(s@.drop_last().len() == 1);
            assert(s@.drop_last()[0] == '-');
            assert(spec_parse_int(s@.drop_last()) is None);
        }
        return None;
    }
    let mut acc: i64 = 0;
    let mut j: usize = start;
    proof {
        assert(s@.subrange(start as int, start as int) =~= Seq::<char>::empty());
    }
    while j < m
        invariant
            n == s@.len(),
            m == n - 1,
            1 <= m < n,
            start <= j <= m,
            neg ==> start == 1 && s@[0] == '-' && m >= 2,
            !neg ==> start == 0 && s@[0] != '-',
            all_digits(s@.subrange(start as int, j as int)),
            neg ==> acc <= 0 && acc as int == -digits_val(s@.subrange(start as int, j as int)),
            !neg ==> acc >= 0 && acc as int == digits_val(s@.subrange(start as int, j as int)),
        decreases m - j,
    {
        let c = s.get_char(j);
        let d = match digit_of(c) {
            None => {
                proof {
                    lemma_reject_nondigit(s@, start as int, j as int, neg);
                }
                return None;
            },
            Some(d) => d,
        };
        let ghost pre = s@.subrange(start as int, j as int);
        let ghost v1 = digits_val(pre) * 10 + d as int;
        proof {
            let pre1 = s@.subrange(start as int, j as int + 1);
            assert(pre1.drop_last() =~= pre);
            assert(pre1.last() == s@[j as int]);
            assert forall|k: int| 0 <= k < pre1.len() implies (#[trigger] digit_val(
                pre1[k],
            )) is Some by {
                if k < pre1.len() - 1 {
                    assert(pre1[k] == pre[k]);
                } else {
                    assert(pre1[k] == s@[j as int]);
                }
            }
            assert(digits_val(pre1) == v1);
            if neg {
                lemma_digits_val_nonneg(pre);
            } else {
                lemma_digits_val_nonneg(pre);
            }
        }
        let a1 = match acc.checked_mul(10) {
            None => {
                proof {
                    lemma_reject_overflow(s@, start as int, j as int + 1, neg, v1);
                }
                return None;
            },
            Some(a) => a,
        };
        let a2 = if neg {
            match a1.checked_sub(d as i64) {
                None => {
                    proof {
                        lemma_reject_overflow(s@, start as int, j as int + 1, neg, v1);
                    }
                    return None;
                },
                Some(a) => a,
            }
        } else {
            match a1.checked_add(d as i64) {
                None => {
                    proof {
                        lemma_reject_overflow(s@, start as int, j as int + 1, neg, v1);
                    }
                    return None;
                },
                Some(a) => a,
            }
        };
        acc = a2;
        j = j + 1;
    }
    let ghost digits = s@.subrange(start as int, m as int);
    proof {
        if neg {
            assert(s@.drop_last().skip(1) =~= digits);
        } else {
            assert(s@.drop_last() =~= digits);
        }
        lemma_parse_int_shape(s@.drop_last(), neg, digits);
    }
    match acc.checked_mul(unit) {
        None => {
            return None;
        },
        Some(total) => Some(total),
    }
}

} // verus!
