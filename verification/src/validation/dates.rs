//! Dates in resumes: the year and month found in a date text, and whether
//! one date lies before another.

use vstd::prelude::*;

use crate::text::chars_of;
use crate::validation::patterns::{regex_captures, DATE_PATTERN};

verus! {

/// The value of an ASCII digit character.
pub open spec fn digit_value(c: char) -> int {
    c as int - '0' as int
}

/// Whether `c` is an ASCII digit.
pub open spec fn is_ascii_digit(c: char) -> bool {
    '0' <= c && c <= '9'
}

/// Whether every character of `s` is an ASCII digit.
pub open spec fn all_ascii_digits(s: Seq<char>) -> bool {
    forall|i: int| 0 <= i < s.len() ==> is_ascii_digit(#[trigger] s[i])
}

/// The number the decimal digits `s` spell.
pub open spec fn decimal_value(s: Seq<char>) -> int
    decreases s.len(),
{
    if s.len() == 0 {
        0
    } else {
        decimal_value(s.drop_last()) * 10 + digit_value(s.last())
    }
}

/// What `u32::from_str` gives for `s`: an optional `+`, then one or more
/// ASCII digits whose value fits in a `u32`; `None` for anything else.
pub open spec fn parse_u32(s: Seq<char>) -> Option<u32> {
    let digits = if s.len() > 0 && s[0] == '+' {
        s.drop_first()
    } else {
        s
    };
    if digits.len() > 0 && all_ascii_digits(digits) && decimal_value(digits) <= u32::MAX {
        Some(decimal_value(digits) as u32)
    } else {
        None
    }
}

proof fn lemma_decimal_value_nonneg(s: Seq<char>)
    requires
        all_ascii_digits(s),
    ensures
        decimal_value(s) >= 0,
    decreases s.len(),
{
    if s.len() > 0 {
        assert(all_ascii_digits(s.drop_last())) by {
            assert forall|i: int| 0 <= i < s.drop_last().len() implies is_ascii_digit(
                #[trigger] s.drop_last()[i],
            ) by {
                assert(s.drop_last()[i] == s[i]);
            }
        }
        lemma_decimal_value_nonneg(s.drop_last());
        assert(is_ascii_digit(s[s.len() - 1]));
    }
}

proof fn lemma_decimal_value_grows(s: Seq<char>, k: int)
    requires
        all_ascii_digits(s),
        0 <= k <= s.len(),
    ensures
        decimal_value(s.take(k)) <= decimal_value(s),
    decreases s.len() - k,
{
    if k < s.len() {
        lemma_decimal_value_grows(s, k + 1);
        let t = s.take(k + 1);
        assert(t.drop_last() =~= s.take(k));
        assert(all_ascii_digits(s.take(k))) by {
            assert forall|i: int| 0 <= i < s.take(k).len() implies is_ascii_digit(
                #[trigger] s.take(k)[i],
            ) by {
                assert(s.take(k)[i] == s[i]);
            }
        }
        lemma_decimal_value_nonneg(s.take(k));
        assert(is_ascii_digit(s[k]));
    } else {
        assert(s.take(k) =~= s);
    }
}

/// Parses a decimal `u32` the way `u32::from_str` does.
pub fn parse_u32_text(s: &str) -> (r: Option<u32>)
    ensures
        r == parse_u32(s@),
{
    let cs = chars_of(s);
    let mut start: usize = 0;
    if cs.len() > 0 && cs[0] == '+' {
        start = 1;
    }
    let ghost digits = if s@.len() > 0 && s@[0] == '+' {
        s@.drop_first()
    } else {
        s@
    };
    assert(digits =~= cs@.subrange(start as int, cs.len() as int));
    if start >= cs.len() {
        return None;
    }
    let mut value: u32 = 0;
    let mut i: usize = start;
    while i < cs.len()
        invariant
            cs@ == s@,
            start <= i <= cs.len(),
            digits == cs@.subrange(start as int, cs.len() as int),
            digits == if s@.len() > 0 && s@[0] == '+' {
                s@.drop_first()
            } else {
                s@
            },
            start < cs.len(),
            all_ascii_digits(digits.take(i - start)),
            decimal_value(digits.take(i - start)) == value,
        decreases cs.len() - i,
    {
        let c = cs[i];
        let ghost k = i - start;
        assert(digits.take(k + 1).drop_last() =~= digits.take(k));
        assert(digits.take(k + 1).last() == c);
        if c < '0' || c > '9' {
            assert(!all_ascii_digits(digits)) by {
                assert(digits[k] == c);
            }
            return None;
        }
        let d = (c as u32) - ('0' as u32);
        assert(all_ascii_digits(digits.take(k + 1))) by {
            assert forall|m: int| 0 <= m < k + 1 implies is_ascii_digit(
                #[trigger] digits.take(k + 1)[m],
            ) by {
                if m < k {
                    assert(digits.take(k + 1)[m] == digits.take(k)[m]);
                }
            }
        }
        match value.checked_mul(10) {
            Some(v10) => match v10.checked_add(d) {
                Some(v) => {
                    value = v;
                },
                None => {
                    proof {
                        if all_ascii_digits(digits) {
                            lemma_decimal_value_grows(digits, k + 1);
                        }
                    }
                    return None;
                },
            },
            None => {
                proof {
                    lemma_decimal_value_nonneg(digits.take(k + 1));
                    if all_ascii_digits(digits) {
                        lemma_decimal_value_grows(digits, k + 1);
                    }
                }
                return None;
            },
        }
        i = i + 1;
    }
    assert(digits.take(cs.len() - start) =~= digits);
    Some(value)
}

/// A date's year, and its month where the date has one.
pub type DateValue = (u32, Option<u32>);

/// The capture group `i` of a match, `None` where the group did not take part
/// or does not exist (as `regex::Captures::get` answers).
pub open spec fn group(groups: Seq<Option<Seq<char>>>, i: int) -> Option<Seq<char>> {
    if 0 <= i < groups.len() {
        groups[i]
    } else {
        None
    }
}

/// The date value that a match of `DATE_PATTERN` gives: year and month from
/// groups 1 and 2 where both took part, else the year from group 3; `None`
/// where there is no match or a number does not parse.
pub open spec fn date_value_of(caps: Option<Seq<Option<Seq<char>>>>) -> Option<DateValue> {
    match caps {
        None => None,
        Some(groups) => if group(groups, 1) is Some && group(groups, 2) is Some {
            match (parse_u32(group(groups, 1)->0), parse_u32(group(groups, 2)->0)) {
                (Some(y), Some(m)) => Some((y, Some(m))),
                _ => None,
            }
        } else {
            match group(groups, 3) {
                Some(g) => match parse_u32(g) {
                    Some(y) => Some((y, None)),
                    None => None,
                },
                None => None,
            }
        },
    }
}

/// The date value of a date text.
pub open spec fn date_value(s: Seq<char>) -> Option<DateValue> {
    date_value_of(regex_captures(DATE_PATTERN@, s))
}

/// Whether `end` lies strictly before `start`: month by month where both
/// have a month, else year by year; never where either is missing.
pub open spec fn date_after(start: Option<DateValue>, end: Option<DateValue>) -> bool {
    match (start, end) {
        (Some((sy, Some(sm))), Some((ey, Some(em)))) => ey * 100 + em < sy * 100 + sm,
        (Some((sy, _)), Some((ey, _))) => ey < sy,
        _ => false,
    }
}

fn capture_group(groups: &Vec<Option<String>>, i: usize) -> (r: Option<&String>)
    ensures
        r matches Some(g) ==> group(groups.deep_view(), i as int) == Some(g@),
        r is None ==> group(groups.deep_view(), i as int) is None,
{
    if i < groups.len() {
        match &groups[i] {
            Some(g) => Some(g),
            None => None,
        }
    } else {
        None
    }
}

/// The date value that the captures of a `DATE_PATTERN` match give.
pub fn date_value_from_captures(caps: &Option<Vec<Option<String>>>) -> (r: Option<DateValue>)
    ensures
        r == date_value_of(caps.deep_view()),
{
    match caps {
        None => None,
        Some(groups) => {
            let g1 = capture_group(groups, 1);
            let g2 = capture_group(groups, 2);
            if g1.is_some() && g2.is_some() {
                let y = parse_u32_text(g1.unwrap().as_str());
                let m = parse_u32_text(g2.unwrap().as_str());
                match (y, m) {
                    (Some(y), Some(m)) => Some((y, Some(m))),
                    _ => None,
                }
            } else {
                match capture_group(groups, 3) {
                    Some(g) => match parse_u32_text(g.as_str()) {
                        Some(y) => Some((y, None)),
                        None => None,
                    },
                    None => None,
                }
            }
        },
    }
}

/// Compares two date values: whether `end` lies strictly before `start`.
pub fn compare_date_values(start: Option<DateValue>, end: Option<DateValue>) -> (r: bool)
    ensures
        r == date_after(start, end),
{
    match (start, end) {
        (Some((sy, Some(sm))), Some((ey, Some(em)))) => {
            let start_val = sy as u64 * 100 + sm as u64;
            let end_val = ey as u64 * 100 + em as u64;
            end_val < start_val
        },
        (Some((sy, _)), Some((ey, _))) => ey < sy,
        _ => false,
    }
}

/// No date lies before itself.
pub proof fn date_never_after_itself(d: Option<DateValue>)
    ensures
        !date_after(d, d),
{
}

/// Date ordering is asymmetric: if `end` lies before `start`, then `start`
/// does not lie before `end`.
pub proof fn date_order_is_asymmetric(a: Option<DateValue>, b: Option<DateValue>)
    requires
        date_after(a, b),
    ensures
        !date_after(b, a),
{
}

/// The date check on text, as `is_date_after` states it, is irreflexive and
/// asymmetric for all inputs: no date string lies before itself, and of two
/// date strings at most one lies before the other.
pub proof fn text_date_order_is_strict(start: Seq<char>, end: Seq<char>)
    ensures
        !date_after(date_value(start), date_value(start)),
        date_after(date_value(start), date_value(end)) ==> !date_after(
            date_value(end),
            date_value(start),
        ),
{
    date_never_after_itself(date_value(start));
    if date_after(date_value(start), date_value(end)) {
        date_order_is_asymmetric(date_value(start), date_value(end));
    }
}

} // verus!
