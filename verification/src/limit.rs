//! The `--limit` value: a positive decimal count.

use vstd::prelude::*;
use crate::text::chars_of;

verus! {

/// Whether `c` is an ASCII decimal digit.
pub open spec fn is_digit(c: char) -> bool {
    '0' <= c && c <= '9'
}

/// The value of an ASCII decimal digit.
pub open spec fn digit_value(c: char) -> nat {
    (c as int - '0' as int) as nat
}

/// The value of a sequence of decimal digits, most significant first.
pub open spec fn digits_value(s: Seq<char>) -> nat
    decreases s.len(),
{
    if s.len() == 0 {
        0
    } else {
        digits_value(s.drop_last()) * 10 + digit_value(s.last())
    }
}

/// Whether every character of `s` is a decimal digit.
pub open spec fn all_digits(s: Seq<char>) -> bool {
    forall|i: int| 0 <= i < s.len() ==> is_digit(#[trigger] s[i])
}

/// The digits of an unsigned decimal literal: an optional leading '+' is dropped.
pub open spec fn unsigned_digits(s: Seq<char>) -> Seq<char> {
    if s.len() > 0 && s[0] == '+' {
        s.drop_first()
    } else {
        s
    }
}

/// What `str::parse::<usize>` gives: an optional '+' followed by at least
/// one decimal digit, whose value fits in `usize`; `None` for anything else
/// (empty text, other characters, whitespace, a sign alone, overflow).
pub open spec fn usize_literal(s: Seq<char>) -> Option<usize> {
    let d = unsigned_digits(s);
    if d.len() > 0 && all_digits(d) && digits_value(d) <= usize::MAX {
        Some(digits_value(d) as usize)
    } else {
        None
    }
}

proof fn lemma_digits_value_prefix_monotone(s: Seq<char>, j: int, k: int)
    requires
        0 <= j <= k <= s.len(),
    ensures
        digits_value(s.take(j)) <= digits_value(s.take(k)),
    decreases k - j,
{
    if j < k {
        lemma_digits_value_prefix_monotone(s, j, k - 1);
        assert(s.take(k).drop_last() =~= s.take(k - 1));
    }
}

/// Parses an unsigned decimal count as `str::parse::<usize>` does.
pub fn parse_usize(s: &str) -> (res: Option<usize>)
    ensures
        res == usize_literal(s@),
{
    let chars = chars_of(s);
    let ghost d = unsigned_digits(s@);
    let start: usize = if chars.len() > 0 && chars[0] == '+' { 1 } else { 0 };
    assert(d =~= chars@.skip(start as int));
    if start == chars.len() {
        assert(d.len() == 0);
        return None;
    }
    let mut value: usize = 0;
    let mut i: usize = start;
    while i < chars.len()
        invariant
            chars@ == s@,
            d == unsigned_digits(s@),
            d == chars@.skip(start as int),
            start <= i <= chars.len(),
            start < chars.len(),
            all_digits(d.take(i - start)),
            value as nat == digits_value(d.take(i - start)),
        decreases chars.len() - i,
    {
        let c = chars[i];
        let ghost k = (i - start) as int;
        assert(d[k] == c);
        assert(d.take(k + 1).drop_last() =~= d.take(k));
        if !('0' <= c && c <= '9') {
            assert(!all_digits(d));
            return None;
        }
        let digit: usize = ((c as u32) - ('0' as u32)) as usize;
        assert(digit as nat == digit_value(c));
        assert(digits_value(d.take(k + 1)) == digits_value(d.take(k)) * 10 + digit_value(c));
        match value.checked_mul(10) {
            None => {
                proof {
                    if all_digits(d) {
                        lemma_digits_value_prefix_monotone(d, k + 1, d.len() as int);
                        assert(d.take(d.len() as int) =~= d);
                    }
                }
                return None;
            },
            Some(scaled) => match scaled.checked_add(digit) {
                None => {
                    proof {
                        if all_digits(d) {
                            lemma_digits_value_prefix_monotone(d, k + 1, d.len() as int);
                            assert(d.take(d.len() as int) =~= d);
                        }
                    }
                    return None;
                },
                Some(next) => {
                    value = next;
                },
            },
        }
        i = i + 1;
        assert(all_digits(d.take(k + 1)));
    }
    assert(d.take(d.len() as int) =~= d);
    Some(value)
}

/// The outcome of reading a `--limit` value: a positive count, or the message
/// for a value that is not a count or is zero.
pub open spec fn limit_value(value: Seq<char>) -> Result<usize, Seq<char>> {
    match usize_literal(value) {
        None => Err("invalid --limit value '"@ + value + "'"@),
        Some(n) => if n == 0 {
            Err("--limit must be greater than zero"@)
        } else {
            Ok(n)
        },
    }
}

/// The view of a result whose error is a message.
pub open spec fn message_result<T>(r: Result<T, String>) -> Result<T, Seq<char>> {
    match r {
        Ok(v) => Ok(v),
        Err(e) => Err(e@),
    }
}

/// Reads a `--limit` value: a positive decimal count.
pub fn parse_section_limit(value: &str) -> (res: Result<usize, String>)
    ensures
        message_result(res) == limit_value(value@),
        res matches Ok(n) ==> n > 0,
{
    match parse_usize(value) {
        None => {
            let mut message = String::from_str("invalid --limit value '");
            message.append(value);
            message.append("'");
            Err(message)
        },
        Some(limit) => {
            if limit == 0 {
                Err(String::from_str("--limit must be greater than zero"))
            } else {
                Ok(limit)
            }
        },
    }
}


/// What a limit leaves of a list that had `omitted` items dropped already:
/// with a limit below its length, the first `limit` items and the count of
/// the others; otherwise the list and the count as they were.
pub open spec fn limit_outcome<T>(items: Seq<T>, omitted: usize, limit: Option<usize>) -> (Seq<T>, usize) {
    match limit {
        Some(l) if items.len() > l => (items.take(l as int), (items.len() - l) as usize),
        _ => (items, omitted),
    }
}

/// Applying the same limit twice gives what applying it once gives.
pub proof fn law_limit_idempotent<T>(items: Seq<T>, omitted: usize, limit: Option<usize>)
    ensures
        ({
            let once = limit_outcome(items, omitted, limit);
            limit_outcome(once.0, once.1, limit) == once
        }),
{
}

/// On a full list, a limit keeps at most `limit` items, and the kept items
/// and the omitted count add up to the whole.
pub proof fn law_limit_accounts<T>(items: Seq<T>, limit: Option<usize>)
    requires
        items.len() <= usize::MAX,
    ensures
        ({
            let r = limit_outcome(items, 0, limit);
            &&& r.0.len() + r.1 == items.len()
            &&& (limit matches Some(l) ==> r.0.len() <= l)
            &&& r.0 == items.take(r.0.len() as int)
        }),
{
    assert(items.take(items.len() as int) =~= items);
}

} // verus!
