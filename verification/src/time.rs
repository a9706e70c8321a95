//! Wall-clock times as seconds past midnight.
//!
//! A time is written as plain seconds (`"52200"`), as `HH:MM:SS` or as
//! `HH:MM`. Hours of 24 and more are kept as they are: they stand for the
//! following day. What cannot be read is `None`, never an error.

use crate::text::{
    all_digits, decimal2, decimal_value, digit_value, is_digit, lemma_decimal2_round_trip,
    u64_to_decimal2,
};
use vstd::prelude::*;
use vstd::string::*;

verus! {

/// What a string denotes as an unsigned 32-bit number: an optional `+`, then
/// at least one decimal digit, the value not above `u32::MAX`.
pub open spec fn spec_parse_u32(s: Seq<char>) -> Option<u32> {
    let d = if s.len() > 0 && s[0] == '+' {
        s.subrange(1, s.len() as int)
    } else {
        s
    };
    if d.len() > 0 && all_digits(d) && decimal_value(d) <= u32::MAX {
        Some(decimal_value(d) as u32)
    } else {
        None
    }
}

/// The index of the first `:` at or after `from`, or the length of `s`.
pub open spec fn first_colon(s: Seq<char>, from: int) -> int
    decreases s.len() - from,
{
    if from < 0 || from >= s.len() {
        s.len() as int
    } else if s[from] == ':' {
        from
    } else {
        first_colon(s, from + 1)
    }
}

/// Hours, minutes and seconds as seconds past midnight, where all three were
/// read and the sum fits 32 bits.
pub open spec fn spec_hms(h: Option<u32>, m: Option<u32>, s: Option<u32>) -> Option<u32> {
    match (h, m, s) {
        (Some(h), Some(m), Some(s)) => if h * 3600 + m * 60 + s <= u32::MAX {
            Some((h * 3600 + m * 60 + s) as u32)
        } else {
            None
        },
        _ => None,
    }
}

/// The seconds past midnight that a time string denotes: what it denotes as
/// a plain number, else as hours, minutes and seconds between colons, else
/// as hours and minutes.
#[verifier::opaque]
pub open spec fn spec_parse_time(s: Seq<char>) -> Option<u32> {
    let n = s.len() as int;
    let c1 = first_colon(s, 0);
    let c2 = first_colon(s, c1 + 1);
    let c3 = first_colon(s, c2 + 1);
    if spec_parse_u32(s).is_some() {
        spec_parse_u32(s)
    } else if c1 >= n {
        None
    } else if c2 >= n {
        spec_hms(
            spec_parse_u32(s.subrange(0, c1)),
            spec_parse_u32(s.subrange(c1 + 1, n)),
            Some(0u32),
        )
    } else if c3 >= n {
        spec_hms(
            spec_parse_u32(s.subrange(0, c1)),
            spec_parse_u32(s.subrange(c1 + 1, c2)),
            spec_parse_u32(s.subrange(c2 + 1, n)),
        )
    } else {
        None
    }
}

/// `HH:MM:SS` for a number of seconds; the hours take as many digits as they need.
pub open spec fn spec_time_string(seconds: u32) -> Seq<char> {
    decimal2((seconds / 3600) as nat) + seq![':'] + decimal2(((seconds % 3600) / 60) as nat)
        + seq![':'] + decimal2((seconds % 60) as nat)
}

/// The end minus the start, where both are known and the end is not earlier.
pub open spec fn spec_duration(start: Option<u32>, end: Option<u32>) -> Option<u32> {
    match (start, end) {
        (Some(s), Some(e)) => if e >= s {
            Some((e - s) as u32)
        } else {
            None
        },
        _ => None,
    }
}

proof fn lemma_first_colon_bounds(s: Seq<char>, from: int)
    requires
        0 <= from,
    ensures
        from <= first_colon(s, from) || first_colon(s, from) == s.len(),
        first_colon(s, from) <= s.len(),
        first_colon(s, from) < s.len() ==> s[first_colon(s, from)] == ':',
        forall|j: int| from <= j < first_colon(s, from) ==> s[j] != ':',
    decreases s.len() - from,
{
    if from < s.len() && s[from] != ':' {
        lemma_first_colon_bounds(s, from + 1);
    }
}

proof fn lemma_first_colon_is(s: Seq<char>, from: int, k: int)
    requires
        0 <= from <= k <= s.len(),
        k < s.len() ==> s[k] == ':',
        forall|j: int| from <= j < k ==> s[j] != ':',
    ensures
        first_colon(s, from) == k,
    decreases k - from,
{
    if from < k {
        lemma_first_colon_is(s, from + 1, k);
    }
}

proof fn lemma_decimal_value_prefix(s: Seq<char>, k: int)
    requires
        0 <= k <= s.len(),
    ensures
        decimal_value(s.subrange(0, k)) <= decimal_value(s),
    decreases s.len() - k,
{
    if k < s.len() {
        let t = s.subrange(0, k + 1);
        assert(t.drop_last() =~= s.subrange(0, k));
        lemma_decimal_value_prefix(s, k + 1);
    } else {
        assert(s.subrange(0, k) =~= s);
    }
}

/// A string with a character that is neither a digit nor a leading `+`
/// denotes no number.
proof fn lemma_unparsable(s: Seq<char>, k: int)
    requires
        0 <= k < s.len(),
        !is_digit(s[k]),
        s[k] != '+',
    ensures
        spec_parse_u32(s).is_none(),
{
    if s[0] == '+' {
        let d = s.subrange(1, s.len() as int);
        assert(d[k - 1] == s[k]);
    }
}

/// A string with a character outside ASCII denotes no time.
proof fn lemma_non_ascii_unparsable(s: Seq<char>, k: int)
    requires
        0 <= k < s.len(),
        !('\0' <= s[k] <= '\u{7f}'),
    ensures
        spec_parse_time(s).is_none(),
{
    reveal(spec_parse_time);
    let n = s.len() as int;
    let c1 = first_colon(s, 0);
    lemma_first_colon_bounds(s, 0);
    lemma_unparsable(s, k);
    if c1 < n {
        let c2 = first_colon(s, c1 + 1);
        lemma_first_colon_bounds(s, c1 + 1);
        if k < c1 {
            lemma_unparsable(s.subrange(0, c1), k);
        } else if c2 >= n {
            lemma_unparsable(s.subrange(c1 + 1, n), k - c1 - 1);
        } else {
            lemma_first_colon_bounds(s, c2 + 1);
            if k < c2 {
                lemma_unparsable(s.subrange(c1 + 1, c2), k - c1 - 1);
            } else {
                lemma_unparsable(s.subrange(c2 + 1, n), k - c2 - 1);
            }
        }
    }
}

/// The number that the digits `d` denote, where they are digits, at least
/// one, and the number fits 32 bits.
pub open spec fn spec_digits_u32(d: Seq<char>) -> Option<u32> {
    if d.len() > 0 && all_digits(d) && decimal_value(d) <= u32::MAX {
        Some(decimal_value(d) as u32)
    } else {
        None
    }
}

/// Reads the characters `from..to` of an ASCII string as a number.
fn parse_u32_range(s: &str, from: usize, to: usize) -> (r: Option<u32>)
    requires
        s.is_ascii(),
        from <= to <= s@.len(),
    ensures
        r == spec_parse_u32(s@.subrange(from as int, to as int)),
{
    let ghost whole = s@.subrange(from as int, to as int);
    let mut i: usize = from;
    if from < to && s.get_ascii(from) == 43u8 {
        i = from + 1;
    }
    let start: usize = i;
    let ghost d = s@.subrange(start as int, to as int);
    proof {
        if from < to {
            assert(whole[0] == s@[from as int]);
        }
        if start > from {
            assert(d =~= whole.subrange(1, whole.len() as int));
        } else {
            assert(d =~= whole);
        }
    }
    assert(spec_parse_u32(whole) == spec_digits_u32(d));
    if start == to {
        return None;
    }
    let mut acc: u32 = 0;
    while i < to
        invariant
            s.is_ascii(),
            from <= start <= i <= to <= s@.len(),
            start < to,
            whole == s@.subrange(from as int, to as int),
            d == s@.subrange(start as int, to as int),
            spec_parse_u32(whole) == spec_digits_u32(d),
            all_digits(d.subrange(0, i - start)),
            acc == decimal_value(d.subrange(0, i - start)),
        decreases to - i,
    {
        let b = s.get_ascii(i);
        let ghost c = s@[i as int];
        proof {
            assert(d[i - start] == c);
            assert('\0' <= c <= '\u{7f}');
        }
        if b < 48u8 || b > 57u8 {
            proof {
                assert(!is_digit(d[i - start]));
            }
            return None;
        }
        let digit: u32 = (b - 48u8) as u32;
        let ghost next = d.subrange(0, i - start + 1);
        proof {
            assert(is_digit(c));
            assert(digit == digit_value(c));
            assert(next.drop_last() =~= d.subrange(0, i - start));
            assert(next.last() == c);
            assert forall|j: int| 0 <= j < next.len() implies is_digit(#[trigger] next[j]) by {
                if j < i - start {
                    assert(next[j] == d.subrange(0, i - start)[j]);
                }
            }
            lemma_decimal_value_prefix(d, i - start + 1);
        }
        if acc > 429496729u32 || (acc == 429496729u32 && digit > 5) {
            return None;
        }
        acc = acc * 10 + digit;
        i = i + 1;
    }
    proof {
        assert(d.subrange(0, i - start) =~= d);
    }
    Some(acc)
}

/// The index of the first `:` in `from..`, or the length of the string.
fn find_colon(s: &str, from: usize, n: usize) -> (r: usize)
    requires
        s.is_ascii(),
        n == s@.len(),
    ensures
        r == first_colon(s@, from as int),
        r <= n,
        from <= n ==> from <= r,
{
    if from >= n {
        return n;
    }
    let mut i: usize = from;
    while i < n
        invariant
            s.is_ascii(),
            n == s@.len(),
            from <= i <= n,
            forall|j: int| from <= j < i ==> s@[j] != ':',
        decreases n - i,
    {
        let b = s.get_ascii(i);
        if b == 58u8 {
            proof {
                assert('\0' <= s@[i as int] <= '\u{7f}');
                lemma_first_colon_is(s@, from as int, i as int);
            }
            return i;
        }
        proof {
            assert(s@[i as int] != ':');
        }
        i = i + 1;
    }
    proof {
        lemma_first_colon_is(s@, from as int, n as int);
    }
    n
}

/// Hours, minutes and seconds as seconds past midnight.
fn combine_hms(h: Option<u32>, m: Option<u32>, s: Option<u32>) -> (r: Option<u32>)
    ensures
        r == spec_hms(h, m, s),
{
    match (h, m, s) {
        (Some(h), Some(m), Some(s)) => {
            let total: u64 = (h as u64) * 3600 + (m as u64) * 60 + (s as u64);
            if total <= 0xffff_ffffu64 {
                Some(total as u32)
            } else {
                None
            }
        },
        _ => None,
    }
}

/// A character outside ASCII, in a string that is not ASCII.
proof fn lemma_non_ascii_witness(s: Seq<char>) -> (k: int)
    requires
        !vstd::utf8::is_ascii_chars(s),
    ensures
        0 <= k < s.len(),
        !('\0' <= s[k] <= '\u{7f}'),
{
    choose|i: int| 0 <= i < s.len() && !('\0' <= #[trigger] s[i] <= '\u{7f}')
}

/// Reads a time string as seconds past midnight.
///
/// Plain seconds are tried first, then `HH:MM:SS` and `HH:MM`. The result
/// is `None` for any other string and where the sum does not fit 32 bits.
pub fn parse_time_to_seconds(time: &str) -> (r: Option<u32>)
    ensures
        r == spec_parse_time(time@),
{
    reveal(spec_parse_time);
    if !time.is_ascii() {
        proof {
            let k = lemma_non_ascii_witness(time@);
            lemma_non_ascii_unparsable(time@, k);
        }
        return None;
    }
    let n = time.unicode_len();
    proof {
        assert(time@.subrange(0, n as int) =~= time@);
    }
    let whole = parse_u32_range(time, 0, n);
    if whole.is_some() {
        return whole;
    }
    let c1 = find_colon(time, 0, n);
    if c1 >= n {
        return None;
    }
    let c2 = find_colon(time, c1 + 1, n);
    if c2 >= n {
        let h = parse_u32_range(time, 0, c1);
        let m = parse_u32_range(time, c1 + 1, n);
        return combine_hms(h, m, Some(0));
    }
    let c3 = find_colon(time, c2 + 1, n);
    if c3 >= n {
        let h = parse_u32_range(time, 0, c1);
        let m = parse_u32_range(time, c1 + 1, c2);
        let s = parse_u32_range(time, c2 + 1, n);
        return combine_hms(h, m, s);
    }
    None
}

/// Reads an optional time string; an absent one denotes no time.
pub fn parse_opt_time(time: &Option<String>) -> (r: Option<u32>)
    ensures
        r == spec_parse_opt_time(*time),
{
    match time {
        Some(t) => parse_time_to_seconds(t.as_str()),
        None => None,
    }
}

/// The seconds past midnight of an optional time string.
pub open spec fn spec_parse_opt_time(time: Option<String>) -> Option<u32> {
    match time {
        Some(t) => spec_parse_time(t@),
        None => None,
    }
}

/// The end minus the start, where both are known and the end is not earlier.
pub fn duration_between(start: Option<u32>, end: Option<u32>) -> (r: Option<u32>)
    ensures
        r == spec_duration(start, end),
{
    match (start, end) {
        (Some(s), Some(e)) => if e >= s {
            Some(e - s)
        } else {
            None
        },
        _ => None,
    }
}

/// Writes seconds past midnight as `HH:MM:SS`.
pub fn seconds_to_time_string(seconds: u32) -> (r: String)
    ensures
        r@ == spec_time_string(seconds),
{
    let hours = seconds / 3600;
    let minutes = (seconds % 3600) / 60;
    let secs = seconds % 60;
    let mut r = u64_to_decimal2(hours as u64);
    proof {
        reveal_strlit(":");
    }
    r.append(":");
    r.append(u64_to_decimal2(minutes as u64).as_str());
    r.append(":");
    r.append(u64_to_decimal2(secs as u64).as_str());
    assert(":"@ =~= seq![':']);
    r
}

/// A two-digit (or longer) decimal number denotes itself when read back.
proof fn lemma_parse_decimal2(x: nat)
    requires
        x <= u32::MAX,
    ensures
        spec_parse_u32(decimal2(x)) == Some(x as u32),
        forall|j: int| 0 <= j < decimal2(x).len() ==> decimal2(x)[j] != ':',
{
    lemma_decimal2_round_trip(x);
    let s = decimal2(x);
    assert(is_digit(s[0]));
    assert forall|j: int| 0 <= j < s.len() implies s[j] != ':' by {
        assert(is_digit(s[j]));
    }
}

/// Writing a number of seconds and reading the text back gives the same
/// number, also from 24 hours on.
pub proof fn lemma_format_then_parse(seconds: u32)
    ensures
        spec_parse_time(spec_time_string(seconds)) == Some(seconds),
{
    reveal(spec_parse_time);
    let h = (seconds / 3600) as nat;
    let m = ((seconds % 3600) / 60) as nat;
    let sec = (seconds % 60) as nat;
    let hs = decimal2(h);
    let ms = decimal2(m);
    let ss = decimal2(sec);
    let f = spec_time_string(seconds);
    let n = f.len() as int;
    lemma_parse_decimal2(h);
    lemma_parse_decimal2(m);
    lemma_parse_decimal2(sec);
    lemma_decimal2_round_trip(h);
    lemma_decimal2_round_trip(m);
    lemma_decimal2_round_trip(sec);
    let c1 = hs.len() as int;
    let c2 = c1 + 1 + ms.len();
    assert(n == c2 + 1 + ss.len());
    assert(f[c1] == ':');
    assert(f[c2] == ':');
    assert forall|j: int| 0 <= j < c1 implies f[j] != ':' by {
        assert(f[j] == hs[j]);
    }
    assert forall|j: int| c1 + 1 <= j < c2 implies f[j] != ':' by {
        assert(f[j] == ms[j - c1 - 1]);
    }
    assert forall|j: int| c2 + 1 <= j < n implies f[j] != ':' by {
        assert(f[j] == ss[j - c2 - 1]);
    }
    lemma_first_colon_is(f, 0, c1);
    lemma_first_colon_is(f, c1 + 1, c2);
    lemma_first_colon_is(f, c2 + 1, n);
    lemma_unparsable(f, c1);
    assert(f.subrange(0, c1) =~= hs);
    assert(f.subrange(c1 + 1, c2) =~= ms);
    assert(f.subrange(c2 + 1, n) =~= ss);
    assert(h * 3600 + m * 60 + sec == seconds);
}

/// For every string that denotes a time, writing that time and reading the
/// text back gives the same number of seconds.
pub proof fn lemma_time_round_trip(s: Seq<char>)
    requires
        spec_parse_time(s).is_some(),
    ensures
        spec_parse_time(spec_time_string(spec_parse_time(s).unwrap())) == spec_parse_time(s),
{
    lemma_format_then_parse(spec_parse_time(s).unwrap());
}

/// Reads a string as an unsigned 32-bit number.
pub fn parse_u32_text(s: &str) -> (r: Option<u32>)
    ensures
        r == spec_parse_u32(s@),
{
    if !s.is_ascii() {
        proof {
            let k = lemma_non_ascii_witness(s@);
            lemma_unparsable(s@, k);
        }
        return None;
    }
    let n = s.unicode_len();
    proof {
        assert(s@.subrange(0, n as int) =~= s@);
    }
    parse_u32_range(s, 0, n)
}

/// The index of the first `:` at or after `from`, or the length of the
/// string, for any string.
pub fn find_colon_from(s: &str, from: usize) -> (r: usize)
    ensures
        r == first_colon(s@, from as int),
        r <= s@.len(),
        from <= s@.len() ==> from <= r,
{
    let n = s.unicode_len();
    if from >= n {
        return n;
    }
    let mut i: usize = from;
    while i < n
        invariant
            n == s@.len(),
            from <= i <= n,
            forall|j: int| from <= j < i ==> s@[j] != ':',
        decreases n - i,
    {
        if s.get_char(i) == ':' {
            proof {
                lemma_first_colon_is(s@, from as int, i as int);
            }
            return i;
        }
        i = i + 1;
    }
    proof {
        lemma_first_colon_is(s@, from as int, n as int);
    }
    n
}

} // verus!
