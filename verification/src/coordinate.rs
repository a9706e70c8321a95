//! Coordinates as whole numbers, in units of 1e-7 degree, and as text in degrees.

use crate::text::{all_digits, decimal_value, digit_value, is_digit};
use vstd::prelude::*;
use vstd::string::*;

verus! {

/// The index of the first `.` at or after `from`, or the length of `s`.
pub open spec fn first_dot(s: Seq<char>, from: int) -> int
    decreases s.len() - from,
{
    if from < 0 || from >= s.len() {
        s.len() as int
    } else if s[from] == '.' {
        from
    } else {
        first_dot(s, from + 1)
    }
}

/// The value of the digit at `i`, and 0 behind the end.
pub open spec fn digit_or_zero(digits: Seq<char>, i: int) -> nat {
    if 0 <= i < digits.len() {
        digit_value(digits[i])
    } else {
        0
    }
}

/// `acc` with the first `k` digits of `digits` behind it, taking zeros
/// where the digits run out.
pub open spec fn extend(acc: nat, digits: Seq<char>, k: nat) -> nat
    decreases k,
{
    if k == 0 {
        acc
    } else {
        extend(acc, digits, (k - 1) as nat) * 10 + digit_or_zero(digits, k - 1)
    }
}

/// The part of a coordinate behind its sign.
pub open spec fn unsigned_part(s: Seq<char>) -> Seq<char> {
    if s.len() > 0 && (s[0] == '-' || s[0] == '+') {
        s.subrange(1, s.len() as int)
    } else {
        s
    }
}

/// The digits in front of the decimal point.
pub open spec fn whole_part(body: Seq<char>) -> Seq<char> {
    body.subrange(0, first_dot(body, 0))
}

/// The digits behind the decimal point.
pub open spec fn fraction_part(body: Seq<char>) -> Seq<char> {
    if first_dot(body, 0) < body.len() {
        body.subrange(first_dot(body, 0) + 1, body.len() as int)
    } else {
        Seq::empty()
    }
}

/// The coordinate that a text in degrees denotes, in units of 1e-7 degree.
///
/// The text is a sign or none, digits, and a decimal point with digits or
/// none; there must be a digit. Decimal places behind the seventh are
/// dropped. A value that does not fit 32 bits denotes nothing.
pub open spec fn spec_parse_coordinate(s: Seq<char>) -> Option<i32> {
    let body = unsigned_part(s);
    let whole = whole_part(body);
    let fraction = fraction_part(body);
    if all_digits(whole) && all_digits(fraction) && whole.len() + fraction.len() > 0 {
        let scaled = extend(decimal_value(whole), fraction, 7);
        let value: int = if s[0] == '-' {
            -scaled
        } else {
            scaled as int
        };
        if -2147483648 <= value <= 2147483647 {
            Some(value as i32)
        } else {
            None
        }
    } else {
        None
    }
}

proof fn lemma_first_dot_is(s: Seq<char>, from: int, k: int)
    requires
        0 <= from <= k <= s.len(),
        k < s.len() ==> s[k] == '.',
        forall|j: int| from <= j < k ==> s[j] != '.',
    ensures
        first_dot(s, from) == k,
    decreases k - from,
{
    if from < k {
        lemma_first_dot_is(s, from + 1, k);
    }
}

proof fn lemma_first_dot_bounds(s: Seq<char>, from: int)
    requires
        0 <= from <= s.len(),
    ensures
        from <= first_dot(s, from) <= s.len(),
        first_dot(s, from) < s.len() ==> s[first_dot(s, from)] == '.',
        forall|j: int| from <= j < first_dot(s, from) ==> s[j] != '.',
    decreases s.len() - from,
{
    if from < s.len() && s[from] != '.' {
        lemma_first_dot_bounds(s, from + 1);
    }
}

proof fn lemma_extend_bounds(acc: nat, digits: Seq<char>)
    requires
        all_digits(digits),
    ensures
        acc * 10_000_000 <= extend(acc, digits, 7) <= acc * 10_000_000 + 9_999_999,
{
    reveal_with_fuel(extend, 8);
    assert forall|i: int| 0 <= i < 7 implies digit_or_zero(digits, i) <= 9 by {
        if i < digits.len() {
            assert(is_digit(digits[i]));
        }
    }
    assert(digit_or_zero(digits, 0) <= 9);
    assert(digit_or_zero(digits, 1) <= 9);
    assert(digit_or_zero(digits, 2) <= 9);
    assert(digit_or_zero(digits, 3) <= 9);
    assert(digit_or_zero(digits, 4) <= 9);
    assert(digit_or_zero(digits, 5) <= 9);
    assert(digit_or_zero(digits, 6) <= 9);
}

proof fn lemma_value_of_prefix(s: Seq<char>, k: int)
    requires
        0 <= k <= s.len(),
    ensures
        decimal_value(s.subrange(0, k)) <= decimal_value(s),
    decreases s.len() - k,
{
    if k < s.len() {
        let t = s.subrange(0, k + 1);
        assert(t.drop_last() =~= s.subrange(0, k));
        lemma_value_of_prefix(s, k + 1);
    } else {
        assert(s.subrange(0, k) =~= s);
    }
}

/// A text with a character that is no digit, no decimal point and no
/// leading sign denotes no coordinate.
proof fn lemma_not_a_coordinate(s: Seq<char>, k: int)
    requires
        0 <= k < s.len(),
        !is_digit(s[k]),
        s[k] != '.',
        s[k] != '-',
        s[k] != '+',
    ensures
        spec_parse_coordinate(s) is None,
{
    let body = unsigned_part(s);
    let shift: int = if s.len() > 0 && (s[0] == '-' || s[0] == '+') {
        1
    } else {
        0
    };
    let j = k - shift;
    assert(body[j] == s[k]);
    lemma_first_dot_bounds(body, 0);
    let dot = first_dot(body, 0);
    if j < dot {
        assert(whole_part(body)[j] == body[j]);
    } else {
        assert(j > dot);
        assert(fraction_part(body)[j - dot - 1] == body[j]);
    }
}

/// Reads the digits in front of the decimal point: their value and where
/// they end, or nothing where they are no digits or denote more than 214.
fn scan_whole(text: &str, start: usize, n: usize) -> (r: Option<(u64, usize)>)
    requires
        text.is_ascii(),
        start <= n,
        n == text@.len(),
    ensures
        ({
            let body = text@.subrange(start as int, n as int);
            match r {
                Some((whole, dot)) => {
                    &&& start <= dot <= n
                    &&& dot - start == first_dot(body, 0)
                    &&& all_digits(whole_part(body))
                    &&& whole == decimal_value(whole_part(body))
                    &&& whole <= 214
                },
                None => !all_digits(whole_part(body)) || decimal_value(whole_part(body)) > 214,
            }
        }),
{
    let ghost body = text@.subrange(start as int, n as int);
    let mut i: usize = start;
    let mut whole: u64 = 0;
    while i < n && text.get_ascii(i) != 46u8
        invariant
            text.is_ascii(),
            n == text@.len(),
            start <= i <= n,
            body == text@.subrange(start as int, n as int),
            forall|j: int| 0 <= j < i - start ==> body[j] != '.',
            all_digits(body.subrange(0, i - start)),
            whole == decimal_value(body.subrange(0, i - start)),
            whole <= 214,
        decreases n - i,
    {
        let b = text.get_ascii(i);
        let ghost c = text@[i as int];
        let ghost j = i - start;
        proof {
            assert(body[j] == c);
            assert('\0' <= c <= '\u{7f}');
            assert(c != '.');
            lemma_first_dot_bounds(body, 0);
            let dot = first_dot(body, 0);
            if dot <= j {
                assert(body[dot] == '.');
            }
            assert(j < dot);
            assert(whole_part(body)[j] == c);
        }
        if b < 48u8 || b > 57u8 {
            return None;
        }
        let ghost next = body.subrange(0, j + 1);
        proof {
            assert(next.drop_last() =~= body.subrange(0, j));
            assert(next.last() == c);
            assert forall|m: int| 0 <= m < next.len() implies is_digit(#[trigger] next[m]) by {
                if m < j {
                    assert(next[m] == body.subrange(0, j)[m]);
                }
            }
        }
        whole = whole * 10 + (b - 48u8) as u64;
        if whole > 214 {
            proof {
                let w = whole_part(body);
                assert(w.subrange(0, j + 1) =~= next);
                lemma_value_of_prefix(w, j + 1);
            }
            return None;
        }
        i = i + 1;
    }
    proof {
        if i < n {
            assert('\0' <= text@[i as int] <= '\u{7f}');
            assert(body[i - start] == text@[i as int]);
        }
        lemma_first_dot_is(body, 0, i - start);
        assert(whole_part(body) =~= body.subrange(0, i - start));
    }
    Some((whole, i))
}

/// Whether the characters from `from` on are all digits.
fn digits_only(text: &str, from: usize, n: usize) -> (r: bool)
    requires
        text.is_ascii(),
        from <= n,
        n == text@.len(),
    ensures
        r == all_digits(text@.subrange(from as int, n as int)),
{
    let ghost part = text@.subrange(from as int, n as int);
    let mut k: usize = from;
    while k < n
        invariant
            text.is_ascii(),
            n == text@.len(),
            from <= k <= n,
            part == text@.subrange(from as int, n as int),
            forall|j: int| 0 <= j < k - from ==> is_digit(#[trigger] part[j]),
        decreases n - k,
    {
        let b = text.get_ascii(k);
        proof {
            assert(part[k - from] == text@[k as int]);
            assert('\0' <= text@[k as int] <= '\u{7f}');
        }
        if b < 48u8 || b > 57u8 {
            proof {
                assert(!is_digit(part[k - from]));
            }
            return false;
        }
        k = k + 1;
    }
    true
}

/// `whole` with the first seven of the digits from `from` on behind it.
fn scale(text: &str, whole: u64, from: usize, n: usize) -> (r: u64)
    requires
        text.is_ascii(),
        from <= n,
        n == text@.len(),
        whole <= 214,
        all_digits(text@.subrange(from as int, n as int)),
    ensures
        r == extend(whole as nat, text@.subrange(from as int, n as int), 7),
        r <= 214 * 10_000_000 + 9_999_999,
{
    let ghost fraction = text@.subrange(from as int, n as int);
    let mut scaled: u64 = whole;
    let mut d: usize = 0;
    while d < 7
        invariant
            text.is_ascii(),
            n == text@.len(),
            from <= n,
            d <= 7,
            whole <= 214,
            fraction == text@.subrange(from as int, n as int),
            all_digits(fraction),
            scaled == extend(whole as nat, fraction, d as nat),
            scaled <= 214 * 10_000_000 + 9_999_999,
        decreases 7 - d,
    {
        let digit: u64 = if d < n - from {
            let b = text.get_ascii(from + d);
            proof {
                let c = text@[from + d];
                assert(fraction[d as int] == c);
                assert('\0' <= c <= '\u{7f}');
                assert(is_digit(c));
            }
            (b - 48u8) as u64
        } else {
            0
        };
        proof {
            assert(digit == digit_or_zero(fraction, d as int));
            lemma_extend_step_bound(whole as nat, fraction, d as nat);
            lemma_extend_step_bound(whole as nat, fraction, (d + 1) as nat);
        }
        scaled = scaled * 10 + digit;
        d = d + 1;
    }
    scaled
}

/// The value that a sign and a scaled magnitude denote, where it fits 32 bits.
fn signed_value(negative: bool, scaled: u64) -> (r: Option<i32>)
    requires
        scaled <= 214 * 10_000_000 + 9_999_999,
    ensures
        r == ({
            let value: int = if negative {
                -(scaled as int)
            } else {
                scaled as int
            };
            if -2147483648 <= value <= 2147483647 {
                Some(value as i32)
            } else {
                None
            }
        }),
{
    let value: i64 = if negative {
        -(scaled as i64)
    } else {
        scaled as i64
    };
    if value < -2147483648i64 || value > 2147483647i64 {
        None
    } else {
        Some(value as i32)
    }
}

/// Reads a coordinate in degrees as a whole number in units of 1e-7 degree.
pub fn parse_coordinate(text: &str) -> (r: Option<i32>)
    ensures
        r == spec_parse_coordinate(text@),
{
    if !text.is_ascii() {
        proof {
            let k = choose|i: int|
                0 <= i < text@.len() && !('\0' <= #[trigger] text@[i] <= '\u{7f}');
            lemma_not_a_coordinate(text@, k);
        }
        return None;
    }
    let n = text.unicode_len();
    let mut start: usize = 0;
    let mut negative = false;
    if n > 0 {
        let b = text.get_ascii(0);
        proof {
            assert('\0' <= text@[0] <= '\u{7f}');
        }
        if b == 45u8 {
            negative = true;
            start = 1;
        } else if b == 43u8 {
            start = 1;
        }
    }
    let ghost body = unsigned_part(text@);
    let ghost whole_digits = whole_part(body);
    let ghost fraction = fraction_part(body);
    proof {
        assert(body =~= text@.subrange(start as int, n as int));
        assert(negative == (text@.len() > 0 && text@[0] == '-'));
        lemma_first_dot_bounds(body, 0);
    }
    match scan_whole(text, start, n) {
        None => {
            proof {
                if all_digits(whole_digits) && all_digits(fraction) {
                    lemma_extend_bounds(decimal_value(whole_digits), fraction);
                }
            }
            None
        },
        Some((whole, dot)) => {
            let from: usize = if dot < n {
                dot + 1
            } else {
                n
            };
            proof {
                assert(fraction =~= text@.subrange(from as int, n as int));
            }
            if !digits_only(text, from, n) {
                return None;
            }
            if dot - start + (n - from) == 0 {
                return None;
            }
            let scaled = scale(text, whole, from, n);
            signed_value(negative, scaled)
        },
    }
}

proof fn lemma_extend_step_bound(acc: nat, digits: Seq<char>, k: nat)
    requires
        all_digits(digits),
        acc <= 214,
        k <= 7,
    ensures
        extend(acc, digits, k) <= 214 * 10_000_000 + 9_999_999,
        k < 7 ==> extend(acc, digits, k) * 10 + 9 <= 214 * 10_000_000 + 9_999_999,
        k > 0 ==> extend(acc, digits, k) == extend(acc, digits, (k - 1) as nat) * 10
            + digit_or_zero(digits, k - 1),
{
    reveal_with_fuel(extend, 8);
    assert forall|i: int| 0 <= i < 7 implies digit_or_zero(digits, i) <= 9 by {
        if i < digits.len() {
            assert(is_digit(digits[i]));
        }
    }
    assert(digit_or_zero(digits, 0) <= 9);
    assert(digit_or_zero(digits, 1) <= 9);
    assert(digit_or_zero(digits, 2) <= 9);
    assert(digit_or_zero(digits, 3) <= 9);
    assert(digit_or_zero(digits, 4) <= 9);
    assert(digit_or_zero(digits, 5) <= 9);
    assert(digit_or_zero(digits, 6) <= 9);
}

} // verus!
