//! Decimal rendering of unsigned integers and small helpers on strings.

use vstd::prelude::*;
use vstd::string::*;
use vstd::utf8::{encode_utf8, encode_utf8_decode_utf8};

verus! {

/// `str::eq`, which is `==` on string slices: two slices are equal exactly
/// where they hold the same characters.
pub assume_specification[ <str as PartialEq>::eq ](a: &str, b: &str) -> (r: bool)
    ensures
        r == (a@ == b@),
;

/// The character of a decimal digit `d < 10`.
pub open spec fn digit_char(d: nat) -> char {
    if d == 0 {
        '0'
    } else if d == 1 {
        '1'
    } else if d == 2 {
        '2'
    } else if d == 3 {
        '3'
    } else if d == 4 {
        '4'
    } else if d == 5 {
        '5'
    } else if d == 6 {
        '6'
    } else if d == 7 {
        '7'
    } else if d == 8 {
        '8'
    } else {
        '9'
    }
}

/// Whether `c` is one of `'0'..='9'`.
pub open spec fn is_digit(c: char) -> bool {
    '0' <= c && c <= '9'
}

/// The value of a decimal digit character.
pub open spec fn digit_value(c: char) -> nat {
    (c as u32 - '0' as u32) as nat
}

/// Whether every character of `s` is a decimal digit.
pub open spec fn all_digits(s: Seq<char>) -> bool {
    forall|i: int| 0 <= i < s.len() ==> is_digit(#[trigger] s[i])
}

/// The number that a sequence of decimal digits denotes (0 for the empty one).
pub open spec fn decimal_value(s: Seq<char>) -> nat
    decreases s.len(),
{
    if s.len() == 0 {
        0
    } else {
        decimal_value(s.drop_last()) * 10 + digit_value(s.last())
    }
}

/// The shortest decimal representation of `n`.
pub open spec fn decimal(n: nat) -> Seq<char>
    decreases n,
{
    if n < 10 {
        seq![digit_char(n)]
    } else {
        decimal(n / 10).push(digit_char(n % 10))
    }
}

/// `decimal(n)`, padded with a leading zero to at least two digits.
pub open spec fn decimal2(n: nat) -> Seq<char> {
    if n < 10 {
        seq!['0', digit_char(n)]
    } else {
        decimal(n)
    }
}

/// The decimal representation of a number is made of digits only,
/// is not empty, and denotes that number.
pub proof fn lemma_decimal_round_trip(n: nat)
    ensures
        decimal(n).len() >= 1,
        all_digits(decimal(n)),
        decimal_value(decimal(n)) == n,
    decreases n,
{
    if n < 10 {
        let s = decimal(n);
        assert(s.len() == 1);
        assert(s.drop_last().len() == 0);
        assert(decimal_value(s.drop_last()) == 0);
        assert(s.last() == digit_char(n));
    } else {
        lemma_decimal_round_trip(n / 10);
        let p = decimal(n / 10);
        let s = decimal(n);
        assert(s.drop_last() =~= p);
        assert(s.last() == digit_char(n % 10));
        assert forall|i: int| 0 <= i < s.len() implies is_digit(#[trigger] s[i]) by {
            if i < p.len() {
                assert(s[i] == p[i]);
            }
        }
    }
}

/// The two-digit form is made of digits only, has at least two of them,
/// and denotes the same number.
pub proof fn lemma_decimal2_round_trip(n: nat)
    ensures
        decimal2(n).len() >= 2,
        all_digits(decimal2(n)),
        decimal_value(decimal2(n)) == n,
{
    lemma_decimal_round_trip(n);
    if n < 10 {
        let s = decimal2(n);
        assert(s.drop_last() =~= seq!['0']);
        assert(seq!['0'].drop_last() =~= Seq::<char>::empty());
        assert(decimal_value(seq!['0']) == 0) by {
            assert(seq!['0'].last() == '0');
            assert(decimal_value(seq!['0'].drop_last()) == 0);
        }
        assert(s.last() == digit_char(n));
    } else {
        lemma_decimal_len(n);
    }
}

/// A number of at least ten has at least two digits.
proof fn lemma_decimal_len(n: nat)
    requires
        n >= 10,
    ensures
        decimal(n).len() >= 2,
{
    lemma_decimal_round_trip(n / 10);
}

/// The one-character string of a decimal digit.
fn digit_str(d: u32) -> (r: &'static str)
    requires
        d < 10,
    ensures
        r@ == seq![digit_char(d as nat)],
{
    proof {
        reveal_strlit("0");
        reveal_strlit("1");
        reveal_strlit("2");
        reveal_strlit("3");
        reveal_strlit("4");
        reveal_strlit("5");
        reveal_strlit("6");
        reveal_strlit("7");
        reveal_strlit("8");
        reveal_strlit("9");
    }
    let r = if d == 0 {
        "0"
    } else if d == 1 {
        "1"
    } else if d == 2 {
        "2"
    } else if d == 3 {
        "3"
    } else if d == 4 {
        "4"
    } else if d == 5 {
        "5"
    } else if d == 6 {
        "6"
    } else if d == 7 {
        "7"
    } else if d == 8 {
        "8"
    } else {
        "9"
    };
    assert(r@ =~= seq![digit_char(d as nat)]);
    r
}

/// Renders `n` in decimal, without padding.
pub fn u64_to_decimal(n: u64) -> (s: String)
    ensures
        s@ == decimal(n as nat),
    decreases n,
{
    if n < 10 {
        String::from_str(digit_str(n as u32))
    } else {
        let mut s = u64_to_decimal(n / 10);
        let ghost before = s@;
        s.append(digit_str((n % 10) as u32));
        assert(s@ =~= before.push(digit_char((n % 10) as nat)));
        s
    }
}

/// Renders `n` in decimal with at least two digits.
pub fn u64_to_decimal2(n: u64) -> (s: String)
    ensures
        s@ == decimal2(n as nat),
{
    if n < 10 {
        let mut s = String::from_str("0");
        proof {
            reveal_strlit("0");
        }
        s.append(digit_str(n as u32));
        assert(s@ =~= seq!['0', digit_char(n as nat)]);
        s
    } else {
        u64_to_decimal(n)
    }
}

/// The view of an optional string.
pub open spec fn opt_view(o: Option<String>) -> Option<Seq<char>> {
    match o {
        Some(s) => Some(s@),
        None => None,
    }
}

/// Copies an optional string.
pub fn clone_opt(o: &Option<String>) -> (r: Option<String>)
    ensures
        r == *o,
{
    match o {
        Some(s) => Some(s.clone()),
        None => None,
    }
}

/// Whether two string slices hold the same characters.
pub fn str_eq(a: &str, b: &str) -> (r: bool)
    ensures
        r == (a@ == b@),
{
    *a == *b
}

/// Whether an optional string is present and holds the characters of `s`.
pub open spec fn opt_is(o: Option<String>, s: Seq<char>) -> bool {
    o.is_some() && o.unwrap()@ == s
}

/// Whether an optional string is present and holds the characters of `s`.
pub fn opt_str_is(o: &Option<String>, s: &str) -> (r: bool)
    ensures
        r == opt_is(*o, s@),
{
    match o {
        Some(v) => str_eq(v.as_str(), s),
        None => false,
    }
}

/// Byte sequences in dictionary order: `a` comes strictly before `b`.
pub open spec fn lex_lt(a: Seq<u8>, b: Seq<u8>) -> bool
    decreases a.len(),
{
    if b.len() == 0 {
        false
    } else if a.len() == 0 {
        true
    } else if a[0] != b[0] {
        a[0] < b[0]
    } else {
        lex_lt(a.skip(1), b.skip(1))
    }
}

/// Strings in the order of their UTF-8 bytes, which is the order of `str`.
pub open spec fn str_lt(a: Seq<char>, b: Seq<char>) -> bool {
    lex_lt(encode_utf8(a), encode_utf8(b))
}

/// No byte sequence comes before itself.
pub proof fn lemma_lex_irreflexive(a: Seq<u8>)
    ensures
        !lex_lt(a, a),
    decreases a.len(),
{
    if a.len() > 0 {
        lemma_lex_irreflexive(a.skip(1));
    }
}

/// Dictionary order is transitive.
pub proof fn lemma_lex_transitive(a: Seq<u8>, b: Seq<u8>, c: Seq<u8>)
    requires
        lex_lt(a, b),
        lex_lt(b, c),
    ensures
        lex_lt(a, c),
    decreases a.len(),
{
    if a.len() > 0 && a[0] == b[0] && b[0] == c[0] {
        lemma_lex_transitive(a.skip(1), b.skip(1), c.skip(1));
    }
}

/// Of two different byte sequences one comes before the other.
pub proof fn lemma_lex_total(a: Seq<u8>, b: Seq<u8>)
    ensures
        lex_lt(a, b) || lex_lt(b, a) || a == b,
    decreases a.len(),
{
    if a.len() > 0 && b.len() > 0 && a[0] == b[0] {
        lemma_lex_total(a.skip(1), b.skip(1));
        if a.skip(1) == b.skip(1) {
            assert forall|i: int| 0 <= i < a.len() implies a[i] == b[i] by {
                if i > 0 {
                    assert(a.skip(1)[i - 1] == a[i]);
                    assert(b.skip(1)[i - 1] == b[i]);
                }
            }
            assert(a.len() == a.skip(1).len() + 1);
            assert(b.len() == b.skip(1).len() + 1);
            assert(a =~= b);
        }
    } else if a.len() == 0 && b.len() == 0 {
        assert(a =~= b);
    }
}

/// The order on strings is strict, transitive, and total on different strings.
pub proof fn lemma_str_lt_order(a: Seq<char>, b: Seq<char>, c: Seq<char>)
    ensures
        !str_lt(a, a),
        str_lt(a, b) && str_lt(b, c) ==> str_lt(a, c),
        str_lt(a, b) || str_lt(b, a) || a == b,
        str_lt(a, b) ==> a != b && !str_lt(b, a),
{
    lemma_lex_irreflexive(encode_utf8(a));
    lemma_lex_irreflexive(encode_utf8(b));
    if str_lt(a, b) && str_lt(b, c) {
        lemma_lex_transitive(encode_utf8(a), encode_utf8(b), encode_utf8(c));
    }
    if str_lt(a, b) && str_lt(b, a) {
        lemma_lex_transitive(encode_utf8(a), encode_utf8(b), encode_utf8(a));
    }
    lemma_lex_total(encode_utf8(a), encode_utf8(b));
    encode_utf8_decode_utf8(a);
    encode_utf8_decode_utf8(b);
}

/// Whether `a` comes strictly before `b` in the order of `str`.
pub fn str_less(a: &str, b: &str) -> (r: bool)
    ensures
        r == str_lt(a@, b@),
{
    let x = a.as_bytes();
    let y = b.as_bytes();
    let n = x.len();
    let m = y.len();
    let mut i: usize = 0;
    proof {
        assert(x@.skip(0) =~= x@);
        assert(y@.skip(0) =~= y@);
    }
    while i < n && i < m
        invariant
            x@ == encode_utf8(a@),
            y@ == encode_utf8(b@),
            n == x@.len(),
            m == y@.len(),
            i <= n,
            i <= m,
            lex_lt(x@, y@) == lex_lt(x@.skip(i as int), y@.skip(i as int)),
        decreases n - i,
    {
        let ghost xs = x@.skip(i as int);
        let ghost ys = y@.skip(i as int);
        proof {
            assert(xs[0] == x@[i as int]);
            assert(ys[0] == y@[i as int]);
            assert(xs.skip(1) =~= x@.skip(i + 1));
            assert(ys.skip(1) =~= y@.skip(i + 1));
        }
        if x[i] != y[i] {
            return x[i] < y[i];
        }
        i = i + 1;
    }
    proof {
        assert(x@.skip(i as int).len() == n - i);
        assert(y@.skip(i as int).len() == m - i);
    }
    i < m
}

/// Strings in strictly rising order, so that none occurs twice.
pub open spec fn strictly_sorted(ids: Seq<String>) -> bool {
    forall|i: int, j: int| 0 <= i < j < ids.len() ==> str_lt(#[trigger] ids[i]@, #[trigger] ids[j]@)
}

/// Whether one of `ids` holds the characters `s`.
pub open spec fn has_id(ids: Seq<String>, s: Seq<char>) -> bool {
    exists|i: int| 0 <= i < ids.len() && #[trigger] ids[i]@ == s
}

/// Puts `x` at its place in a strictly sorted list, unless it is there already.
pub(crate) fn insert_sorted_unique(ids: &mut Vec<String>, x: String)
    requires
        strictly_sorted(old(ids)@),
    ensures
        strictly_sorted(final(ids)@),
        forall|s: Seq<char>| has_id(final(ids)@, s) <==> (has_id(old(ids)@, s) || s == x@),
{
    let mut j: usize = 0;
    while j < ids.len() && str_less(ids[j].as_str(), x.as_str())
        invariant
            j <= ids.len(),
            ids@ == old(ids)@,
            forall|i: int| 0 <= i < j ==> str_lt(#[trigger] ids[i]@, x@),
        decreases ids.len() - j,
    {
        j = j + 1;
    }
    let ghost before = ids@;
    if j < ids.len() && str_eq(ids[j].as_str(), x.as_str()) {
        assert forall|s: Seq<char>| has_id(ids@, s) <==> (has_id(before, s) || s == x@) by {
            if s == x@ {
                assert(ids[j as int]@ == s);
            }
        }
        return ;
    }
    proof {
        assert forall|i: int| j <= i < before.len() implies str_lt(x@, #[trigger] before[i]@) by {
            lemma_str_lt_order(before[j as int]@, x@, before[i]@);
            lemma_str_lt_order(x@, before[j as int]@, before[i]@);
        }
        assert forall|i: int| 0 <= i < j implies x@ != #[trigger] before[i]@ by {
            lemma_str_lt_order(before[i]@, x@, x@);
        }
    }
    ids.insert(j, x);
    proof {
        let after = ids@;
        assert(after == before.insert(j as int, x));
        assert forall|a: int, b: int| 0 <= a < b < after.len() implies str_lt(
            #[trigger] after[a]@,
            #[trigger] after[b]@,
        ) by {
            if b < j {
                assert(after[a] == before[a] && after[b] == before[b]);
            } else if b == j {
                assert(after[a] == before[a]);
            } else if a < j {
                assert(after[a] == before[a] && after[b] == before[b - 1]);
            } else if a == j {
                assert(after[b] == before[b - 1]);
            } else {
                assert(after[a] == before[a - 1] && after[b] == before[b - 1]);
            }
        }
        assert forall|s: Seq<char>| has_id(after, s) <==> (has_id(before, s) || s == x@) by {
            if has_id(after, s) {
                let i = choose|i: int| 0 <= i < after.len() && #[trigger] after[i]@ == s;
                if i < j {
                    assert(before[i]@ == s);
                } else if i > j {
                    assert(before[i - 1]@ == s);
                }
            }
            if has_id(before, s) {
                let i = choose|i: int| 0 <= i < before.len() && #[trigger] before[i]@ == s;
                if i < j {
                    assert(after[i]@ == s);
                } else {
                    assert(after[i + 1]@ == s);
                }
            }
            if s == x@ {
                assert(after[j as int]@ == s);
            }
        }
    }
}

/// Two strictly sorted lists with the same members are the same list.
pub proof fn lemma_strictly_sorted_unique(a: Seq<String>, b: Seq<String>)
    requires
        strictly_sorted(a),
        strictly_sorted(b),
        forall|s: Seq<char>| has_id(a, s) <==> has_id(b, s),
    ensures
        a.len() == b.len(),
        forall|i: int| 0 <= i < a.len() ==> a[i]@ == b[i]@,
    decreases a.len(),
{
    if a.len() == 0 {
        if b.len() > 0 {
            assert(has_id(b, b[0]@));
        }
    } else if b.len() == 0 {
        assert(has_id(a, a[0]@));
    } else {
        let la = a.last();
        let lb = b.last();
        assert(has_id(a, la@));
        assert(has_id(b, lb@));
        let ib = choose|i: int| 0 <= i < b.len() && #[trigger] b[i]@ == la@;
        let ia = choose|i: int| 0 <= i < a.len() && #[trigger] a[i]@ == lb@;
        lemma_str_lt_order(la@, lb@, la@);
        if ib < b.len() - 1 {
            assert(str_lt(b[ib]@, lb@));
        }
        if ia < a.len() - 1 {
            assert(str_lt(a[ia]@, la@));
        }
        assert(la@ == lb@);
        let a2 = a.drop_last();
        let b2 = b.drop_last();
        assert forall|s: Seq<char>| has_id(a2, s) <==> has_id(b2, s) by {
            if has_id(a2, s) {
                let i = choose|i: int| 0 <= i < a2.len() && #[trigger] a2[i]@ == s;
                assert(a[i]@ == s);
                assert(str_lt(a[i]@, la@));
                lemma_str_lt_order(s, la@, s);
                assert(has_id(a, s));
                let k = choose|k: int| 0 <= k < b.len() && #[trigger] b[k]@ == s;
                assert(b2[k]@ == s);
            }
            if has_id(b2, s) {
                let i = choose|i: int| 0 <= i < b2.len() && #[trigger] b2[i]@ == s;
                assert(b[i]@ == s);
                assert(str_lt(b[i]@, lb@));
                lemma_str_lt_order(s, lb@, s);
                assert(has_id(b, s));
                let k = choose|k: int| 0 <= k < a.len() && #[trigger] a[k]@ == s;
                assert(a2[k]@ == s);
            }
        }
        lemma_strictly_sorted_unique(a2, b2);
        assert forall|i: int| 0 <= i < a.len() implies a[i]@ == b[i]@ by {
            if i < a.len() - 1 {
                assert(a2[i]@ == b2[i]@);
            }
        }
    }
}

/// The views of the items of `s`, in their order.
pub open spec fn views<T: View>(s: Seq<T>) -> Seq<T::V> {
    Seq::new(s.len(), |i: int| s[i]@)
}

/// The views of a list with one more item are the views of the list with
/// the view of that item behind them.
pub proof fn lemma_views_push<T: View>(s: Seq<T>, x: T)
    ensures
        views(s.push(x)) == views(s).push(x@),
{
    assert(views(s.push(x)) =~= views(s).push(x@));
}

/// The views of two lists, one behind the other.
pub proof fn lemma_views_concat<T: View>(a: Seq<T>, b: Seq<T>)
    ensures
        views(a + b) == views(a) + views(b),
{
    assert(views(a + b) =~= views(a) + views(b));
}

/// A number with at least three digits, padded with zeros.
pub open spec fn decimal3(n: nat) -> Seq<char> {
    if n < 10 {
        seq!['0', '0'] + decimal(n)
    } else if n < 100 {
        seq!['0'] + decimal(n)
    } else {
        decimal(n)
    }
}

/// Renders `n` in decimal with at least three digits.
pub fn u64_to_decimal3(n: u64) -> (s: String)
    ensures
        s@ == decimal3(n as nat),
{
    proof {
        reveal_strlit("00");
        reveal_strlit("0");
        reveal_strlit("");
    }
    let mut s = String::from_str(
        if n < 10 {
            "00"
        } else if n < 100 {
            "0"
        } else {
            ""
        },
    );
    let ghost pad = s@;
    s.append(u64_to_decimal(n).as_str());
    proof {
        if n < 10 {
            assert(pad =~= seq!['0', '0']);
        } else if n < 100 {
            assert(pad =~= seq!['0']);
        } else {
            assert(pad =~= Seq::<char>::empty());
            assert(pad + decimal(n as nat) =~= decimal(n as nat));
        }
    }
    s
}

/// The text of an optional string, and `other` where there is none.
pub open spec fn text_or(o: Option<String>, other: Seq<char>) -> Seq<char> {
    match o {
        Some(s) => s@,
        None => other,
    }
}

/// The last `width` decimal digits of `n`, with zeros in front where `n` has fewer.
pub open spec fn decimal_padded(n: nat, width: nat) -> Seq<char>
    decreases width,
{
    if width == 0 {
        Seq::empty()
    } else {
        decimal_padded(n / 10, (width - 1) as nat).push(digit_char(n % 10))
    }
}

/// Renders the last `width` decimal digits of `n`.
pub fn u64_to_decimal_padded(n: u64, width: u32) -> (s: String)
    ensures
        s@ == decimal_padded(n as nat, width as nat),
    decreases width,
{
    if width == 0 {
        String::new()
    } else {
        let mut s = u64_to_decimal_padded(n / 10, width - 1);
        let ghost before = s@;
        s.append(digit_str((n % 10) as u32));
        assert(s@ =~= before.push(digit_char((n % 10) as nat)));
        s
    }
}

/// A text in lower case, as `str::to_lowercase` gives it.
pub uninterp spec fn lowercase(s: Seq<char>) -> Seq<char>;

/// Whether a character is white space, as `char::is_whitespace` says.
pub uninterp spec fn is_white_space(c: char) -> bool;

/// The index of the first character at or after `from` that is no white
/// space, or the length of `s`.
pub open spec fn first_mark(s: Seq<char>, from: int) -> int
    decreases s.len() - from,
{
    if from < 0 || from >= s.len() {
        s.len() as int
    } else if !is_white_space(s[from]) {
        from
    } else {
        first_mark(s, from + 1)
    }
}

/// The index behind the last character of `s` that is no white space, or 0.
pub open spec fn last_mark_end(s: Seq<char>) -> int
    decreases s.len(),
{
    if s.len() == 0 {
        0
    } else if !is_white_space(s.last()) {
        s.len() as int
    } else {
        last_mark_end(s.drop_last())
    }
}

/// A text without the white space at its ends.
pub open spec fn trimmed(s: Seq<char>) -> Seq<char> {
    if first_mark(s, 0) >= last_mark_end(s) {
        Seq::empty()
    } else {
        s.subrange(first_mark(s, 0), last_mark_end(s))
    }
}

/// `str::to_lowercase`: the text in lower case.
#[verifier::external_body]
pub(crate) fn to_lower(s: &str) -> (r: String)
    ensures
        r@ == lowercase(s@),
{
    s.to_lowercase()
}

/// `str::trim`: the text without the white space at its ends, so that it
/// neither starts nor ends with white space.
#[verifier::external_body]
pub(crate) fn trim_text(s: &str) -> (r: &str)
    ensures
        r@ == trimmed(s@),
        r@.len() > 0 ==> !is_white_space(r@[0]) && !is_white_space(r@.last()),
{
    s.trim()
}

/// Whether `needle` occurs in `hay` at the position `i`.
pub open spec fn occurs_at(hay: Seq<u8>, needle: Seq<u8>, i: int) -> bool {
    0 <= i && i + needle.len() <= hay.len() && hay.subrange(i, i + needle.len()) == needle
}

/// Whether `needle` occurs somewhere in `hay`.
pub open spec fn contains_bytes(hay: Seq<u8>, needle: Seq<u8>) -> bool {
    exists|i: int| occurs_at(hay, needle, i)
}

/// Whether the text `needle` occurs in the text `hay`, by their UTF-8
/// bytes, as `str::contains` finds it.
pub open spec fn text_contains(hay: Seq<char>, needle: Seq<char>) -> bool {
    contains_bytes(encode_utf8(hay), encode_utf8(needle))
}

/// Whether `needle` occurs in `hay` at the position `i`.
fn matches_at(hay: &[u8], needle: &[u8], i: usize) -> (r: bool)
    requires
        i + needle@.len() <= hay@.len(),
    ensures
        r == occurs_at(hay@, needle@, i as int),
{
    let m = needle.len();
    let size = hay.len();
    let mut k: usize = 0;
    while k < m
        invariant
            m == needle@.len(),
            size == hay@.len(),
            k <= m,
            i + m <= size,
            forall|j: int| 0 <= j < k ==> hay@[i + j] == needle@[j],
        decreases m - k,
    {
        if hay[i + k] != needle[k] {
            proof {
                assert(hay@.subrange(i as int, i + m)[k as int] == hay@[i + k]);
            }
            return false;
        }
        k = k + 1;
    }
    proof {
        assert(hay@.subrange(i as int, i + m) =~= needle@);
    }
    true
}

/// Whether the text `needle` occurs in the text `hay`.
pub fn str_contains(hay: &str, needle: &str) -> (r: bool)
    ensures
        r == text_contains(hay@, needle@),
{
    let h = hay.as_bytes();
    let n = needle.as_bytes();
    if n.len() > h.len() {
        return false;
    }
    if n.len() == 0 {
        proof {
            assert(h@.subrange(0, 0) =~= n@);
            assert(occurs_at(h@, n@, 0));
        }
        return true;
    }
    let size = h.len();
    let last = size - n.len();
    let mut i: usize = 0;
    while i <= last
        invariant
            h@ == encode_utf8(hay@),
            n@ == encode_utf8(needle@),
            n@.len() <= h@.len(),
            size == h@.len(),
            last == size - n@.len(),
            last < size,
            i <= last + 1,
            forall|j: int| 0 <= j < i ==> !occurs_at(h@, n@, j),
        decreases last + 1 - i,
    {
        if matches_at(h, n, i) {
            return true;
        }
        i = i + 1;
    }
    false
}

/// A count as a machine number: counts above `usize::MAX` are given as
/// `usize::MAX`.
pub open spec fn capped_count(n: nat) -> usize {
    if n <= usize::MAX {
        n as usize
    } else {
        usize::MAX
    }
}

/// The sum of two counts, capped at `usize::MAX`.
pub fn add_counts(a: usize, b: usize) -> (r: usize)
    ensures
        r == capped_count((a + b) as nat),
{
    if a > usize::MAX - b {
        usize::MAX
    } else {
        a + b
    }
}

} // verus!
