//! Text as a sequence of characters: searching, trimming, cutting and decimal numerals.

use vstd::prelude::*;
use vstd::utf8::*;

verus! {

/// `String::push` appends the character at the end of the string.
pub assume_specification[ String::push ](s: &mut String, c: char)
    ensures
        final(s)@ == old(s)@.push(c),
;

/// The text of an optional string.
pub open spec fn text_of(s: Option<String>) -> Option<Seq<char>> {
    match s {
        Some(t) => Some(t@),
        None => None,
    }
}

/// The text of an optional string slice.
pub open spec fn str_of(s: Option<&str>) -> Option<Seq<char>> {
    match s {
        Some(t) => Some(t@),
        None => None,
    }
}

// ---------------------------------------------------------------- characters and strings

/// The characters of a string, in order.
pub(crate) fn chars_of(s: &str) -> (chars: Vec<char>)
    ensures
        chars@ == s@,
{
    let mut chars: Vec<char> = Vec::new();
    for c in it: s.chars()
        invariant
            it.seq() == s@,
            chars@ == s@.take(it.index() as int),
    {
        chars.push(c);
    }
    assert(s@.take(s@.len() as int) == s@);
    chars
}

/// The string made of the characters from `from` up to, not including, `to`.
pub(crate) fn string_of(chars: &Vec<char>, from: usize, to: usize) -> (s: String)
    requires
        from <= to <= chars@.len(),
    ensures
        s@ == chars@.subrange(from as int, to as int),
{
    let mut s = String::new();
    let mut i: usize = from;
    while i < to
        invariant
            from <= i <= to <= chars@.len(),
            s@ == chars@.subrange(from as int, i as int),
        decreases to - i,
    {
        s.push(chars[i]);
        i = i + 1;
        assert(chars@.subrange(from as int, i as int) == chars@.subrange(
            from as int,
            i - 1,
        ).push(chars@[i - 1]));
    }
    s
}

/// Whether two strings hold the same text.
pub(crate) fn same_text(a: &str, b: &str) -> (same: bool)
    ensures
        same == (a@ == b@),
{
    broadcast use encode_utf8_decode_utf8;

    let x = a.as_bytes();
    let y = b.as_bytes();
    if x.len() != y.len() {
        return false;
    }
    let mut i: usize = 0;
    while i < x.len()
        invariant
            x@ == encode_utf8(a@),
            y@ == encode_utf8(b@),
            i <= x@.len() == y@.len(),
            x@.take(i as int) == y@.take(i as int),
        decreases x@.len() - i,
    {
        if x[i] != y[i] {
            return false;
        }
        assert(x@.take(i + 1) == x@.take(i as int).push(x@[i as int]));
        assert(y@.take(i + 1) == y@.take(i as int).push(y@[i as int]));
        i = i + 1;
    }
    assert(x@.take(x@.len() as int) == x@);
    assert(y@.take(y@.len() as int) == y@);
    assert(decode_utf8(encode_utf8(a@)) == a@);
    assert(decode_utf8(encode_utf8(b@)) == b@);
    true
}

// ---------------------------------------------------------------- searching

/// `pat` stands in `s` at position `i`.
pub open spec fn occurs_at(s: Seq<char>, pat: Seq<char>, i: int) -> bool {
    0 <= i && i + pat.len() <= s.len() && s.subrange(i, i + pat.len()) == pat
}

/// The first position, from `from` on, at which `pat` stands in `s`.
pub open spec fn find_from(s: Seq<char>, pat: Seq<char>, from: int) -> Option<int>
    decreases s.len() + 1 - from,
{
    if from < 0 || from + pat.len() > s.len() {
        None
    } else if occurs_at(s, pat, from) {
        Some(from)
    } else {
        find_from(s, pat, from + 1)
    }
}

/// The first position at which `pat` stands in `s`.
pub open spec fn find(s: Seq<char>, pat: Seq<char>) -> Option<int> {
    find_from(s, pat, 0)
}

/// `pat` stands somewhere in `s`.
pub open spec fn contains_text(s: Seq<char>, pat: Seq<char>) -> bool {
    exists|i: int| occurs_at(s, pat, i)
}

/// The search gives the least position at which the pattern stands, and none exactly where
/// it stands nowhere.
pub proof fn lemma_find_from(s: Seq<char>, pat: Seq<char>, from: int)
    requires
        0 <= from,
    ensures
        match find_from(s, pat, from) {
            Some(i) => from <= i && occurs_at(s, pat, i) && forall|j: int|
                from <= j < i ==> !occurs_at(s, pat, j),
            None => forall|j: int| from <= j ==> !occurs_at(s, pat, j),
        },
    decreases s.len() + 1 - from,
{
    if from + pat.len() <= s.len() && !occurs_at(s, pat, from) {
        lemma_find_from(s, pat, from + 1);
    }
}

/// A position at which the pattern stands, with none before it, is the one that is found.
pub proof fn lemma_find_is(s: Seq<char>, pat: Seq<char>, from: int, i: int)
    requires
        0 <= from <= i,
        occurs_at(s, pat, i),
        forall|j: int| from <= j < i ==> !occurs_at(s, pat, j),
    ensures
        find_from(s, pat, from) == Some(i),
{
    lemma_find_from(s, pat, from);
    match find_from(s, pat, from) {
        Some(k) => {
            if k < i {
                assert(!occurs_at(s, pat, k));
            }
            if i < k {
                assert(!occurs_at(s, pat, i));
            }
        },
        None => {},
    }
}

/// Whether `pat` stands in `chars` at position `i`.
fn matches_at(chars: &Vec<char>, pat: &Vec<char>, i: usize) -> (found: bool)
    requires
        i + pat@.len() <= chars@.len(),
    ensures
        found == occurs_at(chars@, pat@, i as int),
{
    let mut k: usize = 0;
    while k < pat.len()
        invariant
            k <= pat@.len(),
            i + pat.len() <= chars.len(),
            forall|j: int| 0 <= j < k ==> chars@[i + j] == #[trigger] pat@[j],
        decreases pat@.len() - k,
    {
        if chars[i + k] != pat[k] {
            assert(chars@.subrange(i as int, i + pat@.len())[k as int] != pat@[k as int]);
            return false;
        }
        k = k + 1;
    }
    assert(chars@.subrange(i as int, i + pat@.len()) =~= pat@);
    true
}

/// The first position, from `from` on, at which `pat` stands in `chars`.
pub(crate) fn find_text(chars: &Vec<char>, pat: &Vec<char>, from: usize) -> (found: Option<usize>)
    requires
        from <= chars@.len(),
    ensures
        match found {
            Some(i) => find_from(chars@, pat@, from as int) == Some(i as int),
            None => find_from(chars@, pat@, from as int) is None,
        },
{
    let mut i: usize = from;
    while i <= chars.len() && pat.len() <= chars.len() - i
        invariant
            from <= i <= chars@.len() + 1,
            chars@.len() == chars.len(),
            find_from(chars@, pat@, from as int) == find_from(chars@, pat@, i as int),
        decreases chars@.len() + 1 - i,
    {
        if matches_at(chars, pat, i) {
            return Some(i);
        }
        if i == chars.len() {
            assert(find_from(chars@, pat@, i + 1) is None);
            return None;
        }
        i = i + 1;
    }
    None
}

/// Whether `pat` stands somewhere in `s`.
pub fn contains(s: &str, pat: &str) -> (found: bool)
    ensures
        found == contains_text(s@, pat@),
{
    let found = find_text(&chars_of(s), &chars_of(pat), 0);
    proof {
        lemma_find_from(s@, pat@, 0);
    }
    found.is_some()
}

// ---------------------------------------------------------------- cutting

/// How many leading characters of `s` come before the first `a` or `b`.
pub open spec fn span(s: Seq<char>, a: char, b: char) -> int
    decreases s.len(),
{
    if s.len() == 0 || s[0] == a || s[0] == b {
        0
    } else {
        1 + span(s.drop_first(), a, b)
    }
}

/// The part of `s` before the first `c` and the part after it, where there is a `c`.
pub open spec fn split_once(s: Seq<char>, c: char) -> Option<(Seq<char>, Seq<char>)> {
    let k = span(s, c, c);
    if k < s.len() {
        Some((s.take(k), s.skip(k + 1)))
    } else {
        None
    }
}

/// The span ends at the first of the two characters, or at the end of the text.
pub proof fn lemma_span(s: Seq<char>, a: char, b: char)
    ensures
        0 <= span(s, a, b) <= s.len(),
        forall|i: int| 0 <= i < span(s, a, b) ==> s[i] != a && s[i] != b,
        span(s, a, b) < s.len() ==> s[span(s, a, b)] == a || s[span(s, a, b)] == b,
    decreases s.len(),
{
    if s.len() > 0 && s[0] != a && s[0] != b {
        lemma_span(s.drop_first(), a, b);
        assert forall|i: int| 0 <= i < span(s, a, b) implies s[i] != a && s[i] != b by {
            if i > 0 {
                assert(s[i] == s.drop_first()[i - 1]);
            }
        }
        if span(s, a, b) < s.len() {
            assert(s[span(s, a, b)] == s.drop_first()[span(s, a, b) - 1]);
        }
    }
}

/// A position at which one of the two characters stands, or the end of the text, is the
/// span where neither stands before it.
pub proof fn lemma_span_is(s: Seq<char>, a: char, b: char, k: int)
    requires
        0 <= k <= s.len(),
        forall|i: int| 0 <= i < k ==> s[i] != a && s[i] != b,
        k < s.len() ==> s[k] == a || s[k] == b,
    ensures
        span(s, a, b) == k,
{
    lemma_span(s, a, b);
    let n = span(s, a, b);
    if n < k {
        assert(s[n] != a && s[n] != b);
    }
    if k < n {
        assert(s[k] != a && s[k] != b);
    }
}

/// The first position of `a` or `b` in `chars` from `from` on, below `to`; `to` where
/// neither stands there.
pub(crate) fn span_end(chars: &Vec<char>, from: usize, to: usize, a: char, b: char) -> (end: usize)
    requires
        from <= to <= chars@.len(),
    ensures
        from <= end <= to,
        end - from == span(chars@.subrange(from as int, to as int), a, b),
{
    let ghost s = chars@.subrange(from as int, to as int);
    let mut i: usize = from;
    while i < to && chars[i] != a && chars[i] != b
        invariant
            from <= i <= to <= chars@.len(),
            s == chars@.subrange(from as int, to as int),
            forall|j: int| 0 <= j < i - from ==> s[j] != a && s[j] != b,
        decreases to - i,
    {
        i = i + 1;
    }
    proof {
        if i < to {
            assert(s[i - from] == chars@[i as int]);
        }
        lemma_span_is(s, a, b, i - from);
    }
    i
}

/// The first `n` characters of `s`, or all of it where it is no longer than that.
pub open spec fn truncated(s: Seq<char>, n: nat) -> Seq<char> {
    if s.len() <= n {
        s
    } else {
        s.take(n as int)
    }
}

/// Cuts `s` to at most `n` characters.
pub fn truncate(s: &str, n: usize) -> (cut: &str)
    ensures
        cut@ == truncated(s@, n as nat),
{
    if s.unicode_len() <= n {
        s
    } else {
        s.substring_char(0, n)
    }
}

// ---------------------------------------------------------------- white space

/// The characters with the Unicode property `White_Space`.
pub open spec fn is_white(c: char) -> bool {
    ||| '\u{9}' <= c <= '\u{d}'
    ||| c == ' '
    ||| c == '\u{85}'
    ||| c == '\u{a0}'
    ||| c == '\u{1680}'
    ||| '\u{2000}' <= c <= '\u{200a}'
    ||| c == '\u{2028}'
    ||| c == '\u{2029}'
    ||| c == '\u{202f}'
    ||| c == '\u{205f}'
    ||| c == '\u{3000}'
}

/// Whether `c` is white space.
pub fn is_white_space(c: char) -> (white: bool)
    ensures
        white == is_white(c),
{
    ('\u{9}' <= c && c <= '\u{d}') || c == ' ' || c == '\u{85}' || c == '\u{a0}' || c == '\u{1680}'
        || ('\u{2000}' <= c && c <= '\u{200a}') || c == '\u{2028}' || c == '\u{2029}' || c
        == '\u{202f}' || c == '\u{205f}' || c == '\u{3000}'
}

/// `s` without the white space at its start.
pub open spec fn trimmed_start(s: Seq<char>) -> Seq<char>
    decreases s.len(),
{
    if s.len() > 0 && is_white(s.first()) {
        trimmed_start(s.drop_first())
    } else {
        s
    }
}

/// `s` without the white space at its end.
pub open spec fn trimmed_end(s: Seq<char>) -> Seq<char>
    decreases s.len(),
{
    if s.len() > 0 && is_white(s.last()) {
        trimmed_end(s.drop_last())
    } else {
        s
    }
}

/// `s` without the white space at either end.
pub open spec fn trimmed(s: Seq<char>) -> Seq<char> {
    trimmed_end(trimmed_start(s))
}

/// The bounds of the part of `chars` between `from` and `to` that is left when the white
/// space at either end is taken off.
pub(crate) fn trim_bounds(chars: &Vec<char>, from: usize, to: usize) -> (bounds: (usize, usize))
    requires
        from <= to <= chars@.len(),
    ensures
        from <= bounds.0 <= bounds.1 <= to,
        chars@.subrange(bounds.0 as int, bounds.1 as int) == trimmed(
            chars@.subrange(from as int, to as int),
        ),
{
    let ghost whole = chars@.subrange(from as int, to as int);
    let mut start: usize = from;
    while start < to && is_white_space(chars[start])
        invariant
            from <= start <= to <= chars@.len(),
            whole == chars@.subrange(from as int, to as int),
            trimmed_start(whole) == trimmed_start(chars@.subrange(start as int, to as int)),
        decreases to - start,
    {
        assert(chars@.subrange(start as int, to as int).drop_first() == chars@.subrange(
            start + 1,
            to as int,
        ));
        start = start + 1;
    }
    let ghost rest = chars@.subrange(start as int, to as int);
    assert(trimmed_start(whole) == rest);
    let mut end: usize = to;
    while start < end && is_white_space(chars[end - 1])
        invariant
            start <= end <= to <= chars@.len(),
            rest == chars@.subrange(start as int, to as int),
            trimmed_end(rest) == trimmed_end(chars@.subrange(start as int, end as int)),
        decreases end - start,
    {
        assert(chars@.subrange(start as int, end as int).drop_last() == chars@.subrange(
            start as int,
            end - 1,
        ));
        end = end - 1;
    }
    (start, end)
}

// ---------------------------------------------------------------- decimal numerals

/// The numeral of a digit.
pub open spec fn digit(n: nat) -> char {
    (('0' as int) + n) as char
}

/// The decimal numeral of `n`, without leading zeros.
pub open spec fn decimal(n: nat) -> Seq<char>
    decreases n,
{
    if n < 10 {
        seq![digit(n)]
    } else {
        decimal(n / 10).push(digit(n % 10))
    }
}

/// The decimal numeral of `n`.
pub fn decimal_text(n: u64) -> (s: String)
    ensures
        s@ == decimal(n as nat),
    decreases n,
{
    let mut s = if n < 10 {
        String::new()
    } else {
        decimal_text(n / 10)
    };
    let c = digit_char((n % 10) as u8);
    s.push(c);
    s
}

/// The numeral of a digit.
fn digit_char(d: u8) -> (c: char)
    requires
        d < 10,
    ensures
        c == digit(d as nat),
{
    (48 + d) as char
}

/// Every character of `s` is a decimal digit.
pub open spec fn all_digits(s: Seq<char>) -> bool {
    forall|i: int| 0 <= i < s.len() ==> '0' <= #[trigger] s[i] <= '9'
}

/// The number that a sequence of decimal digits stands for.
pub open spec fn digits_value(s: Seq<char>) -> int
    decreases s.len(),
{
    if s.len() == 0 {
        0
    } else {
        digits_value(s.drop_last()) * 10 + (s.last() as int - '0' as int)
    }
}

/// The unsigned number written in `s`: an optional plus sign, then at least one decimal
/// digit and nothing else, and no more than the largest 64-bit number.
pub open spec fn parsed_u64(s: Seq<char>) -> Option<u64> {
    let digits = if s.len() > 0 && s[0] == '+' {
        s.drop_first()
    } else {
        s
    };
    if digits.len() > 0 && all_digits(digits) && digits_value(digits) <= u64::MAX {
        Some(digits_value(digits) as u64)
    } else {
        None
    }
}

/// The value of a run of digits is at least that of each of its beginnings.
proof fn lemma_digits_value_grows(s: Seq<char>, k: int)
    requires
        0 <= k <= s.len(),
        all_digits(s),
    ensures
        0 <= digits_value(s.take(k)) <= digits_value(s),
    decreases s.len(),
{
    if s.len() == 0 {
        assert(s.take(k) == s);
    } else if k == s.len() {
        assert(s.take(k) == s);
        lemma_digits_value_grows(s.drop_last(), 0);
        assert(s.drop_last().take(0) == Seq::<char>::empty());
    } else {
        lemma_digits_value_grows(s.drop_last(), k);
        assert(s.drop_last().take(k) == s.take(k));
    }
}

/// Reads an unsigned 64-bit number.
pub fn parse_u64(s: &str) -> (n: Option<u64>)
    ensures
        n == parsed_u64(s@),
{
    let chars = chars_of(s);
    let start: usize = if chars.len() > 0 && chars[0] == '+' {
        1
    } else {
        0
    };
    let ghost digits = if s@.len() > 0 && s@[0] == '+' {
        s@.drop_first()
    } else {
        s@
    };
    assert(digits == s@.skip(start as int));
    if start == chars.len() {
        return None;
    }
    let mut value: u64 = 0;
    let mut i: usize = start;
    assert(digits.take(0) == Seq::<char>::empty());
    while i < chars.len()
        invariant
            start <= i <= chars@.len(),
            chars@ == s@,
            digits == s@.skip(start as int),
            digits.len() > 0,
            parsed_u64(s@) == (if all_digits(digits) && digits_value(digits) <= u64::MAX {
                Some(digits_value(digits) as u64)
            } else {
                None
            }),
            all_digits(digits.take(i - start)),
            value == digits_value(digits.take(i - start)),
        decreases chars@.len() - i,
    {
        let c = chars[i];
        assert(digits[i - start] == c);
        if !('0' <= c && c <= '9') {
            return None;
        }
        let ghost before = digits.take(i - start);
        let ghost upto = digits.take(i - start + 1);
        assert(upto.drop_last() == before);
        assert(all_digits(upto)) by {
            assert forall|j: int| 0 <= j < upto.len() implies '0' <= #[trigger] upto[j] <= '9' by {
                if j < before.len() {
                    assert(upto[j] == before[j]);
                }
            }
        }
        let d: u64 = (c as u64) - 48;
        if value > u64::MAX / 10 || value * 10 > u64::MAX - d {
            proof {
                if all_digits(digits) {
                    lemma_digits_value_grows(digits, i - start + 1);
                }
            }
            return None;
        }
        value = value * 10 + d;
        i = i + 1;
    }
    assert(digits.take(digits.len() as int) == digits);
    Some(value)
}

/// A decimal numeral is made of digits and stands for the number it was made from.
pub proof fn lemma_decimal_value(n: nat)
    ensures
        decimal(n).len() > 0,
        all_digits(decimal(n)),
        digits_value(decimal(n)) == n,
    decreases n,
{
    let s = decimal(n);
    if n < 10 {
        assert(s.drop_last() == Seq::<char>::empty());
        assert(digits_value(s.drop_last()) == 0);
        assert(s.last() == digit(n));
    } else {
        let head = decimal(n / 10);
        lemma_decimal_value(n / 10);
        assert(s.drop_last() == head);
        assert(s.last() == digit(n % 10));
        assert forall|i: int| 0 <= i < s.len() implies '0' <= #[trigger] s[i] <= '9' by {
            if i < head.len() {
                assert(s[i] == head[i]);
            }
        }
    }
}

/// A number is read back from its decimal numeral.
pub proof fn law_decimal_round_trip(n: u64)
    ensures
        parsed_u64(decimal(n as nat)) == Some(n),
{
    lemma_decimal_value(n as nat);
    assert('0' <= decimal(n as nat)[0]);
}

// ---------------------------------------------------------------- laws

/// An optional string is there exactly where its text is, and the text is its own.
pub proof fn law_optional_text(s: String, t: &str)
    ensures
        text_of(Some(s)) == Some(s@),
        text_of(None) is None,
        str_of(Some(t)) == Some(t@),
        str_of(None) is None,
{
}

/// A text stands where it was put, whatever was put around it.
pub proof fn law_text_stands_where_put(before: Seq<char>, pat: Seq<char>, after: Seq<char>)
    ensures
        occurs_at(before + pat + after, pat, before.len() as int),
        contains_text(before + pat + after, pat),
{
    let s = before + pat + after;
    assert(s.subrange(before.len() as int, (before.len() + pat.len()) as int) =~= pat);
}

/// Where a text stands in another, that one is what comes before it, the text, and what comes
/// behind it; and a text that holds another can be taken apart so.
pub proof fn law_occurrence_splits(s: Seq<char>, pat: Seq<char>, i: int)
    ensures
        occurs_at(s, pat, i) <==> 0 <= i && i + pat.len() <= s.len() && s == s.take(i) + pat
            + s.skip(i + pat.len()),
        contains_text(s, pat) <==> exists|before: Seq<char>, after: Seq<char>|
            s == #[trigger] (before + pat + after),
{
    if 0 <= i && i + pat.len() <= s.len() {
        let middle = s.subrange(i, i + pat.len());
        assert(s =~= s.take(i) + middle + s.skip(i + pat.len()));
        let whole = s.take(i) + pat + s.skip(i + pat.len());
        assert(whole.subrange(i, i + pat.len()) =~= pat);
    }
    if contains_text(s, pat) {
        let k = choose|k: int| occurs_at(s, pat, k);
        assert(s =~= s.take(k) + pat + s.skip(k + pat.len()));
    }
    if exists|before: Seq<char>, after: Seq<char>| s == #[trigger] (before + pat + after) {
        let (before, after) = choose|before: Seq<char>, after: Seq<char>|
            s == #[trigger] (before + pat + after);
        law_text_stands_where_put(before, pat, after);
    }
}

/// Cutting a text at a character gives back what stood on either side of its first
/// occurrence, and fails exactly where the character is not in the text.
pub proof fn law_split_at_first(before: Seq<char>, c: char, after: Seq<char>)
    requires
        !before.contains(c),
    ensures
        split_once(before + seq![c] + after, c) == Some((before, after)),
        split_once(before, c) is None,
{
    let s = before + seq![c] + after;
    assert forall|i: int| 0 <= i < before.len() implies s[i] != c by {
        assert(s[i] == before[i]);
        assert(before.contains(before[i]));
    }
    assert(s[before.len() as int] == c);
    lemma_span_is(s, c, c, before.len() as int);
    assert(s.take(before.len() as int) =~= before);
    assert(s.skip(before.len() as int + 1) =~= after);
    assert forall|i: int| 0 <= i < before.len() implies before[i] != c by {
        assert(before.contains(before[i]));
    }
    lemma_span_is(before, c, c, before.len() as int);
}

/// A cut text has as many characters as it may have, and they are the first of the text.
pub proof fn law_cut_is_beginning(s: Seq<char>, n: nat)
    ensures
        truncated(s, n).len() == (if s.len() < n {
            s.len()
        } else {
            n
        }),
        forall|i: int| 0 <= i < s.len() && i < n ==> truncated(s, n)[i] == #[trigger] s[i],
        truncated(s, n).is_prefix_of(s),
{
}

/// White space is made of twenty-five code points.
pub proof fn law_white_code_points(c: char)
    ensures
        is_white(c) <==> {
            let point = c as int;
            ||| point == 9 || point == 10 || point == 11 || point == 12 || point == 13
            ||| point == 32 || point == 133 || point == 160 || point == 5760
            ||| 8192 <= point < 8192 + 11
            ||| point == 8232 || point == 8233 || point == 8239 || point == 8287 || point == 12288
        },
{
}

/// White space before a text is taken off at the start.
proof fn lemma_start_drops(left: Seq<char>, rest: Seq<char>)
    requires
        forall|i: int| 0 <= i < left.len() ==> is_white(left[i]),
    ensures
        trimmed_start(left + rest) == trimmed_start(rest),
    decreases left.len(),
{
    if left.len() > 0 {
        assert((left + rest).drop_first() =~= left.drop_first() + rest);
        lemma_start_drops(left.drop_first(), rest);
    } else {
        assert(left + rest =~= rest);
    }
}

/// White space behind a text is taken off at the end.
proof fn lemma_end_drops(rest: Seq<char>, right: Seq<char>)
    requires
        forall|i: int| 0 <= i < right.len() ==> is_white(right[i]),
    ensures
        trimmed_end(rest + right) == trimmed_end(rest),
    decreases right.len(),
{
    if right.len() > 0 {
        assert((rest + right).drop_last() =~= rest + right.drop_last());
        lemma_end_drops(rest, right.drop_last());
    } else {
        assert(rest + right =~= rest);
    }
}

/// Trimming gives back what white space was put around, as long as that does not start or end
/// with white space itself.
pub proof fn law_trimmed_is_core(left: Seq<char>, core: Seq<char>, right: Seq<char>)
    requires
        forall|i: int| 0 <= i < left.len() ==> is_white(left[i]),
        forall|i: int| 0 <= i < right.len() ==> is_white(right[i]),
        core.len() > 0 ==> !is_white(core.first()) && !is_white(core.last()),
    ensures
        trimmed(left + core + right) == core,
{
    assert(left + core + right =~= left + (core + right));
    lemma_start_drops(left, core + right);
    if core.len() == 0 {
        let none = Seq::<char>::empty();
        assert(core + right =~= right + none);
        lemma_start_drops(right, none);
        assert(trimmed(left + core + right) =~= core);
    } else {
        lemma_end_drops(core, right);
    }
}

/// A trimmed text is a part of the text with nothing but white space before and behind it, and
/// neither starts nor ends with white space.
pub proof fn law_trimmed_bounds(s: Seq<char>) -> (bounds: (int, int))
    ensures
        0 <= bounds.0 <= bounds.1 <= s.len(),
        trimmed(s) == s.subrange(bounds.0, bounds.1),
        forall|i: int| 0 <= i < bounds.0 || bounds.1 <= i < s.len() ==> is_white(#[trigger] s[i]),
        trimmed(s).len() > 0 ==> !is_white(trimmed(s).first()) && !is_white(trimmed(s).last()),
{
    let start = lemma_start_bound(s);
    let rest = s.skip(start);
    let end = lemma_end_bound(rest);
    assert(trimmed(s) =~= s.subrange(start, start + end));
    assert forall|i: int| 0 <= i < start || start + end <= i < s.len() implies is_white(
        #[trigger] s[i],
    ) by {
        if i >= start {
            assert(s[i] == rest[i - start]);
        }
    }
    if trimmed(s).len() > 0 {
        assert(trimmed(s).first() == rest.first());
    }
    (start, start + end)
}

/// Where a text starts when the white space at its start is taken off.
proof fn lemma_start_bound(s: Seq<char>) -> (start: int)
    ensures
        0 <= start <= s.len(),
        trimmed_start(s) == s.skip(start),
        forall|i: int| 0 <= i < start ==> is_white(#[trigger] s[i]),
        start < s.len() ==> !is_white(s[start]),
    decreases s.len(),
{
    if s.len() > 0 && is_white(s.first()) {
        let tail = s.drop_first();
        let k = lemma_start_bound(tail);
        assert(tail.skip(k) =~= s.skip(k + 1));
        assert forall|i: int| 0 <= i < k + 1 implies is_white(#[trigger] s[i]) by {
            if i > 0 {
                assert(s[i] == tail[i - 1]);
            }
        }
        k + 1
    } else {
        assert(s.skip(0) =~= s);
        0
    }
}

/// Where a text ends when the white space at its end is taken off.
proof fn lemma_end_bound(s: Seq<char>) -> (end: int)
    ensures
        0 <= end <= s.len(),
        trimmed_end(s) == s.take(end),
        forall|i: int| end <= i < s.len() ==> is_white(#[trigger] s[i]),
        end > 0 ==> !is_white(s[end - 1]),
    decreases s.len(),
{
    if s.len() > 0 && is_white(s.last()) {
        let head = s.drop_last();
        let k = lemma_end_bound(head);
        assert(head.take(k) =~= s.take(k));
        assert forall|i: int| k <= i < s.len() implies is_white(#[trigger] s[i]) by {
            if i < head.len() {
                assert(s[i] == head[i]);
            }
        }
        k
    } else {
        assert(s.take(s.len() as int) =~= s);
        s.len() as int
    }
}

/// One more digit makes a number ten times as large and adds the digit; no digits are nothing.
pub proof fn law_digit_is_worth_its_place(s: Seq<char>, d: int)
    requires
        0 <= d < 10,
    ensures
        digits_value(s.push((48 + d) as char)) == 10 * digits_value(s) + d,
        digits_value(Seq::empty()) == 0,
{
    let longer = s.push((48 + d) as char);
    assert(longer.drop_last() =~= s);
}

/// A run of digits is read as its number where that has 64 bits and is refused where it has
/// more; a plus sign before it changes nothing, and any other character spoils it.
pub proof fn law_number_is_read(s: Seq<char>)
    ensures
        s.len() > 0 && (forall|i: int| 0 <= i < s.len() ==> 48 <= (#[trigger] s[i]) as int <= 57)
            ==> {
            &&& digits_value(s) <= u64::MAX ==> parsed_u64(s) == Some(digits_value(s) as u64)
            &&& digits_value(s) > u64::MAX ==> parsed_u64(s) is None
            &&& parsed_u64(seq!['+'] + s) == parsed_u64(s)
        },
        (exists|i: int|
            0 <= i < s.len() && !(48 <= (#[trigger] s[i]) as int <= 57) && !(i == 0 && s[i] == '+'))
            ==> parsed_u64(s) is None,
        parsed_u64(Seq::empty()) is None,
        parsed_u64(seq!['+']) is None,
{
    if s.len() > 0 && (forall|i: int|
        0 <= i < s.len() ==> 48 <= (#[trigger] s[i]) as int <= 57) {
        assert(all_digits(s));
        assert(s[0] != '+');
        assert((seq!['+'] + s).drop_first() =~= s);
    }
    if exists|i: int|
        0 <= i < s.len() && !(48 <= (#[trigger] s[i]) as int <= 57) && !(i == 0 && s[i] == '+') {
        let i = choose|i: int|
            0 <= i < s.len() && !(48 <= (#[trigger] s[i]) as int <= 57) && !(i == 0 && s[i] == '+');
        if s[0] == '+' {
            assert(s.drop_first()[i - 1] == s[i]);
            assert(!all_digits(s.drop_first()));
        } else {
            assert(!all_digits(s));
        }
    }
    assert(seq!['+'].drop_first() =~= Seq::<char>::empty());
}

/// A decimal numeral has no leading zero, and two numbers never have the same numeral.
pub proof fn law_numerals_differ(n: nat, m: nat)
    ensures
        n > 0 ==> decimal(n)[0] != '0',
        decimal(0) == seq!['0'],
        decimal(n) == decimal(m) ==> n == m,
    decreases n,
{
    lemma_decimal_value(n);
    lemma_decimal_value(m);
    if n >= 10 {
        law_numerals_differ(n / 10, m);
        lemma_decimal_value(n / 10);
        assert(decimal(n)[0] == decimal(n / 10)[0]);
    }
}

} // verus!
