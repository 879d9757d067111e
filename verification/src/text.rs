//! Character-level rules shared by the field decoders: whitespace, trimming,
//! decimal digits and substring search, each with its mathematical definition.

use vstd::prelude::*;

verus! {

/// Whether `c` is white space: the code points with the Unicode property
/// `White_Space`.
pub open spec fn is_whitespace(c: char) -> bool {
    let u = c as int;
    ||| 0x09 <= u <= 0x0D
    ||| u == 0x20
    ||| u == 0x85
    ||| u == 0xA0
    ||| u == 0x1680
    ||| 0x2000 <= u <= 0x200A
    ||| u == 0x2028
    ||| u == 0x2029
    ||| u == 0x202F
    ||| u == 0x205F
    ||| u == 0x3000
}

/// `text` without its leading white space.
pub open spec fn trim_start(text: Seq<char>) -> Seq<char>
    decreases text.len(),
{
    if text.len() > 0 && is_whitespace(text.first()) {
        trim_start(text.drop_first())
    } else {
        text
    }
}

/// `text` without its trailing white space.
pub open spec fn trim_end(text: Seq<char>) -> Seq<char>
    decreases text.len(),
{
    if text.len() > 0 && is_whitespace(text.last()) {
        trim_end(text.drop_last())
    } else {
        text
    }
}

/// `text` without leading and trailing white space.
pub open spec fn trim(text: Seq<char>) -> Seq<char> {
    trim_end(trim_start(text))
}

/// Whether `c` is one of the ten decimal digits `0` to `9`.
pub open spec fn is_digit(c: char) -> bool {
    '0' <= c <= '9'
}

/// The number that the decimal digit `c` stands for.
pub open spec fn digit_value(c: char) -> nat {
    (c as int - '0' as int) as nat
}

/// The number written by a sequence of decimal digits, most significant first.
/// The empty sequence writes 0.
pub open spec fn decimal_value(digits: Seq<char>) -> nat
    decreases digits.len(),
{
    if digits.len() == 0 {
        0
    } else {
        10 * decimal_value(digits.drop_last()) + digit_value(digits.last())
    }
}

/// The test for decimal digits, as a predicate on characters.
pub open spec fn digit_test() -> spec_fn(char) -> bool {
    |c: char| is_digit(c)
}

/// The decimal digits of `text`, in order, everything else dropped.
pub open spec fn digits_of(text: Seq<char>) -> Seq<char> {
    text.filter(digit_test())
}

/// The number that is left of `text` when every character but the decimal
/// digits is dropped: `None` when no digit is left or the number exceeds `limit`.
/// A sign is not a digit, so `-5` reads as 5.
pub open spec fn digit_strip_value(text: Seq<char>, limit: nat) -> Option<nat> {
    let digits = digits_of(text);
    if digits.len() > 0 && decimal_value(digits) <= limit {
        Some(decimal_value(digits))
    } else {
        None
    }
}

/// Whether every character of `text` is a decimal digit.
pub open spec fn all_digits(text: Seq<char>) -> bool {
    forall|i: int| 0 <= i < text.len() ==> is_digit(#[trigger] text[i])
}

/// `text` without one leading plus sign, if it has one.
pub open spec fn unsigned_digits(text: Seq<char>) -> Seq<char> {
    if text.len() > 0 && text.first() == '+' {
        text.drop_first()
    } else {
        text
    }
}

/// The number that `text` writes as an unsigned decimal: an optional plus sign,
/// then one or more decimal digits and nothing else. `None` when `text` has
/// another shape or the number exceeds `limit`.
pub open spec fn unsigned_value(text: Seq<char>, limit: nat) -> Option<nat> {
    let digits = unsigned_digits(text);
    if digits.len() > 0 && all_digits(digits) && decimal_value(digits) <= limit {
        Some(decimal_value(digits))
    } else {
        None
    }
}

/// Whether `pattern` occurs in `text` as a run of consecutive characters.
pub open spec fn has_substring(text: Seq<char>, pattern: Seq<char>) -> bool {
    exists|k: int| occurs_at(text, pattern, k)
}

/// Whether `pattern` occurs in `text` starting at position `k`.
pub open spec fn occurs_at(text: Seq<char>, pattern: Seq<char>, k: int) -> bool {
    &&& 0 <= k
    &&& k + pattern.len() <= text.len()
    &&& text.subrange(k, k + pattern.len()) == pattern
}

/// Whether `c` is white space.
pub fn is_whitespace_char(c: char) -> (b: bool)
    ensures
        b == is_whitespace(c),
{
    let u: u32 = c as u32;
    (0x09 <= u && u <= 0x0D) || u == 0x20 || u == 0x85 || u == 0xA0 || u == 0x1680 || (0x2000 <= u
        && u <= 0x200A) || u == 0x2028 || u == 0x2029 || u == 0x202F || u == 0x205F || u == 0x3000
}

/// Whether `c` is a decimal digit.
pub fn is_digit_char(c: char) -> (b: bool)
    ensures
        b == is_digit(c),
{
    '0' <= c && c <= '9'
}

/// The characters of `text`, one by one.
pub fn to_chars(text: &str) -> (chars: Vec<char>)
    ensures
        chars@ == text@,
{
    let mut chars: Vec<char> = Vec::new();
    for c in it: text.chars()
        invariant
            it.seq() == text@,
            chars@ == it.seq().take(it.index()),
    {
        chars.push(c);
    }
    chars
}

/// Where the trimmed part of `chars` starts and ends.
fn trim_bounds(chars: &Vec<char>) -> (bounds: (usize, usize))
    ensures
        bounds.0 <= bounds.1 <= chars.len(),
        chars@.subrange(bounds.0 as int, bounds.1 as int) == trim(chars@),
{
    let n = chars.len();
    let mut lo: usize = 0;
    assert(chars@.subrange(0, n as int) =~= chars@);
    while lo < n && is_whitespace_char(chars[lo])
        invariant
            lo <= n == chars.len(),
            trim_start(chars@) == trim_start(chars@.subrange(lo as int, n as int)),
        decreases n - lo,
    {
        assert(chars@.subrange(lo as int, n as int).drop_first() =~= chars@.subrange(
            lo + 1,
            n as int,
        ));
        lo += 1;
    }
    let mut hi: usize = n;
    while hi > lo && is_whitespace_char(chars[hi - 1])
        invariant
            lo <= hi <= n == chars.len(),
            trim_end(chars@.subrange(lo as int, n as int)) == trim_end(
                chars@.subrange(lo as int, hi as int),
            ),
        decreases hi - lo,
    {
        assert(chars@.subrange(lo as int, hi as int).drop_last() =~= chars@.subrange(
            lo as int,
            hi - 1,
        ));
        hi -= 1;
    }
    (lo, hi)
}

/// `text` without leading and trailing white space.
pub fn trim_text<'a>(text: &'a str) -> (trimmed: &'a str)
    ensures
        trimmed@ == trim(text@),
{
    let chars = to_chars(text);
    let (lo, hi) = trim_bounds(&chars);
    text.substring_char(lo, hi)
}

/// A sequence of decimal digits is what is left of itself when everything but
/// the digits is dropped.
pub proof fn lemma_digits_of_digits(digits: Seq<char>)
    requires
        all_digits(digits),
    ensures
        digits_of(digits) == digits,
    decreases digits.len(),
{
    if digits.len() == 0 {
        reveal(Seq::filter);
    } else {
        lemma_digits_of_digits(digits.drop_last());
        digits.drop_last().lemma_filter_push(digits.last(), digit_test());
        assert(digits.drop_last().push(digits.last()) =~= digits);
    }
}

/// Digit stripping drops what is no digit: a character that is no decimal
/// digit, such as a sign or a unit, changes nothing wherever it stands.
pub proof fn lemma_other_characters_are_dropped(
    before: Seq<char>,
    other: char,
    after: Seq<char>,
    limit: nat,
)
    requires
        !is_digit(other),
    ensures
        digits_of(before.push(other) + after) == digits_of(before + after),
        digit_strip_value(before.push(other) + after, limit) == digit_strip_value(
            before + after,
            limit,
        ),
{
    Seq::filter_distributes_over_add(before.push(other), after, digit_test());
    Seq::filter_distributes_over_add(before, after, digit_test());
    before.lemma_filter_push(other, digit_test());
}

/// The number left of `chars` from position `start` on when everything but the
/// decimal digits is dropped, if there is a digit and the number is at most
/// `limit`.
fn strip_from(chars: &Vec<char>, start: usize, limit: u32) -> (value: Option<u32>)
    requires
        start <= chars.len(),
    ensures
        digit_strip_value(chars@.subrange(start as int, chars.len() as int), limit as nat)
            == match value {
            Some(v) => Some(v as nat),
            None => None,
        },
{
    let n = chars.len();
    let mut seen = false;
    let mut over = false;
    let mut acc: u32 = 0;
    let mut i: usize = start;
    proof {
        reveal(Seq::filter);
        assert(chars@.subrange(start as int, start as int) =~= Seq::<char>::empty());
    }
    while i < n
        invariant
            start <= i <= n == chars.len(),
            seen == (digits_of(chars@.subrange(start as int, i as int)).len() > 0),
            !over ==> acc == decimal_value(digits_of(chars@.subrange(start as int, i as int)))
                && acc <= limit,
            over ==> decimal_value(digits_of(chars@.subrange(start as int, i as int))) > limit,
        decreases n - i,
    {
        let c = chars[i];
        proof {
            let prefix = chars@.subrange(start as int, i as int);
            prefix.lemma_filter_push(c, digit_test());
            assert(prefix.push(c) =~= chars@.subrange(start as int, i + 1));
            assert(digits_of(prefix).push(c).drop_last() =~= digits_of(prefix));
        }
        if is_digit_char(c) {
            seen = true;
            if !over {
                let next: u64 = acc as u64 * 10 + (c as u32 - '0' as u32) as u64;
                if next > limit as u64 {
                    over = true;
                } else {
                    acc = next as u32;
                }
            }
        }
        i += 1;
    }
    if seen && !over {
        Some(acc)
    } else {
        None
    }
}

/// Reads the number that is left of `text` when every character but the
/// decimal digits is dropped. Returns `None` when `text` holds no digit or the
/// number exceeds `limit`. Signs and units are dropped with the rest, so
/// `-5°` reads as 5.
pub fn extract_digits(text: &str, limit: u32) -> (value: Option<u32>)
    ensures
        digit_strip_value(text@, limit as nat) == match value {
            Some(v) => Some(v as nat),
            None => None,
        },
{
    let chars = to_chars(text);
    assert(chars@.subrange(0, chars.len() as int) =~= text@);
    strip_from(&chars, 0, limit)
}

/// Reads `text` as an unsigned decimal number: an optional plus sign, then one
/// or more decimal digits and nothing else. Returns `None` when `text` has
/// another shape or the number exceeds `limit`.
pub fn parse_unsigned(text: &str, limit: u32) -> (value: Option<u32>)
    ensures
        unsigned_value(text@, limit as nat) == match value {
            Some(v) => Some(v as nat),
            None => None,
        },
{
    let chars = to_chars(text);
    let n = chars.len();
    let start: usize = if n > 0 && chars[0] == '+' {
        1
    } else {
        0
    };
    let ghost digits = chars@.subrange(start as int, n as int);
    assert(digits =~= unsigned_digits(text@));
    if start == n {
        return None;
    }
    let mut i: usize = start;
    while i < n
        invariant
            start <= i <= n == chars.len(),
            digits == chars@.subrange(start as int, n as int),
            digits == unsigned_digits(text@),
            forall|k: int| 0 <= k < i - start ==> is_digit(#[trigger] digits[k]),
        decreases n - i,
    {
        if !is_digit_char(chars[i]) {
            assert(!is_digit(digits[i - start]));
            return None;
        }
        i += 1;
    }
    proof {
        lemma_digits_of_digits(digits);
    }
    strip_from(&chars, start, limit)
}

/// Whether `pattern` occurs in `text` at position `k`.
fn matches_at(text: &Vec<char>, pattern: &Vec<char>, k: usize) -> (found: bool)
    requires
        k + pattern.len() <= text.len(),
    ensures
        found == occurs_at(text@, pattern@, k as int),
{
    let m = pattern.len();
    let mut j: usize = 0;
    while j < m && text[k + j] == pattern[j]
        invariant
            j <= m == pattern.len(),
            k + m <= text.len(),
            forall|t: int| 0 <= t < j ==> text[k + t] == pattern[t],
        decreases m - j,
    {
        j += 1;
    }
    if j == m {
        assert(text@.subrange(k as int, k + m) =~= pattern@);
        true
    } else {
        assert(text@.subrange(k as int, k + m)[j as int] != pattern@[j as int]);
        false
    }
}

/// Whether `pattern` occurs in `text`.
pub fn contains_chars(text: &Vec<char>, pattern: &Vec<char>) -> (found: bool)
    ensures
        found == has_substring(text@, pattern@),
{
    let n = text.len();
    let m = pattern.len();
    if m > n {
        return false;
    }
    let last = n - m;
    let mut k: usize = 0;
    while k < last
        invariant
            k <= last,
            last + pattern.len() == text.len(),
            forall|j: int| 0 <= j < k ==> !occurs_at(text@, pattern@, j),
        decreases last - k,
    {
        if matches_at(text, pattern, k) {
            return true;
        }
        k += 1;
    }
    matches_at(text, pattern, last)
}

} // verus!
