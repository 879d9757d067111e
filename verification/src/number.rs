//! Numbers in text: which texts write a real number in decimal notation.

use vstd::prelude::*;
use crate::text::{all_digits, is_digit, is_digit_char, to_chars};

verus! {

/// Whether `c` is a plus or a minus sign.
pub open spec fn is_sign(c: char) -> bool {
    c == '+' || c == '-'
}

/// `text` without one leading sign, if it has one.
pub open spec fn without_sign(text: Seq<char>) -> Seq<char> {
    if text.len() > 0 && is_sign(text.first()) {
        text.drop_first()
    } else {
        text
    }
}

/// Whether `c` is the small letter `letter` or its capital.
pub open spec fn is_letter(c: char, letter: char) -> bool {
    c == letter || c as int + 32 == letter as int
}

/// Whether `text` spells `word`, a word of small letters, in small or capital
/// letters.
pub open spec fn spells(text: Seq<char>, word: Seq<char>) -> bool {
    &&& text.len() == word.len()
    &&& forall|i: int| 0 <= i < word.len() ==> is_letter(#[trigger] text[i], word[i])
}

/// The words that write a number which is no decimal: infinity, in a short
/// and a long form, and not-a-number.
pub open spec fn is_special(text: Seq<char>) -> bool {
    ||| spells(text, seq!['i', 'n', 'f'])
    ||| spells(text, seq!['i', 'n', 'f', 'i', 'n', 'i', 't', 'y'])
    ||| spells(text, seq!['n', 'a', 'n'])
}

/// Whether `text` is a mantissa with a decimal point at position `point`:
/// digits, the point, digits, with a digit on at least one side.
pub open spec fn is_pointed(text: Seq<char>, point: int) -> bool {
    &&& 0 <= point < text.len()
    &&& text[point] == '.'
    &&& text.len() >= 2
    &&& all_digits(text.subrange(0, point))
    &&& all_digits(text.subrange(point + 1, text.len() as int))
}

/// Whether `text` is a mantissa: one or more digits, with a decimal point
/// before, among or after them, or without one.
pub open spec fn is_mantissa(text: Seq<char>) -> bool {
    ||| text.len() > 0 && all_digits(text)
    ||| exists|point: int| is_pointed(text, point)
}

/// Whether `text` is an exponent: the letter `e`, small or capital, an
/// optional sign, and one or more digits.
pub open spec fn is_exponent(text: Seq<char>) -> bool {
    &&& text.len() > 0
    &&& is_letter(text.first(), 'e')
    &&& without_sign(text.drop_first()).len() > 0
    &&& all_digits(without_sign(text.drop_first()))
}

/// Whether `text` is a mantissa up to position `end` and from there on
/// nothing, or an exponent.
pub open spec fn is_decimal_split(text: Seq<char>, end: int) -> bool {
    &&& 0 <= end <= text.len()
    &&& is_mantissa(text.subrange(0, end))
    &&& (end == text.len() || is_exponent(text.subrange(end, text.len() as int)))
}

/// Whether `text` is a decimal: a mantissa, then optionally an exponent.
pub open spec fn is_decimal(text: Seq<char>) -> bool {
    exists|end: int| is_decimal_split(text, end)
}

/// Whether `text` writes a real number: an optional sign, then a decimal or
/// one of the words for infinity and not-a-number, and nothing else. This is
/// the notation that the standard library reads floating-point numbers from.
pub open spec fn real_number(text: Seq<char>) -> bool {
    is_special(without_sign(text)) || is_decimal(without_sign(text))
}

/// Whether `c` is the small letter `letter` or its capital.
fn is_letter_char(c: char, letter: char) -> (same: bool)
    requires
        'a' <= letter <= 'z',
    ensures
        same == is_letter(c, letter),
{
    c == letter || c as u32 + 32 == letter as u32
}

/// Whether `chars` from position `from` on spell `word`.
fn spells_from(chars: &Vec<char>, from: usize, word: &Vec<char>) -> (same: bool)
    requires
        from <= chars.len(),
        forall|i: int| 0 <= i < word.len() ==> 'a' <= #[trigger] word[i] <= 'z',
    ensures
        same == spells(chars@.subrange(from as int, chars.len() as int), word@),
{
    let ghost text = chars@.subrange(from as int, chars.len() as int);
    if chars.len() - from != word.len() {
        return false;
    }
    let mut i: usize = 0;
    while i < word.len()
        invariant
            i <= word.len(),
            from + word.len() == chars.len(),
            text == chars@.subrange(from as int, chars.len() as int),
            forall|j: int| 0 <= j < word.len() ==> 'a' <= #[trigger] word[j] <= 'z',
            forall|j: int| 0 <= j < i ==> is_letter(#[trigger] text[j], word[j]),
        decreases word.len() - i,
    {
        if !is_letter_char(chars[from + i], word[i]) {
            assert(!is_letter(text[i as int], word[i as int]));
            return false;
        }
        i += 1;
    }
    true
}

/// Where the digits that start at position `from` of `chars` end.
fn digits_end(chars: &Vec<char>, from: usize) -> (end: usize)
    requires
        from <= chars.len(),
    ensures
        from <= end <= chars.len(),
        forall|i: int| from <= i < end ==> is_digit(#[trigger] chars[i]),
        end == chars.len() || !is_digit(chars[end as int]),
{
    let mut end: usize = from;
    while end < chars.len() && is_digit_char(chars[end])
        invariant
            from <= end <= chars.len(),
            forall|i: int| from <= i < end ==> is_digit(#[trigger] chars[i]),
        decreases chars.len() - end,
    {
        end += 1;
    }
    end
}

/// Whether `chars` from position `from` on are an exponent.
fn exponent_from(chars: &Vec<char>, from: usize) -> (valid: bool)
    requires
        from <= chars.len(),
    ensures
        valid == is_exponent(chars@.subrange(from as int, chars.len() as int)),
{
    let n = chars.len();
    let ghost text = chars@.subrange(from as int, n as int);
    if from == n || !is_letter_char(chars[from], 'e') {
        return false;
    }
    let signed = from + 1 < n && (chars[from + 1] == '+' || chars[from + 1] == '-');
    let first: usize = if signed {
        from + 2
    } else {
        from + 1
    };
    let ghost digits = chars@.subrange(first as int, n as int);
    assert(text.drop_first() =~= chars@.subrange(from + 1, n as int));
    assert(without_sign(text.drop_first()) =~= digits);
    let end = digits_end(chars, first);
    if first < n && end == n {
        assert(all_digits(digits));
        true
    } else {
        if first < n {
            assert(!is_digit(digits[end - first]));
        }
        false
    }
}

/// Whether `chars` from position `from` on are a decimal.
fn decimal_from(chars: &Vec<char>, from: usize) -> (valid: bool)
    requires
        from <= chars.len(),
    ensures
        valid == is_decimal(chars@.subrange(from as int, chars.len() as int)),
{
    let n = chars.len();
    let ghost text = chars@.subrange(from as int, n as int);
    let whole = digits_end(chars, from);
    let pointed = whole < n && chars[whole] == '.';
    let end: usize = if pointed {
        digits_end(chars, whole + 1)
    } else {
        whole
    };
    let digit_count: usize = if pointed {
        (whole - from) + (end - (whole + 1))
    } else {
        whole - from
    };
    let found = digit_count > 0 && (end == n || exponent_from(chars, end));
    proof {
        let mantissa = text.subrange(0, end - from);
        assert(text.subrange(end - from, text.len() as int) =~= chars@.subrange(
            end as int,
            n as int,
        ));
        if found {
            if pointed {
                assert(is_pointed(mantissa, whole - from));
            } else {
                assert(all_digits(mantissa));
            }
            assert(is_decimal_split(text, end - from));
        } else {
            assert forall|other: int| !is_decimal_split(text, other) by {
                if is_decimal_split(text, other) {
                    let candidate = text.subrange(0, other);
                    if other < text.len() {
                        let rest = text.subrange(other, text.len() as int);
                        assert(is_letter(rest[0], 'e'));
                        assert(rest[0] == text[other]);
                        assert(!is_digit(text[other]) && text[other] != '.');
                    }
                    if candidate.len() > 0 && all_digits(candidate) {
                        assert forall|i: int| 0 <= i < other implies is_digit(text[i]) by {
                            assert(candidate[i] == text[i]);
                        }
                        if whole - from < other {
                            assert(is_digit(text[whole - from]));
                            assert(text[whole - from] == chars[whole as int]);
                        }
                        assert(other == end - from);
                    } else {
                        let point = choose|point: int| is_pointed(candidate, point);
                        let before = candidate.subrange(0, point);
                        let after = candidate.subrange(point + 1, candidate.len() as int);
                        assert forall|i: int| 0 <= i < point implies is_digit(text[i]) by {
                            assert(before[i] == text[i]);
                        }
                        assert forall|i: int| point < i < other implies is_digit(text[i]) by {
                            assert(after[i - point - 1] == text[i]);
                        }
                        assert(candidate[point] == text[point]);
                        if whole - from < point {
                            assert(is_digit(text[whole - from]));
                            assert(text[whole - from] == chars[whole as int]);
                        }
                        if point < whole - from {
                            assert(text[point] == chars[from + point]);
                        }
                        assert(point == whole - from);
                        if end - from < other {
                            assert(is_digit(text[end - from]));
                            assert(text[end - from] == chars[end as int]);
                        }
                        assert(other == end - from);
                    }
                }
            }
        }
    }
    found
}

/// Tells whether `text` writes a real number: an optional sign, then a
/// decimal such as `2.5`, `.5`, `3.` or `1e-3`, or one of the words `inf`,
/// `infinity` and `nan` in small or capital letters, and nothing else.
pub fn is_real_number(text: &str) -> (valid: bool)
    ensures
        valid == real_number(text@),
{
    let chars = to_chars(text);
    let n = chars.len();
    let from: usize = if n > 0 && (chars[0] == '+' || chars[0] == '-') {
        1
    } else {
        0
    };
    assert(chars@.subrange(from as int, n as int) =~= without_sign(text@));
    let short = to_chars("inf");
    let long = to_chars("infinity");
    let none = to_chars("nan");
    proof {
        reveal_strlit("inf");
        reveal_strlit("infinity");
        reveal_strlit("nan");
        assert(short@ =~= seq!['i', 'n', 'f']);
        assert(long@ =~= seq!['i', 'n', 'f', 'i', 'n', 'i', 't', 'y']);
        assert(none@ =~= seq!['n', 'a', 'n']);
    }
    spells_from(&chars, from, &short) || spells_from(&chars, from, &long) || spells_from(
        &chars,
        from,
        &none,
    ) || decimal_from(&chars, from)
}

} // verus!
