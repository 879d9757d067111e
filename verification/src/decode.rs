//! The decoding rules: what one matched cell of the page says about one field.

use vstd::prelude::*;
use crate::number::{is_real_number, real_number};
use crate::text::{
    contains_chars, digit_strip_value, extract_digits, has_substring, is_whitespace, occurs_at,
    parse_unsigned, to_chars, trim, trim_text, unsigned_value,
};

verus! {

/// The hour that a label of the hourly header stands for. A label writes hour
/// and minutes as one number, `200` for two o'clock: the hour is that number
/// divided by 100.
pub open spec fn hour_of(label: Seq<char>) -> Option<nat> {
    match unsigned_value(trim(label), u32::MAX as nat) {
        Some(number) => Some(number / 100),
        None => None,
    }
}

/// The degrees that a temperature cell shows: the number its digits write.
/// Sign and unit are dropped with all that is no digit.
pub open spec fn degrees_of(cell: Seq<char>) -> Option<int> {
    match digit_strip_value(cell, i8::MAX as nat) {
        Some(number) => Some(number as int),
        None => None,
    }
}

/// The percentage that a probability cell shows: the number its digits write.
pub open spec fn percent_of(cell: Seq<char>) -> Option<nat> {
    digit_strip_value(cell, u8::MAX as nat)
}

/// The speed that a wind cell shows: its trimmed text, read as a number.
pub open spec fn speed_of(cell: Seq<char>) -> Option<nat> {
    unsigned_value(trim(cell), u8::MAX as nat)
}

/// The compass bearing that a wind-direction cell shows: its trimmed text.
pub open spec fn direction_of(cell: Seq<char>) -> Seq<char> {
    trim(cell)
}

/// The amount that a precipitation cell shows. A cell that is empty but for
/// white space shows none, which is `Some(None)`. Any other cell shows its
/// trimmed text if that writes a real number, and else does not decode, which
/// is `None`.
pub open spec fn amount_of(cell: Seq<char>) -> Option<Option<Seq<char>>> {
    if trim(cell).len() == 0 {
        Some(None)
    } else if real_number(trim(cell)) {
        Some(Some(trim(cell)))
    } else {
        None
    }
}

/// The marker of a night icon.
pub open spec fn night_marker() -> Seq<char> {
    seq!['n', 'i', 'g', 'h', 't']
}

/// Whether positions `start` to `end` of `class` hold one class token: a
/// longest run of characters that are no white space.
pub open spec fn is_token(class: Seq<char>, start: int, end: int) -> bool {
    &&& 0 <= start < end <= class.len()
    &&& forall|i: int| start <= i < end ==> !is_whitespace(#[trigger] class[i])
    &&& (start == 0 || is_whitespace(class[start - 1]))
    &&& (end == class.len() || is_whitespace(class[end]))
}

/// Whether a class attribute marks a night icon: one of its tokens contains
/// the night marker.
pub open spec fn night_of(class: Seq<char>) -> bool {
    exists|start: int, end: int|
        #![trigger class.subrange(start, end)]
        is_token(class, start, end) && has_substring(class.subrange(start, end), night_marker())
}

/// Where the run of characters that are no white space and holds position `k`
/// starts.
spec fn run_start(class: Seq<char>, k: int) -> int
    decreases k,
{
    if k <= 0 || is_whitespace(class[k - 1]) {
        k
    } else {
        run_start(class, k - 1)
    }
}

/// Where the run of characters that are no white space and ends before
/// position `k`, or goes on from it, ends.
spec fn run_end(class: Seq<char>, k: int) -> int
    decreases class.len() - k,
{
    if k >= class.len() || is_whitespace(class[k]) {
        k
    } else {
        run_end(class, k + 1)
    }
}

proof fn lemma_run_start(class: Seq<char>, k: int)
    requires
        0 <= k <= class.len(),
    ensures
        0 <= run_start(class, k) <= k,
        run_start(class, k) == 0 || is_whitespace(class[run_start(class, k) - 1]),
        forall|i: int| run_start(class, k) <= i < k ==> !is_whitespace(#[trigger] class[i]),
    decreases k,
{
    if !(k <= 0 || is_whitespace(class[k - 1])) {
        lemma_run_start(class, k - 1);
    }
}

proof fn lemma_run_end(class: Seq<char>, k: int)
    requires
        0 <= k <= class.len(),
    ensures
        k <= run_end(class, k) <= class.len(),
        run_end(class, k) == class.len() || is_whitespace(class[run_end(class, k)]),
        forall|i: int| k <= i < run_end(class, k) ==> !is_whitespace(#[trigger] class[i]),
    decreases class.len() - k,
{
    if !(k >= class.len() || is_whitespace(class[k])) {
        lemma_run_end(class, k + 1);
    }
}

/// A class attribute marks a night icon exactly if the night marker occurs
/// anywhere in it: the marker holds no white space, so wherever it occurs it
/// lies within one token.
pub proof fn lemma_night_anywhere(class: Seq<char>)
    ensures
        night_of(class) == has_substring(class, night_marker()),
{
    let marker = night_marker();
    if night_of(class) {
        let (start, end) = choose|start: int, end: int|
            #![trigger class.subrange(start, end)]
            is_token(class, start, end) && has_substring(class.subrange(start, end), marker);
        let token = class.subrange(start, end);
        let k = choose|k: int| occurs_at(token, marker, k);
        assert(class.subrange(start + k, start + k + marker.len()) =~= token.subrange(
            k,
            k + marker.len(),
        ));
        assert(occurs_at(class, marker, start + k));
    }
    if has_substring(class, marker) {
        let k = choose|k: int| occurs_at(class, marker, k);
        let start = run_start(class, k);
        let end = run_end(class, k + 5);
        lemma_run_start(class, k);
        lemma_run_end(class, k + 5);
        assert forall|i: int| k <= i < k + 5 implies !is_whitespace(#[trigger] class[i]) by {
            assert(class[i] == class.subrange(k, k + 5)[i - k]);
        }
        assert(is_token(class, start, end));
        let token = class.subrange(start, end);
        assert(token.subrange(k - start, k - start + 5) =~= class.subrange(k, k + 5));
        assert(occurs_at(token, marker, k - start));
    }
}

/// Reads the hour from a label of the hourly header. Returns `None` when the
/// trimmed label is no unsigned decimal number that fits 32 bits.
pub fn decode_hour(label: &str) -> (hour: Option<u32>)
    ensures
        hour_of(label@) == match hour {
            Some(h) => Some(h as nat),
            None => None,
        },
{
    match parse_unsigned(trim_text(label), u32::MAX) {
        Some(number) => Some(number / 100),
        None => None,
    }
}

/// Reads the degrees from a temperature cell. Returns `None` when the cell
/// holds no digit or its digits write a number above 127.
pub fn decode_degrees(cell: &str) -> (degrees: Option<i8>)
    ensures
        degrees_of(cell@) == match degrees {
            Some(d) => Some(d as int),
            None => None,
        },
{
    match extract_digits(cell, 127) {
        Some(number) => Some(number as i8),
        None => None,
    }
}

/// Reads the percentage from a probability cell. Returns `None` when the cell
/// holds no digit or its digits write a number above 255.
pub fn decode_percent(cell: &str) -> (percent: Option<u8>)
    ensures
        percent_of(cell@) == match percent {
            Some(p) => Some(p as nat),
            None => None,
        },
{
    match extract_digits(cell, 255) {
        Some(number) => Some(number as u8),
        None => None,
    }
}

/// Reads the speed from a wind cell. Returns `None` when the trimmed cell is
/// no unsigned decimal number up to 255.
pub fn decode_speed(cell: &str) -> (speed: Option<u8>)
    ensures
        speed_of(cell@) == match speed {
            Some(s) => Some(s as nat),
            None => None,
        },
{
    match parse_unsigned(trim_text(cell), 255) {
        Some(number) => Some(number as u8),
        None => None,
    }
}

/// Reads the compass bearing from a wind-direction cell.
pub fn decode_direction(cell: &str) -> (direction: String)
    ensures
        direction@ == direction_of(cell@),
{
    trim_text(cell).to_owned()
}

/// Reads the amount from a precipitation cell. A cell that is empty but for
/// white space reports no precipitation: `Some(None)`. Any other cell must
/// write a real number, which is returned as the cell writes it; `None` when
/// it writes none.
pub fn decode_amount(cell: &str) -> (amount: Option<Option<String>>)
    ensures
        amount.deep_view() == amount_of(cell@),
{
    let trimmed = trim_text(cell);
    if trimmed.is_empty() {
        Some(None)
    } else if is_real_number(trimmed) {
        Some(Some(trimmed.to_owned()))
    } else {
        None
    }
}

/// Tells from the class attribute of an icon cell whether the icon is a night
/// variant.
pub fn decode_night(class: &str) -> (night: bool)
    ensures
        night == night_of(class@),
{
    let marker = to_chars("night");
    proof {
        reveal_strlit("night");
        assert(marker@ =~= night_marker());
        lemma_night_anywhere(class@);
    }
    contains_chars(&to_chars(class), &marker)
}

} // verus!
