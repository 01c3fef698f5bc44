//! Reading the size of the screen from the text that the frame buffer
//! reports: `W,H`, two unsigned decimal numbers, with white space around
//! the whole allowed.

use vstd::prelude::*;
use vstd::string::StrSliceExecFns;

verus! {

/// White space, as Unicode defines it.
pub open spec fn is_whitespace(c: char) -> bool {
    let v = c as u32;
    ||| 0x09 <= v <= 0x0d
    ||| v == 0x20
    ||| v == 0x85
    ||| v == 0xa0
    ||| v == 0x1680
    ||| 0x2000 <= v <= 0x200a
    ||| v == 0x2028
    ||| v == 0x2029
    ||| v == 0x202f
    ||| v == 0x205f
    ||| v == 0x3000
}

/// `text` without the white space at its front.
pub open spec fn trim_start(text: Seq<char>) -> Seq<char>
    decreases text.len(),
{
    if text.len() > 0 && is_whitespace(text[0]) {
        trim_start(text.drop_first())
    } else {
        text
    }
}

/// `text` without the white space at its end.
pub open spec fn trim_end(text: Seq<char>) -> Seq<char>
    decreases text.len(),
{
    if text.len() > 0 && is_whitespace(text.last()) {
        trim_end(text.drop_last())
    } else {
        text
    }
}

/// `text` without the white space at its front and at its end.
pub open spec fn trimmed(text: Seq<char>) -> Seq<char> {
    trim_end(trim_start(text))
}

/// A decimal digit.
pub open spec fn is_digit(c: char) -> bool {
    0x30 <= c as u32 <= 0x39
}

/// The value of a decimal digit; 0 for any other character.
pub open spec fn digit_value(c: char) -> nat {
    if is_digit(c) {
        (c as u32 - 0x30) as nat
    } else {
        0
    }
}

/// The number that a run of digits writes in base ten.
pub open spec fn decimal_value(digits: Seq<char>) -> nat
    decreases digits.len(),
{
    if digits.len() == 0 {
        0
    } else {
        decimal_value(digits.drop_last()) * 10 + digit_value(digits.last())
    }
}

/// `text` without the plus sign that may stand before the digits.
pub open spec fn unsigned_part(text: Seq<char>) -> Seq<char> {
    if text.len() > 0 && text[0] == '+' {
        text.drop_first()
    } else {
        text
    }
}

/// The number that `text` writes: at least one decimal digit and nothing
/// else, but for a plus sign in front, with a value that fits in 32 bits.
pub open spec fn number_of(text: Seq<char>) -> Option<u32> {
    let digits = unsigned_part(text);
    if digits.len() > 0 && (forall|i: int| 0 <= i < digits.len() ==> is_digit(#[trigger] digits[i]))
        && decimal_value(digits) <= u32::MAX {
        Some(decimal_value(digits) as u32)
    } else {
        None
    }
}

/// `text` reads as two numbers around the comma at position `i`.
pub open spec fn splits_at(text: Seq<char>, i: int) -> bool {
    &&& 0 <= i < text.len()
    &&& text[i] == ','
    &&& number_of(text.subrange(0, i)) is Some
    &&& number_of(text.subrange(i + 1, text.len() as int)) is Some
}

/// The width and the height that `text` reports, where it has the form
/// `W,H` once the white space around it is taken off.
pub open spec fn resolution_of(text: Seq<char>) -> Option<(u32, u32)> {
    let t = trimmed(text);
    if exists|i: int| splits_at(t, i) {
        let i = choose|i: int| splits_at(t, i);
        Some(
            (
                number_of(t.subrange(0, i))->0,
                number_of(t.subrange(i + 1, t.len() as int))->0,
            ),
        )
    } else {
        None
    }
}

/// A longer run of digits writes no smaller number than its front.
proof fn lemma_decimal_value_grows(digits: Seq<char>, k: int)
    requires
        0 <= k <= digits.len(),
    ensures
        decimal_value(digits.take(k)) <= decimal_value(digits),
    decreases digits.len(),
{
    if k == digits.len() {
        assert(digits.take(k) =~= digits);
    } else {
        lemma_decimal_value_grows(digits.drop_last(), k);
        assert(digits.drop_last().take(k) =~= digits.take(k));
    }
}

/// A text with a comma in it writes no number.
proof fn lemma_comma_is_no_number(text: Seq<char>, i: int)
    requires
        0 <= i < text.len(),
        text[i] == ',',
    ensures
        number_of(text) is None,
{
    let digits = unsigned_part(text);
    if text[0] == '+' {
        assert(i > 0);
        assert(digits[i - 1] == ',');
        assert(!is_digit(digits[i - 1]));
    } else {
        assert(digits[i] == ',');
        assert(!is_digit(digits[i]));
    }
}

fn is_whitespace_char(c: char) -> (yes: bool)
    ensures
        yes == is_whitespace(c),
{
    let v = c as u32;
    (0x09 <= v && v <= 0x0d) || v == 0x20 || v == 0x85 || v == 0xa0 || v == 0x1680 || (0x2000 <= v
        && v <= 0x200a) || v == 0x2028 || v == 0x2029 || v == 0x202f || v == 0x205f || v == 0x3000
}

/// The positions between which `text` holds its trimmed form.
fn trim_bounds(text: &str) -> (bounds: (usize, usize))
    ensures
        bounds.0 <= bounds.1 <= text@.len(),
        trimmed(text@) == text@.subrange(bounds.0 as int, bounds.1 as int),
{
    let len = text.unicode_len();
    let mut start: usize = 0;
    assert(text@.subrange(0, len as int) =~= text@);
    while start < len && is_whitespace_char(text.get_char(start))
        invariant
            len == text@.len(),
            start <= len,
            trim_start(text@) == trim_start(text@.subrange(start as int, len as int)),
        decreases len - start,
    {
        assert(text@.subrange(start as int, len as int).drop_first() =~= text@.subrange(
            start + 1,
            len as int,
        ));
        start += 1;
    }
    assert(trim_start(text@) == text@.subrange(start as int, len as int));
    let mut end: usize = len;
    while end > start && is_whitespace_char(text.get_char(end - 1))
        invariant
            len == text@.len(),
            start <= end <= len,
            trimmed(text@) == trim_end(text@.subrange(start as int, end as int)),
        decreases end - start,
    {
        assert(text@.subrange(start as int, end as int).drop_last() =~= text@.subrange(
            start as int,
            end - 1,
        ));
        end -= 1;
    }
    (start, end)
}

/// The number that the characters of `text` from `from` up to `to` write.
fn parse_number(text: &str, from: usize, to: usize) -> (number: Option<u32>)
    requires
        from <= to <= text@.len(),
    ensures
        number == number_of(text@.subrange(from as int, to as int)),
{
    let ghost part = text@.subrange(from as int, to as int);
    let mut i: usize = from;
    if i < to && text.get_char(i) == '+' {
        i += 1;
    }
    let first = i;
    let ghost digits = text@.subrange(first as int, to as int);
    assert(digits =~= unsigned_part(part));
    if i == to {
        return None;
    }
    let mut value: u64 = 0;
    assert(digits.take(0) =~= Seq::<char>::empty());
    while i < to
        invariant
            from <= first <= i <= to <= text@.len(),
            digits == text@.subrange(first as int, to as int),
            digits == unsigned_part(text@.subrange(from as int, to as int)),
            forall|k: int| 0 <= k < i - first ==> is_digit(#[trigger] digits[k]),
            value == decimal_value(digits.take(i - first)),
            value <= u32::MAX,
        decreases to - i,
    {
        let c = text.get_char(i);
        let v = c as u32;
        assert(digits[i - first] == c);
        if v < 0x30 || v > 0x39 {
            assert(!is_digit(digits[i - first]));
            return None;
        }
        proof {
            assert(digits.take(i - first + 1).drop_last() =~= digits.take(i - first));
            assert(digits.take(i - first + 1).last() == c);
        }
        value = value * 10 + (v - 0x30) as u64;
        if value > u32::MAX as u64 {
            proof {
                lemma_decimal_value_grows(digits, i - first + 1);
            }
            return None;
        }
        i += 1;
    }
    assert(digits.take(to - first) =~= digits);
    Some(value as u32)
}

/// The width and the height that `text` reports, or `None` where it does
/// not have the form `W,H`.
pub fn parse_resolution(text: &str) -> (size: Option<(u32, u32)>)
    ensures
        size == resolution_of(text@),
{
    let (start, end) = trim_bounds(text);
    let ghost t = text@.subrange(start as int, end as int);
    let mut comma: usize = start;
    while comma < end && text.get_char(comma) != ','
        invariant
            start <= comma <= end <= text@.len(),
            forall|k: int| start <= k < comma ==> text@[k] != ',',
        decreases end - comma,
    {
        comma += 1;
    }
    if comma == end {
        assert forall|i: int| !splits_at(t, i) by {
            if 0 <= i < t.len() {
                assert(t[i] == text@[start + i]);
            }
        }
        return None;
    }
    let ghost at = comma - start;
    let width = parse_number(text, start, comma);
    let height = parse_number(text, comma + 1, end);
    proof {
        assert(t.subrange(0, at) =~= text@.subrange(start as int, comma as int));
        assert(t.subrange(at + 1, t.len() as int) =~= text@.subrange(comma + 1, end as int));
        assert(t[at] == ',');
        // no other position splits the text: a comma would stand in the
        // first number
        assert forall|i: int| splits_at(t, i) implies i == at by {
            if i < at {
                assert(t[i] == text@[start + i]);
            } else if i > at {
                assert(t.subrange(0, i)[at] == ',');
                lemma_comma_is_no_number(t.subrange(0, i), at);
            }
        }
    }
    match (width, height) {
        (Some(w), Some(h)) => {
            assert(splits_at(t, at));
            Some((w, h))
        },
        _ => {
            assert(!splits_at(t, at));
            None
        },
    }
}

} // verus!
