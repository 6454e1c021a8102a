//! Scanning of short configuration texts.
//!
//! The scanners work on slices of characters, so that every part that they hand out is a part of
//! the text that they were given.

use vstd::prelude::*;
use vstd::slice::slice_subrange;

verus! {

/// Whether `c` has the Unicode property `White_Space`.
pub open spec fn is_space(c: char) -> bool {
    ||| 0x09 <= c as u32 <= 0x0d
    ||| c as u32 == 0x20
    ||| c as u32 == 0x85
    ||| c as u32 == 0xa0
    ||| c as u32 == 0x1680
    ||| 0x2000 <= c as u32 <= 0x200a
    ||| c as u32 == 0x2028
    ||| c as u32 == 0x2029
    ||| c as u32 == 0x202f
    ||| c as u32 == 0x205f
    ||| c as u32 == 0x3000
}

/// `text` without the white space that it starts with.
pub open spec fn trimmed_start(text: Seq<char>) -> Seq<char>
    decreases text.len(),
{
    if text.len() > 0 && is_space(text[0]) {
        trimmed_start(text.drop_first())
    } else {
        text
    }
}

/// `text` without the white space that it ends with.
pub open spec fn trimmed_end(text: Seq<char>) -> Seq<char>
    decreases text.len(),
{
    if text.len() > 0 && is_space(text.last()) {
        trimmed_end(text.drop_last())
    } else {
        text
    }
}

/// `text` without the white space around it.
pub open spec fn trimmed(text: Seq<char>) -> Seq<char> {
    trimmed_end(trimmed_start(text))
}

/// The position of the first `separator` in `text`, or the length of `text` if there is none.
pub open spec fn first_index(text: Seq<char>, separator: char) -> nat
    decreases text.len(),
{
    if text.len() == 0 || text[0] == separator {
        0
    } else {
        1 + first_index(text.drop_first(), separator)
    }
}

/// What stands before and behind the first `separator`.
pub open spec fn split_at_first(text: Seq<char>, separator: char) -> Option<(Seq<char>, Seq<char>)> {
    let at = first_index(text, separator);
    if at < text.len() {
        Some((text.take(at as int), text.skip(at as int + 1)))
    } else {
        None
    }
}

/// The parts of `text` between the separators. A text without a separator is its only part.
pub open spec fn parts(text: Seq<char>, separator: char) -> Seq<Seq<char>>
    decreases text.len(),
{
    match split_at_first(text, separator) {
        Some((head, tail)) => seq![head] + parts(tail, separator),
        None => seq![text],
    }
}

/// What follows `prefix` in a text that starts with it.
pub open spec fn without_prefix(text: Seq<char>, prefix: Seq<char>) -> Option<Seq<char>> {
    if prefix.len() <= text.len() && text.take(prefix.len() as int) == prefix {
        Some(text.skip(prefix.len() as int))
    } else {
        None
    }
}

/// The value of a digit, whatever the radix.
pub open spec fn digit_value(c: char) -> nat {
    if '0' <= c <= '9' {
        (c as u32 - '0' as u32) as nat
    } else if 'a' <= c <= 'z' {
        (c as u32 - 'a' as u32 + 10) as nat
    } else if 'A' <= c <= 'Z' {
        (c as u32 - 'A' as u32 + 10) as nat
    } else {
        36
    }
}

/// Whether every character is a digit in `radix`.
pub open spec fn all_digits(text: Seq<char>, radix: nat) -> bool {
    forall|i: int| 0 <= i < text.len() ==> digit_value(#[trigger] text[i]) < radix
}

/// The number that the digits of `text` stand for in `radix`.
pub open spec fn digits_number(text: Seq<char>, radix: nat) -> nat
    decreases text.len(),
{
    if text.len() == 0 {
        0
    } else {
        digits_number(text.drop_last(), radix) * radix + digit_value(text.last())
    }
}

/// The byte that `text` stands for: an optional plus sign, then one or more digits, and nothing
/// else.
pub open spec fn byte_number(text: Seq<char>, radix: nat) -> Option<u8> {
    let digits = if text.len() > 0 && text[0] == '+' {
        text.skip(1)
    } else {
        text
    };
    if digits.len() > 0 && all_digits(digits, radix) && digits_number(digits, radix) <= 255 {
        Some(digits_number(digits, radix) as u8)
    } else {
        None
    }
}

/// The characters of `text`.
pub fn chars_of(text: &str) -> (chars: Vec<char>)
    ensures
        chars@ == text@,
{
    let len: usize = text.unicode_len();
    let mut chars: Vec<char> = Vec::new();
    let mut i: usize = 0;
    while i < len
        invariant
            len == text@.len(),
            i <= len,
            chars@ == text@.take(i as int),
        decreases len - i,
    {
        chars.push(text.get_char(i));
        i = i + 1;
        proof {
            assert(chars@ =~= text@.take(i as int));
        }
    }
    proof {
        assert(text@.take(len as int) =~= text@);
    }
    chars
}

/// Whether `c` has the Unicode property `White_Space`.
pub fn is_white_space(c: char) -> (space: bool)
    ensures
        space == is_space(c),
{
    let code: u32 = c as u32;
    (0x09 <= code && code <= 0x0d) || code == 0x20 || code == 0x85 || code == 0xa0 || code == 0x1680
        || (0x2000 <= code && code <= 0x200a) || code == 0x2028 || code == 0x2029 || code == 0x202f
        || code == 0x205f || code == 0x3000
}

/// `text` without the white space around it.
pub fn trim<'a>(text: &'a [char]) -> (inner: &'a [char])
    ensures
        inner@ == trimmed(text@),
{
    let mut start: usize = 0;
    proof {
        assert(text@.skip(0) =~= text@);
    }
    while start < text.len() && is_white_space(text[start])
        invariant
            start <= text@.len(),
            trimmed_start(text@) == trimmed_start(text@.skip(start as int)),
        decreases text@.len() - start,
    {
        proof {
            assert(text@.skip(start as int).drop_first() =~= text@.skip(start + 1));
        }
        start = start + 1;
    }
    let ghost rest = text@.skip(start as int);
    let mut end: usize = text.len();
    proof {
        assert(text@.subrange(start as int, end as int) =~= rest);
    }
    while start < end && is_white_space(text[end - 1])
        invariant
            start <= end <= text@.len(),
            trimmed_end(rest) == trimmed_end(text@.subrange(start as int, end as int)),
        decreases end,
    {
        proof {
            assert(text@.subrange(start as int, end as int).drop_last() =~= text@.subrange(
                start as int,
                end - 1,
            ));
        }
        end = end - 1;
    }
    slice_subrange(text, start, end)
}

/// What stands before and behind the first `separator`.
pub fn split_once<'a>(text: &'a [char], separator: char) -> (halves: Option<
    (&'a [char], &'a [char]),
>)
    ensures
        match (halves, split_at_first(text@, separator)) {
            (Some((head, tail)), Some((head_text, tail_text))) => head@ == head_text && tail@
                == tail_text,
            (None, None) => true,
            _ => false,
        },
{
    let mut at: usize = 0;
    proof {
        assert(text@.skip(0) =~= text@);
    }
    while at < text.len() && text[at] != separator
        invariant
            at <= text@.len(),
            first_index(text@, separator) == at + first_index(text@.skip(at as int), separator),
        decreases text@.len() - at,
    {
        proof {
            assert(text@.skip(at as int).drop_first() =~= text@.skip(at + 1));
        }
        at = at + 1;
    }
    if at < text.len() {
        let head = slice_subrange(text, 0, at);
        let tail = slice_subrange(text, at + 1, text.len());
        proof {
            assert(head@ =~= text@.take(at as int));
            assert(tail@ =~= text@.skip(at + 1));
        }
        Some((head, tail))
    } else {
        None
    }
}

/// Whether `chars` spell `text`.
pub fn spells(chars: &[char], text: &str) -> (same: bool)
    ensures
        same == (chars@ == text@),
{
    let len: usize = text.unicode_len();
    if chars.len() != len {
        return false;
    }
    let mut i: usize = 0;
    while i < len
        invariant
            len == text@.len(),
            len == chars@.len(),
            i <= len,
            forall|k: int| 0 <= k < i ==> chars@[k] == text@[k],
        decreases len - i,
    {
        if chars[i] != text.get_char(i) {
            return false;
        }
        i = i + 1;
    }
    proof {
        assert(chars@ =~= text@);
    }
    true
}

/// What follows `prefix` in a text that starts with it.
pub fn strip_prefix<'a>(text: &'a [char], prefix: &str) -> (rest: Option<&'a [char]>)
    ensures
        match (rest, without_prefix(text@, prefix@)) {
            (Some(rest), Some(rest_text)) => rest@ == rest_text,
            (None, None) => true,
            _ => false,
        },
{
    let len: usize = prefix.unicode_len();
    if text.len() < len {
        return None;
    }
    let head = slice_subrange(text, 0, len);
    proof {
        assert(head@ =~= text@.take(len as int));
    }
    if !spells(head, prefix) {
        return None;
    }
    let rest = slice_subrange(text, len, text.len());
    proof {
        assert(rest@ =~= text@.skip(len as int));
    }
    Some(rest)
}

/// A longer run of digits stands for no smaller a number.
proof fn digits_number_grows(text: Seq<char>, len: int, radix: nat)
    requires
        0 <= len <= text.len(),
        radix == 10 || radix == 16,
    ensures
        digits_number(text.take(len), radix) <= digits_number(text, radix),
    decreases text.len(),
{
    if len == text.len() {
        assert(text.take(len) =~= text);
    } else {
        digits_number_grows(text.drop_last(), len, radix);
        assert(text.drop_last().take(len) =~= text.take(len));
    }
}

/// The value of a digit, whatever the radix, or 36 for a character that is none.
fn digit(c: char) -> (value: u32)
    ensures
        value == digit_value(c),
        value <= 36,
{
    if '0' <= c && c <= '9' {
        c as u32 - '0' as u32
    } else if 'a' <= c && c <= 'z' {
        c as u32 - 'a' as u32 + 10
    } else if 'A' <= c && c <= 'Z' {
        c as u32 - 'A' as u32 + 10
    } else {
        36
    }
}

/// The byte that `text` stands for in decimal or hexadecimal.
pub fn parse_byte(text: &[char], radix: u32) -> (number: Option<u8>)
    requires
        radix == 10 || radix == 16,
    ensures
        number == byte_number(text@, radix as nat),
{
    let signed: bool = text.len() > 0 && text[0] == '+';
    let digits: &[char] = if signed {
        slice_subrange(text, 1, text.len())
    } else {
        text
    };
    proof {
        assert(signed ==> digits@ =~= text@.skip(1));
    }
    if digits.len() == 0 {
        return None;
    }
    let mut value: u32 = 0;
    let mut i: usize = 0;
    while i < digits.len()
        invariant
            radix == 10 || radix == 16,
            i <= digits@.len(),
            value == digits_number(digits@.take(i as int), radix as nat),
            value <= 255,
            all_digits(digits@.take(i as int), radix as nat),
            byte_number(text@, radix as nat) == (if all_digits(digits@, radix as nat)
                && digits_number(digits@, radix as nat) <= 255 {
                Some(digits_number(digits@, radix as nat) as u8)
            } else {
                None
            }),
        decreases digits@.len() - i,
    {
        let next: u32 = digit(digits[i]);
        proof {
            assert(digits@.take(i + 1).drop_last() =~= digits@.take(i as int));
            digits_number_grows(digits@, i + 1, radix as nat);
        }
        if next >= radix {
            return None;
        }
        value = value * radix + next;
        if value > 255 {
            return None;
        }
        i = i + 1;
        proof {
            assert(digits@.take(i as int) =~= digits@.take(i - 1).push(digits@[i - 1]));
        }
    }
    proof {
        assert(digits@.take(i as int) =~= digits@);
    }
    Some(value as u8)
}

} // verus!
