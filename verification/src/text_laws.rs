//! What holds of the scanning of texts.

use vstd::prelude::*;

use crate::text;

verus! {

/// The code points that Unicode counts as white space.
pub open spec fn blanks() -> Seq<u32> {
    seq![
        0x09u32, 0x0a, 0x0b, 0x0c, 0x0d, 0x20, 0x85, 0xa0, 0x1680, 0x2000, 0x2001, 0x2002, 0x2003,
        0x2004, 0x2005, 0x2006, 0x2007, 0x2008, 0x2009, 0x200a, 0x2028, 0x2029, 0x202f, 0x205f, 0x3000,
    ]
}

/// Whether a character is one of those code points.
pub open spec fn is_blank(c: char) -> bool {
    blanks().contains(c as u32)
}

/// White space is what Unicode counts as white space.
#[verifier::rlimit(50)]
pub proof fn spaces_are_blanks(c: char)
    ensures
        text::is_space(c) <==> is_blank(c),
{
    let code = c as u32;
    let all = blanks();
    assert(all[0] == 0x09 && all[1] == 0x0a && all[2] == 0x0b && all[3] == 0x0c && all[4] == 0x0d);
    assert(all[5] == 0x20 && all[6] == 0x85 && all[7] == 0xa0 && all[8] == 0x1680);
    assert(all[9] == 0x2000 && all[10] == 0x2001 && all[11] == 0x2002 && all[12] == 0x2003);
    assert(all[13] == 0x2004 && all[14] == 0x2005 && all[15] == 0x2006 && all[16] == 0x2007);
    assert(all[17] == 0x2008 && all[18] == 0x2009 && all[19] == 0x200a && all[20] == 0x2028);
    assert(all[21] == 0x2029 && all[22] == 0x202f && all[23] == 0x205f && all[24] == 0x3000);
    if text::is_space(c) {
        assert(exists|i: int| 0 <= i < 25 && all[i] == code);
    }
    if all.contains(code) {
        let i = choose|i: int| 0 <= i < all.len() && all[i] == code;
        assert(0 <= i < 25);
    }
}

/// Whether `inner` is what stands between `start` and `end` of `text`, with nothing but white space
/// around it and none at its ends.
pub open spec fn is_between(text: Seq<char>, start: int, end: int, inner: Seq<char>) -> bool {
    &&& 0 <= start <= end <= text.len()
    &&& inner == text.subrange(start, end)
    &&& forall|i: int| 0 <= i < start ==> is_blank(#[trigger] text[i])
    &&& forall|i: int| end <= i < text.len() ==> is_blank(#[trigger] text[i])
    &&& start < end ==> !is_blank(text[start]) && !is_blank(text[end - 1])
}

/// What trimming takes off at the start.
proof fn start_of_trimmed(all: Seq<char>) -> (start: int)
    ensures
        0 <= start <= all.len(),
        text::trimmed_start(all) == all.skip(start),
        forall|i: int| 0 <= i < start ==> is_blank(#[trigger] all[i]),
        start < all.len() ==> !is_blank(all[start]),
    decreases all.len(),
{
    if all.len() > 0 {
        spaces_are_blanks(all[0]);
    }
    if all.len() > 0 && text::is_space(all[0]) {
        let rest = all.drop_first();
        let start = start_of_trimmed(rest);
        assert(rest.skip(start) =~= all.skip(start + 1));
        assert forall|i: int| 0 <= i < start + 1 implies is_blank(#[trigger] all[i]) by {
            if i > 0 {
                assert(is_blank(rest[i - 1]));
            }
        }
        start + 1
    } else {
        assert(all.skip(0) =~= all);
        0
    }
}

/// What trimming leaves up to the end.
proof fn end_of_trimmed(all: Seq<char>) -> (end: int)
    ensures
        0 <= end <= all.len(),
        text::trimmed_end(all) == all.take(end),
        forall|i: int| end <= i < all.len() ==> is_blank(#[trigger] all[i]),
        end > 0 ==> !is_blank(all[end - 1]),
    decreases all.len(),
{
    if all.len() > 0 {
        spaces_are_blanks(all.last());
    }
    if all.len() > 0 && text::is_space(all.last()) {
        let rest = all.drop_last();
        let end = end_of_trimmed(rest);
        assert(rest.take(end) =~= all.take(end));
        assert forall|i: int| end <= i < all.len() implies is_blank(#[trigger] all[i]) by {
            if i < rest.len() {
                assert(is_blank(rest[i]));
            }
        }
        end
    } else {
        assert(all.take(all.len() as int) =~= all);
        all.len() as int
    }
}

/// Trimming takes off all the white space at both ends and nothing else.
pub proof fn trimming_takes_off_the_blanks(all: Seq<char>)
    ensures
        exists|start: int, end: int| is_between(all, start, end, text::trimmed(all)),
{
    let start = start_of_trimmed(all);
    let rest = all.skip(start);
    let end = end_of_trimmed(rest);
    let inner = text::trimmed(all);
    assert(inner =~= all.subrange(start, start + end));
    assert forall|i: int| start + end <= i < all.len() implies is_blank(#[trigger] all[i]) by {
        assert(is_blank(rest[i - start]));
    }
    if end > 0 {
        assert(rest[end - 1] == all[start + end - 1]);
    }
    assert(is_between(all, start, start + end, inner));
}

/// A text without white space at its ends is left as it is.
pub proof fn trimmed_texts_stay(all: Seq<char>)
    requires
        all.len() > 0 ==> !is_blank(all[0]) && !is_blank(all.last()),
    ensures
        text::trimmed(all) == all,
{
    if all.len() > 0 {
        spaces_are_blanks(all[0]);
        spaces_are_blanks(all.last());
    }
}

/// The first separator: there is none before it, and it is at the end if there is none at all.
proof fn first_index_is_first(all: Seq<char>, separator: char)
    ensures
        text::first_index(all, separator) <= all.len(),
        forall|i: int|
            0 <= i < text::first_index(all, separator) ==> #[trigger] all[i] != separator,
        text::first_index(all, separator) < all.len() ==> all[text::first_index(
            all,
            separator,
        ) as int] == separator,
    decreases all.len(),
{
    if all.len() > 0 && all[0] != separator {
        let rest = all.drop_first();
        first_index_is_first(rest, separator);
        let at = text::first_index(all, separator);
        assert forall|i: int| 0 <= i < at implies #[trigger] all[i] != separator by {
            if i > 0 {
                assert(rest[i - 1] != separator);
            }
        }
        if at < all.len() {
            assert(rest[at - 1] == all[at as int]);
        }
    }
}

/// A text is split at its first separator: the two halves and the separator between them make up the
/// text, and the first half has no separator. A text without a separator is not split.
pub proof fn splits_are_at_the_first_separator(all: Seq<char>, separator: char)
    ensures
        match text::split_at_first(all, separator) {
            Some((head, tail)) => all == head + seq![separator] + tail && !head.contains(separator),
            None => !all.contains(separator),
        },
{
    first_index_is_first(all, separator);
    if let Some((head, tail)) = text::split_at_first(all, separator) {
        assert(all =~= head + seq![separator] + tail);
    }
}

/// Two halves around a separator come apart again, if the first has none itself.
pub proof fn joined_halves_come_apart(head: Seq<char>, tail: Seq<char>, separator: char)
    requires
        !head.contains(separator),
    ensures
        text::split_at_first(head + seq![separator] + tail, separator) == Some((head, tail)),
{
    let all = head + seq![separator] + tail;
    first_index_is_first(all, separator);
    let at = text::first_index(all, separator) as int;
    assert(all[head.len() as int] == separator);
    if at < head.len() {
        assert(head.contains(head[at]));
    }
    assert(at == head.len());
    assert(all.take(at) =~= head);
    assert(all.skip(at + 1) =~= tail);
}

/// The texts with separators between them.
pub open spec fn joined(fields: Seq<Seq<char>>, separator: char) -> Seq<char>
    decreases fields.len(),
{
    if fields.len() == 0 {
        Seq::empty()
    } else if fields.len() == 1 {
        fields[0]
    } else {
        fields[0] + seq![separator] + joined(fields.drop_first(), separator)
    }
}

/// The parts of a text have no separators, and with separators between them they make up the text.
pub proof fn parts_join_to_the_text(all: Seq<char>, separator: char)
    ensures
        text::parts(all, separator).len() > 0,
        joined(text::parts(all, separator), separator) == all,
        forall|i: int|
            0 <= i < text::parts(all, separator).len() ==> !(#[trigger] text::parts(
                all,
                separator,
            )[i]).contains(separator),
    decreases all.len(),
{
    splits_are_at_the_first_separator(all, separator);
    let fields = text::parts(all, separator);
    match text::split_at_first(all, separator) {
        Some((head, tail)) => {
            parts_join_to_the_text(tail, separator);
            assert(fields.drop_first() =~= text::parts(tail, separator));
            assert forall|i: int| 0 <= i < fields.len() implies !(#[trigger] fields[i]).contains(
                separator,
            ) by {
                if i > 0 {
                    assert(fields[i] == text::parts(tail, separator)[i - 1]);
                }
            }
        },
        None => {},
    }
}

/// Texts without separators come apart again when they are joined.
pub proof fn joined_texts_come_apart(fields: Seq<Seq<char>>, separator: char)
    requires
        fields.len() > 0,
        forall|i: int| 0 <= i < fields.len() ==> !(#[trigger] fields[i]).contains(separator),
    ensures
        text::parts(joined(fields, separator), separator) == fields,
    decreases fields.len(),
{
    let all = joined(fields, separator);
    if fields.len() == 1 {
        first_index_is_first(all, separator);
        let at = text::first_index(all, separator) as int;
        if at < all.len() {
            assert(all.contains(all[at]));
        }
        assert(text::parts(all, separator) =~= fields);
    } else {
        let rest = fields.drop_first();
        assert forall|i: int| 0 <= i < rest.len() implies !(#[trigger] rest[i]).contains(
            separator,
        ) by {
            assert(rest[i] == fields[i + 1]);
        }
        joined_texts_come_apart(rest, separator);
        joined_halves_come_apart(fields[0], joined(rest, separator), separator);
        assert(text::parts(all, separator) =~= fields);
    }
}

/// A prefix is taken off exactly the texts that start with it, and what is left is the rest.
pub proof fn prefixes_are_taken_off(all: Seq<char>, prefix: Seq<char>, rest: Seq<char>)
    ensures
        text::without_prefix(all, prefix) == Some(rest) <==> all == prefix + rest,
{
    if text::without_prefix(all, prefix) == Some(rest) {
        assert(all =~= prefix + rest);
    }
    if all == prefix + rest {
        assert(all.take(prefix.len() as int) =~= prefix);
        assert(all.skip(prefix.len() as int) =~= rest);
    }
}

/// Whether a character is a digit: 0 to 9, and to the base 16 also a to f in either case.
pub open spec fn is_digit(c: char, radix: nat) -> bool {
    ||| '0' <= c <= '9'
    ||| radix == 16 && 'a' <= c <= 'f'
    ||| radix == 16 && 'A' <= c <= 'F'
}

/// What a digit stands for.
pub open spec fn digit_of(c: char) -> int {
    if c <= '9' {
        c as int - '0' as int
    } else if c <= 'F' {
        c as int - 'A' as int + 10
    } else {
        c as int - 'a' as int + 10
    }
}

/// Decimal and hexadecimal digits are digits below their base, and have their values.
pub proof fn digits_have_their_values(c: char, radix: nat)
    requires
        radix == 10 || radix == 16,
    ensures
        text::digit_value(c) < radix <==> is_digit(c, radix),
        is_digit(c, radix) ==> text::digit_value(c) == digit_of(c),
{
}

/// One more digit multiplies the number by the base and adds the digit.
pub proof fn numbers_grow_by_their_digits(digits: Seq<char>, c: char, radix: nat)
    ensures
        text::digits_number(Seq::empty(), radix) == 0,
        text::digits_number(digits.push(c), radix) == text::digits_number(digits, radix) * radix
            + text::digit_value(c),
{
    assert(digits.push(c).drop_last() =~= digits);
}

/// A text without a plus sign stands for a byte exactly if it is made of digits, at least one, and
/// their number is at most 255; and then it stands for that number.
pub proof fn bytes_are_numbers_up_to_255(digits: Seq<char>, radix: nat)
    requires
        radix == 10 || radix == 16,
        digits.len() > 0 ==> digits[0] != '+',
    ensures
        match text::byte_number(digits, radix) {
            Some(byte) => {
                &&& digits.len() > 0
                &&& forall|i: int| 0 <= i < digits.len() ==> is_digit(#[trigger] digits[i], radix)
                &&& byte == text::digits_number(digits, radix)
            },
            None => {
                ||| digits.len() == 0
                ||| exists|i: int| 0 <= i < digits.len() && !is_digit(#[trigger] digits[i], radix)
                ||| text::digits_number(digits, radix) > 255
            },
        },
{
    assert forall|i: int| 0 <= i < digits.len() implies (text::digit_value(#[trigger] digits[i])
        < radix <==> is_digit(digits[i], radix)) by {
        digits_have_their_values(digits[i], radix);
    }
    if !text::all_digits(digits, radix) {
        let i = choose|i: int|
            0 <= i < digits.len() && !(text::digit_value(#[trigger] digits[i]) < radix);
        assert(!is_digit(digits[i], radix));
    }
}

/// One plus sign in front of a number changes nothing, and a second one is no digit.
pub proof fn a_plus_sign_changes_nothing(digits: Seq<char>, radix: nat)
    requires
        radix == 10 || radix == 16,
    ensures
        digits.len() == 0 || digits[0] != '+' ==> text::byte_number(seq!['+'] + digits, radix)
            == text::byte_number(digits, radix),
        digits.len() > 0 && digits[0] == '+' ==> text::byte_number(seq!['+'] + digits, radix)
            is None,
{
    let signed = seq!['+'] + digits;
    assert(signed.skip(1) =~= digits);
    if digits.len() > 0 && digits[0] == '+' {
        digits_have_their_values('+', radix);
        assert(text::digit_value(digits[0]) >= radix);
    }
}

/// The decimal digit of a number below ten.
pub open spec fn decimal_digit(number: int) -> char {
    (number + '0' as int) as char
}

/// A byte in decimal.
pub open spec fn decimal(byte: u8) -> Seq<char> {
    if byte < 10 {
        seq![decimal_digit(byte as int)]
    } else if byte < 100 {
        seq![decimal_digit(byte as int / 10), decimal_digit(byte as int % 10)]
    } else {
        seq![
            decimal_digit(byte as int / 100),
            decimal_digit(byte as int / 10 % 10),
            decimal_digit(byte as int % 10),
        ]
    }
}

/// The hexadecimal digit of a number below sixteen.
pub open spec fn hex_digit(number: int) -> char {
    if number < 10 {
        (number + '0' as int) as char
    } else {
        (number - 10 + 'a' as int) as char
    }
}

/// A byte in two hexadecimal digits.
pub open spec fn hexadecimal(byte: u8) -> Seq<char> {
    seq![hex_digit(byte as int / 16), hex_digit(byte as int % 16)]
}

/// The digits that are written are digits, and stand for what they were written for.
proof fn written_digits_are_digits(number: int)
    requires
        0 <= number < 16,
    ensures
        number < 10 ==> text::digit_value(decimal_digit(number)) == number,
        number < 10 ==> decimal_digit(number) != '+',
        text::digit_value(hex_digit(number)) == number,
        hex_digit(number) != '+',
{
}

/// The number of up to three digits.
#[verifier::rlimit(50)]
proof fn number_of_digits(a: char, b: char, c: char, radix: nat)
    ensures
        text::digits_number(seq![a], radix) == text::digit_value(a),
        text::digits_number(seq![a, b], radix) == text::digit_value(a) * radix + text::digit_value(
            b,
        ),
        text::digits_number(seq![a, b, c], radix) == (text::digit_value(a) * radix
            + text::digit_value(b)) * radix + text::digit_value(c),
{
    let empty = Seq::<char>::empty();
    numbers_grow_by_their_digits(empty, a, radix);
    numbers_grow_by_their_digits(seq![a], b, radix);
    numbers_grow_by_their_digits(seq![a, b], c, radix);
    assert(empty.push(a) =~= seq![a]);
    assert(seq![a].push(b) =~= seq![a, b]);
    assert(seq![a, b].push(c) =~= seq![a, b, c]);
    assert(0 * radix == 0) by (nonlinear_arith);
}

/// Every byte reads back from its decimal form.
#[verifier::rlimit(50)]
proof fn decimal_reads_back(byte: u8)
    ensures
        text::byte_number(decimal(byte), 10) == Some(byte),
{
    let number = byte as int;
    let digits = decimal(byte);
    written_digits_are_digits(number / 100);
    written_digits_are_digits(number / 10 % 10);
    written_digits_are_digits(number % 10);
    if byte < 10 {
        number_of_digits(digits[0], '0', '0', 10);
    } else if byte < 100 {
        number_of_digits(digits[0], digits[1], '0', 10);
    } else {
        number_of_digits(digits[0], digits[1], digits[2], 10);
        assert(number == number / 100 * 100 + number / 10 % 10 * 10 + number % 10);
    }
    assert(text::all_digits(digits, 10));
    assert(text::digits_number(digits, 10) == byte);
}

/// Every byte reads back from its hexadecimal form.
#[verifier::rlimit(50)]
proof fn hexadecimal_reads_back(byte: u8)
    ensures
        text::byte_number(hexadecimal(byte), 16) == Some(byte),
{
    let number = byte as int;
    let digits = hexadecimal(byte);
    written_digits_are_digits(number / 16);
    written_digits_are_digits(number % 16);
    number_of_digits(digits[0], digits[1], '0', 16);
    assert(text::all_digits(digits, 16));
    assert(text::digits_number(digits, 16) == byte);
}

/// Every byte reads back from its decimal form and from its hexadecimal form.
pub proof fn written_bytes_read_back(byte: u8)
    ensures
        text::byte_number(decimal(byte), 10) == Some(byte),
        text::byte_number(hexadecimal(byte), 16) == Some(byte),
{
    decimal_reads_back(byte);
    hexadecimal_reads_back(byte);
}

} // verus!
