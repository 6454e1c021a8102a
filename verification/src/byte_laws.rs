//! What holds of numbers in bytes.

use vstd::arithmetic::div_mod::*;
use vstd::arithmetic::power::*;
use vstd::prelude::*;

use crate::bytes;

verus! {

/// Byte `at` of a field is digit `at` of the number to the base 256, and a field has as many bytes
/// as its width.
pub proof fn bytes_are_digits(value: nat, width: nat, at: nat)
    requires
        at < width,
    ensures
        bytes::le_bytes(value, width).len() == width,
        bytes::le_bytes(value, width)[at as int] == value as int / pow(256, at) % 256,
    decreases width,
{
    let rest = bytes::le_bytes(value / 256, (width - 1) as nat);
    bytes::le_bytes_len(value, width);
    if at == 0 {
        lemma_pow0(256);
    } else {
        let before = (at - 1) as nat;
        bytes_are_digits(value / 256, (width - 1) as nat, before);
        assert(bytes::le_bytes(value, width)[at as int] == rest[before as int]);
        lemma_pow_positive(256, before);
        lemma_div_denominator(value as int, 256, pow(256, before));
        reveal(pow);
        assert(pow(256, at) == 256 * pow(256, before));
    }
}

/// The limit of a width is that power of 256.
pub proof fn limits_are_powers(width: nat)
    ensures
        bytes::le_limit(width) == pow(256, width),
    decreases width,
{
    reveal(pow);
    if width > 0 {
        limits_are_powers((width - 1) as nat);
    }
}

/// Digit `at` of the number in a field is byte `at` of the field, and the number has no further
/// digits.
pub proof fn digits_are_bytes(field: Seq<u8>, at: nat)
    requires
        at < field.len(),
    ensures
        bytes::le_value(field) as int / pow(256, at) % 256 == field[at as int],
        bytes::le_value(field) < pow(256, field.len()),
{
    bytes::le_bytes_of_le_value(field);
    bytes_are_digits(bytes::le_value(field), field.len(), at);
    bytes::le_value_bound(field);
    limits_are_powers(field.len());
}

/// A number that is read has the bytes at its place as digits.
pub proof fn reads_take_the_bytes_at_their_place(all: Seq<u8>, offset: int, width: nat, at: nat)
    requires
        0 <= offset,
        offset + width <= all.len(),
        at < width,
    ensures
        bytes::read_le(all, offset, width as int) as int / pow(256, at) % 256 == all[offset + at],
        bytes::read_le(all, offset, width as int) < pow(256, width),
{
    digits_are_bytes(all.subrange(offset, offset + width), at);
}

/// Overwriting replaces the bytes from an offset on, as many as the patch has, and leaves all others
/// in their places.
pub proof fn overwriting_replaces_the_patch(all: Seq<u8>, offset: int, patch: Seq<u8>, at: int)
    requires
        0 <= offset,
        offset + patch.len() <= all.len(),
        0 <= at < all.len(),
    ensures
        bytes::overwrite(all, offset, patch).len() == all.len(),
        bytes::overwrite(all, offset, patch)[at] == if offset <= at < offset + patch.len() {
            patch[at - offset]
        } else {
            all[at]
        },
{
}

/// The sum of no byte is 0, that of one byte is the byte, and that of joined bytes is the sum of
/// their sums.
pub proof fn sums_add_up(left: Seq<u8>, byte: u8, right: Seq<u8>)
    ensures
        bytes::byte_sum(Seq::empty()) == 0,
        bytes::byte_sum(seq![byte]) == byte,
        bytes::byte_sum(left + right) == bytes::byte_sum(left) + bytes::byte_sum(right),
{
    reveal_with_fuel(bytes::byte_sum, 2);
    assert(seq![byte].drop_last() =~= Seq::empty());
    bytes::byte_sum_concat(left, right);
}

/// A checksum brings the sum of the bytes to a multiple of 256.
pub proof fn checksums_balance(all: Seq<u8>)
    ensures
        (bytes::byte_sum(all) + bytes::checksum_byte(all)) % 256 == 0,
{
}

} // verus!
