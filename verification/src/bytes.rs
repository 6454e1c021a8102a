//! Little-endian fields and the byte checksum shared by every firmware table.

use vstd::arithmetic::div_mod::*;
use vstd::prelude::*;

verus! {

/// The `width` least significant bytes of `value`, least significant first.
pub open spec fn le_bytes(value: nat, width: nat) -> Seq<u8>
    decreases width,
{
    if width == 0 {
        Seq::empty()
    } else {
        seq![(value % 256) as u8] + le_bytes(value / 256, (width - 1) as nat)
    }
}

/// The number whose little-endian bytes are `bytes`.
pub open spec fn le_value(bytes: Seq<u8>) -> nat
    decreases bytes.len(),
{
    if bytes.len() == 0 {
        0
    } else {
        bytes[0] as nat + 256 * le_value(bytes.drop_first())
    }
}

/// The little-endian number in the `width` bytes of `bytes` that start at `offset`.
pub open spec fn read_le(bytes: Seq<u8>, offset: int, width: int) -> nat {
    le_value(bytes.subrange(offset, offset + width))
}

/// `bytes` with the bytes from `offset` on replaced by `patch`.
pub open spec fn overwrite(bytes: Seq<u8>, offset: int, patch: Seq<u8>) -> Seq<u8> {
    bytes.take(offset) + patch + bytes.skip(offset + patch.len())
}

/// The sum of all bytes.
pub open spec fn byte_sum(bytes: Seq<u8>) -> nat
    decreases bytes.len(),
{
    if bytes.len() == 0 {
        0
    } else {
        byte_sum(bytes.drop_last()) + bytes.last() as nat
    }
}

/// The byte that brings the sum of `bytes` to a multiple of 256.
pub open spec fn checksum_byte(bytes: Seq<u8>) -> u8 {
    ((256 - (byte_sum(bytes) % 256) as int) % 256) as u8
}

/// `256` to the power of `width`.
pub open spec fn le_limit(width: nat) -> nat
    decreases width,
{
    if width == 0 {
        1
    } else {
        256 * le_limit((width - 1) as nat)
    }
}

/// `le_bytes` gives exactly `width` bytes.
pub proof fn le_bytes_len(value: nat, width: nat)
    ensures
        le_bytes(value, width).len() == width,
    decreases width,
{
    if width > 0 {
        le_bytes_len(value / 256, (width - 1) as nat);
    }
}

/// Reading a little-endian field gives back every number that fits in its width.
pub proof fn le_value_of_le_bytes(value: nat, width: nat)
    requires
        value < le_limit(width),
    ensures
        le_value(le_bytes(value, width)) == value,
    decreases width,
{
    if width > 0 {
        let rest = (width - 1) as nat;
        assert(value / 256 < le_limit(rest));
        le_value_of_le_bytes(value / 256, rest);
        le_bytes_len(value / 256, rest);
        assert(le_bytes(value, width).drop_first() =~= le_bytes(value / 256, rest));
    }
}

/// A number of `width` bytes is below the limit of that width.
pub proof fn le_value_bound(field: Seq<u8>)
    ensures
        le_value(field) < le_limit(field.len()),
    decreases field.len(),
{
    if field.len() > 0 {
        le_value_bound(field.drop_first());
    }
}

/// The limit of a width is positive.
proof fn le_limit_positive(width: nat)
    ensures
        le_limit(width) > 0,
    decreases width,
{
    if width > 0 {
        le_limit_positive((width - 1) as nat);
    }
}

/// A field of `width` bytes holds a number up to multiples of its limit.
pub proof fn le_value_of_low_bytes(value: nat, width: nat)
    ensures
        le_value(le_bytes(value, width)) == value % le_limit(width),
    decreases width,
{
    if width > 0 {
        let rest = (width - 1) as nat;
        le_value_of_low_bytes(value / 256, rest);
        le_bytes_len(value / 256, rest);
        assert(le_bytes(value, width).drop_first() =~= le_bytes(value / 256, rest));
        le_limit_positive(rest);
        lemma_mod_breakdown(value as int, 256, le_limit(rest) as int);
    }
}

/// Writing back the number that was read restores the bytes.
pub proof fn le_bytes_of_le_value(bytes: Seq<u8>)
    ensures
        le_bytes(le_value(bytes), bytes.len()) == bytes,
    decreases bytes.len(),
{
    if bytes.len() > 0 {
        let tail = bytes.drop_first();
        le_bytes_of_le_value(tail);
        assert((bytes[0] as nat + 256 * le_value(tail)) / 256 == le_value(tail));
        assert((bytes[0] as nat + 256 * le_value(tail)) % 256 == bytes[0] as nat);
        assert(seq![bytes[0]] + tail =~= bytes);
    } else {
        assert(le_bytes(le_value(bytes), 0) =~= bytes);
    }
}

/// The sum of a concatenation is the sum of the sums.
pub proof fn byte_sum_concat(left: Seq<u8>, right: Seq<u8>)
    ensures
        byte_sum(left + right) == byte_sum(left) + byte_sum(right),
    decreases right.len(),
{
    if right.len() == 0 {
        assert(left + right =~= left);
    } else {
        assert((left + right).drop_last() =~= left + right.drop_last());
        byte_sum_concat(left, right.drop_last());
    }
}

/// Replacing a zero byte by the checksum of the whole brings the sum to a multiple of 256.
pub proof fn checksum_balances(bytes: Seq<u8>, at: int)
    requires
        0 <= at < bytes.len(),
        bytes[at] == 0,
    ensures
        byte_sum(bytes.update(at, checksum_byte(bytes))) % 256 == 0,
{
    let check = checksum_byte(bytes);
    let before = bytes.take(at);
    let after = bytes.skip(at + 1);
    assert(bytes =~= before + seq![0u8] + after);
    assert(bytes.update(at, check) =~= before + seq![check] + after);
    byte_sum_concat(before + seq![0u8], after);
    byte_sum_concat(before, seq![0u8]);
    byte_sum_concat(before + seq![check], after);
    byte_sum_concat(before, seq![check]);
    assert(seq![0u8].drop_last() =~= Seq::<u8>::empty());
    assert(seq![check].drop_last() =~= Seq::<u8>::empty());
    reveal_with_fuel(byte_sum, 2);
    let sum = byte_sum(bytes);
    assert((sum + (256 - (sum % 256) as int) % 256) % 256 == 0);
}

/// The checksum that a firmware table stores over `bytes`.
pub fn checksum(bytes: &[u8]) -> (check: u8)
    ensures
        check == checksum_byte(bytes@),
        (byte_sum(bytes@) + check) % 256 == 0,
{
    let mut sum: u8 = 0;
    let mut i: usize = 0;
    while i < bytes.len()
        invariant
            i <= bytes@.len(),
            sum as nat == byte_sum(bytes@.take(i as int)) % 256,
        decreases bytes@.len() - i,
    {
        proof {
            assert(bytes@.take(i + 1).drop_last() =~= bytes@.take(i as int));
        }
        sum = sum.wrapping_add(bytes[i]);
        i = i + 1;
    }
    proof {
        assert(bytes@.take(i as int) =~= bytes@);
    }
    0u8.wrapping_sub(sum)
}

/// Appends `bytes` as they stand.
pub fn push_bytes(out: &mut Vec<u8>, bytes: &[u8])
    ensures
        final(out)@ == old(out)@ + bytes@,
{
    out.extend_from_slice(bytes);
    proof {
        assert(out@ =~= old(out)@ + bytes@);
    }
}

/// Appends the `width` least significant bytes of `value`, least significant first.
fn push_le(out: &mut Vec<u8>, value: u64, width: usize)
    ensures
        final(out)@ == old(out)@ + le_bytes(value as nat, width as nat),
{
    let mut rest: u64 = value;
    let mut left: usize = width;
    while left > 0
        invariant
            old(out)@ + le_bytes(value as nat, width as nat) == out@ + le_bytes(
                rest as nat,
                left as nat,
            ),
        decreases left,
    {
        let ghost before = out@;
        let ghost tail = le_bytes((rest / 256) as nat, (left - 1) as nat);
        out.push((rest % 256) as u8);
        proof {
            assert(out@ + tail =~= before + le_bytes(rest as nat, left as nat));
        }
        rest = rest / 256;
        left = left - 1;
    }
    proof {
        assert(out@ + le_bytes(rest as nat, 0) =~= out@);
    }
}

/// Overwrites `width` bytes at `offset` with the least significant bytes of `value`.
fn write_le(out: &mut [u8], offset: usize, value: u64, width: usize)
    requires
        offset + width <= old(out)@.len(),
    ensures
        final(out)@ == overwrite(old(out)@, offset as int, le_bytes(value as nat, width as nat)),
{
    let size: usize = out.len();
    let mut rest: u64 = value;
    let mut done: usize = 0;
    proof {
        le_bytes_len(value as nat, width as nat);
        assert(le_bytes(value as nat, width as nat).take(0) + le_bytes(rest as nat, width as nat)
            =~= le_bytes(value as nat, width as nat));
        assert(out@ =~= overwrite(out@, offset as int, le_bytes(value as nat, width as nat).take(0)));
    }
    while done < width
        invariant
            done <= width,
            offset + width <= size,
            size == old(out)@.len(),
            out@.len() == size,
            le_bytes(value as nat, width as nat).len() == width,
            le_bytes(value as nat, width as nat) == le_bytes(value as nat, width as nat).take(
                done as int,
            ) + le_bytes(rest as nat, (width - done) as nat),
            out@ == overwrite(
                old(out)@,
                offset as int,
                le_bytes(value as nat, width as nat).take(done as int),
            ),
        decreases width - done,
    {
        let ghost field = le_bytes(value as nat, width as nat);
        let ghost tail = le_bytes((rest / 256) as nat, (width - done - 1) as nat);
        proof {
            assert(field[done as int] == (rest % 256) as u8);
            assert(field.take(done + 1) =~= field.take(done as int).push((rest % 256) as u8));
            assert(field =~= field.take(done + 1) + tail);
        }
        out[offset + done] = (rest % 256) as u8;
        rest = rest / 256;
        done = done + 1;
        proof {
            assert(out@ =~= overwrite(old(out)@, offset as int, field.take(done as int)));
        }
    }
    proof {
        assert(le_bytes(value as nat, width as nat).take(width as int) =~= le_bytes(
            value as nat,
            width as nat,
        ));
    }
}

/// Appends a 16-bit little-endian field.
pub fn push_u16(out: &mut Vec<u8>, value: u16)
    ensures
        final(out)@ == old(out)@ + le_bytes(value as nat, 2),
{
    push_le(out, value as u64, 2);
}

/// Appends a 32-bit little-endian field.
pub fn push_u32(out: &mut Vec<u8>, value: u32)
    ensures
        final(out)@ == old(out)@ + le_bytes(value as nat, 4),
{
    push_le(out, value as u64, 4);
}

/// Appends a 64-bit little-endian field.
pub fn push_u64(out: &mut Vec<u8>, value: u64)
    ensures
        final(out)@ == old(out)@ + le_bytes(value as nat, 8),
{
    push_le(out, value, 8);
}

/// Overwrites a 16-bit little-endian field.
pub fn write_u16(out: &mut [u8], offset: usize, value: u16)
    requires
        offset + 2 <= old(out)@.len(),
    ensures
        final(out)@ == overwrite(old(out)@, offset as int, le_bytes(value as nat, 2)),
{
    write_le(out, offset, value as u64, 2);
}

/// Overwrites a 32-bit little-endian field.
pub fn write_u32(out: &mut [u8], offset: usize, value: u32)
    requires
        offset + 4 <= old(out)@.len(),
    ensures
        final(out)@ == overwrite(old(out)@, offset as int, le_bytes(value as nat, 4)),
{
    write_le(out, offset, value as u64, 4);
}

/// Overwrites a 64-bit little-endian field.
pub fn write_u64(out: &mut [u8], offset: usize, value: u64)
    requires
        offset + 8 <= old(out)@.len(),
    ensures
        final(out)@ == overwrite(old(out)@, offset as int, le_bytes(value as nat, 8)),
{
    write_le(out, offset, value, 8);
}

/// Overwriting behind a prefix leaves the prefix as it is.
pub proof fn overwrite_behind(prefix: Seq<u8>, bytes: Seq<u8>, offset: int, patch: Seq<u8>)
    requires
        0 <= offset,
        offset + patch.len() <= bytes.len(),
    ensures
        overwrite(prefix + bytes, prefix.len() + offset, patch) == prefix + overwrite(
            bytes,
            offset,
            patch,
        ),
        overwrite(bytes, offset, patch).len() == bytes.len(),
{
    assert(overwrite(prefix + bytes, prefix.len() + offset, patch) =~= prefix + overwrite(
        bytes,
        offset,
        patch,
    ));
}

/// An overwritten field reads back as the number that was written.
pub proof fn read_after_overwrite(bytes: Seq<u8>, offset: int, value: nat, width: nat)
    requires
        0 <= offset,
        offset + width <= bytes.len(),
        value < le_limit(width),
    ensures
        read_le(overwrite(bytes, offset, le_bytes(value, width)), offset, width as int) == value,
{
    le_bytes_len(value, width);
    le_value_of_le_bytes(value, width);
    let patched = overwrite(bytes, offset, le_bytes(value, width));
    assert(patched.subrange(offset, offset + width) =~= le_bytes(value, width));
}

} // verus!
