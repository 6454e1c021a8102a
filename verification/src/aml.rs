//! ACPI Machine Language encoding.
//!
//! Every encoder returns the bytes of one AML object. A package length field counts itself and
//! the content behind it.

use vstd::prelude::*;
use vstd::arithmetic::power2::*;
use vstd::bits::*;
use vstd::utf8::*;

use crate::bytes;
use crate::bytes::{push_bytes, push_u16, push_u32};

verus! {

/// One more than the largest total that a package length field can hold.
pub const PKG_LENGTH_LIMIT: usize = 0x1000_0000;

/// The number of bytes in the package length field in front of `content` bytes.
pub open spec fn pkg_length_width(content: nat) -> nat {
    if content + 1 < 0x10 {
        1
    } else if content + 2 < 0x1000 {
        2
    } else if content + 3 < 0x10_0000 {
        3
    } else {
        4
    }
}

/// The package length field in front of `content` bytes.
///
/// A field of one byte is the total itself. In a longer one the first byte holds the number of
/// further bytes in its two top bits and the four low bits of the total; the further bytes hold
/// the rest of the total, least significant first.
pub open spec fn pkg_length(content: nat) -> Seq<u8> {
    let width = pkg_length_width(content);
    let total = content + width;
    if width == 1 {
        seq![total as u8]
    } else {
        seq![((width - 1) * 64 + total % 16) as u8] + bytes::le_bytes(
            total / 16,
            (width - 1) as nat,
        )
    }
}

/// The total that a package length field at the start of `field` stands for.
pub open spec fn pkg_length_value(field: Seq<u8>) -> nat {
    let further = (field[0] / 64) as int;
    if further == 0 {
        (field[0] % 64) as nat
    } else {
        (field[0] % 16) as nat + 16 * bytes::read_le(field, 1, further)
    }
}

/// An opcode, a package length field and the content that the field counts.
pub open spec fn pkg_op(opcode: Seq<u8>, content: Seq<u8>) -> Seq<u8> {
    opcode + pkg_length(content.len()) + content
}

/// An integer constant in its shortest form. Of a value over 32 bits only the low 32 are kept.
pub open spec fn int_const(value: u64) -> Seq<u8> {
    if value == 0 {
        seq![0x00u8]
    } else if value == 1 {
        seq![0x01u8]
    } else if value <= 0xff {
        seq![0x0au8, value as u8]
    } else if value <= 0xffff {
        seq![0x0bu8] + bytes::le_bytes(value as nat, 2)
    } else {
        seq![0x0cu8] + bytes::le_bytes(value as nat % 0x1_0000_0000, 4)
    }
}

/// The integer that an integer constant stands for.
pub open spec fn int_const_value(object: Seq<u8>) -> nat {
    if object[0] == 0x0a {
        bytes::read_le(object, 1, 1)
    } else if object[0] == 0x0b {
        bytes::read_le(object, 1, 2)
    } else if object[0] == 0x0c {
        bytes::read_le(object, 1, 4)
    } else {
        object[0] as nat
    }
}

/// A string constant: its bytes between the string opcode and a zero byte.
pub open spec fn string_const(value: Seq<char>) -> Seq<u8> {
    seq![0x0du8] + encode_utf8(value) + seq![0x00u8]
}

/// A named object.
pub open spec fn name_decl(name: Seq<char>, value: Seq<u8>) -> Seq<u8> {
    seq![0x08u8] + encode_utf8(name) + value
}

/// A scope.
pub open spec fn scope(name: Seq<char>, body: Seq<u8>) -> Seq<u8> {
    pkg_op(seq![0x10u8], encode_utf8(name) + body)
}

/// A device.
pub open spec fn device(name: Seq<char>, body: Seq<u8>) -> Seq<u8> {
    pkg_op(seq![0x5bu8, 0x82u8], encode_utf8(name) + body)
}

/// A buffer: its size as an integer constant, then its bytes.
pub open spec fn buffer(bytes: Seq<u8>) -> Seq<u8> {
    pkg_op(seq![0x11u8], int_const(bytes.len() as u64) + bytes)
}

/// The concatenation of resource descriptors.
pub open spec fn descriptors(resources: Seq<Seq<u8>>) -> Seq<u8>
    decreases resources.len(),
{
    if resources.len() == 0 {
        Seq::empty()
    } else {
        descriptors(resources.drop_last()) + resources.last()
    }
}

/// A resource template: a buffer of descriptors with an end tag behind the last one.
pub open spec fn resource_template(resources: Seq<Seq<u8>>) -> Seq<u8> {
    buffer(descriptors(resources) + seq![0x79u8, 0x00u8])
}

/// A descriptor for `size` ports fixed at `base`.
pub open spec fn fixed_io(base: u16, size: u8) -> Seq<u8> {
    seq![0x47u8, 0x01u8] + bytes::le_bytes(base as nat, 2) + bytes::le_bytes(
        base as nat,
        2,
    ) + seq![0x01u8, size]
}

/// A descriptor for the interrupt line `irq`: a mask with that one bit set.
pub open spec fn irq_line(irq: u8) -> Seq<u8> {
    seq![0x22u8] + bytes::le_bytes(pow2(irq as nat), 2)
}

/// A package length field stands for its own length plus that of the content behind it.
pub proof fn pkg_length_counts_itself(content: nat)
    requires
        content + 4 < PKG_LENGTH_LIMIT,
    ensures
        pkg_length(content).len() == pkg_length_width(content),
        pkg_length_value(pkg_length(content)) == content + pkg_length(content).len(),
{
    let width = pkg_length_width(content);
    let total = content + width;
    if width > 1 {
        let further = (width - 1) as nat;
        let field = pkg_length(content);
        bytes::le_bytes_len(total / 16, further);
        reveal_with_fuel(bytes::le_limit, 4);
        bytes::le_value_of_le_bytes(total / 16, further);
        assert(field[0] == (further * 64 + total % 16) as u8);
        assert(field.subrange(1, 1 + further as int) =~= bytes::le_bytes(total / 16, further));
    }
}

/// An integer constant stands for the value that it was made from, up to 32 bits.
pub proof fn int_const_reads_back(value: u64)
    requires
        value <= 0xffff_ffff,
    ensures
        int_const_value(int_const(value)) == value,
{
    let object = int_const(value);
    reveal_with_fuel(bytes::le_limit, 5);
    if value <= 1 {
    } else if value <= 0xff {
        reveal_with_fuel(bytes::le_value, 2);
        assert(object.subrange(1, 2) =~= seq![value as u8]);
    } else if value <= 0xffff {
        bytes::le_bytes_len(value as nat, 2);
        bytes::le_value_of_le_bytes(value as nat, 2);
        assert(object.subrange(1, 3) =~= bytes::le_bytes(value as nat, 2));
    } else {
        bytes::le_bytes_len(value as nat, 4);
        bytes::le_value_of_le_bytes(value as nat, 4);
        assert(object.subrange(1, 5) =~= bytes::le_bytes(value as nat, 4));
    }
}

/// The package length field in front of `content_len` bytes.
pub fn aml_pkg_len(content_len: usize) -> (field: Vec<u8>)
    requires
        content_len + 4 < PKG_LENGTH_LIMIT,
    ensures
        field@ == pkg_length(content_len as nat),
{
    let mut len_len: usize = 1;
    let mut max_len: usize = 0x10;
    while content_len + len_len >= max_len
        invariant
            content_len + 4 < PKG_LENGTH_LIMIT,
            1 <= len_len <= 4,
            len_len <= pkg_length_width(content_len as nat),
            len_len == 1 ==> max_len == 0x10,
            len_len == 2 ==> max_len == 0x1000,
            len_len == 3 ==> max_len == 0x10_0000,
            len_len == 4 ==> max_len == 0x1000_0000,
        decreases 4 - len_len,
    {
        len_len = len_len + 1;
        max_len = max_len * 0x100;
    }
    let total_len: usize = content_len + len_len;
    let mut field: Vec<u8> = Vec::with_capacity(len_len);
    if len_len == 1 {
        field.push(total_len as u8);
        return field;
    }
    let tag: u8 = (len_len - 1) as u8;
    let low: u8 = (total_len % 16) as u8;
    proof {
        assert((tag << 6u8) | (low & 0x0f) == tag * 64 + low) by (bit_vector)
            requires
                tag < 4,
                low < 16,
        ;
    }
    field.push((tag << 6u8) | (low & 0x0f));
    let mut remaining: usize = total_len / 16;
    let mut left: usize = len_len - 1;
    while left > 0
        invariant
            pkg_length(content_len as nat) == field@ + bytes::le_bytes(
                remaining as nat,
                left as nat,
            ),
        decreases left,
    {
        let ghost before = field@;
        let ghost tail = bytes::le_bytes((remaining / 256) as nat, (left - 1) as nat);
        field.push((remaining % 256) as u8);
        proof {
            assert(field@ + tail =~= before + bytes::le_bytes(
                remaining as nat,
                left as nat,
            ));
        }
        remaining = remaining / 256;
        left = left - 1;
    }
    proof {
        assert(field@ + bytes::le_bytes(remaining as nat, 0) =~= field@);
    }
    field
}


/// An opcode with a package length field and its content.
pub fn aml_pkg_op(opcode: &[u8], content: Vec<u8>) -> (object: Vec<u8>)
    requires
        content@.len() + 4 < PKG_LENGTH_LIMIT,
    ensures
        object@ == pkg_op(opcode@, content@),
{
    let mut out: Vec<u8> = Vec::new();
    push_bytes(&mut out, opcode);
    push_bytes(&mut out, &aml_pkg_len(content.len()));
    push_bytes(&mut out, &content);
    proof {
        assert(Seq::<u8>::empty() + opcode@ =~= opcode@);
    }
    out
}

/// An integer constant.
pub fn aml_int(value: u64) -> (object: Vec<u8>)
    ensures
        object@ == int_const(value),
{
    let mut out: Vec<u8> = Vec::new();
    if value == 0 {
        out.push(0x00);
    } else if value == 1 {
        out.push(0x01);
    } else if value <= 0xff {
        out.push(0x0a);
        out.push(value as u8);
    } else if value <= 0xffff {
        out.push(0x0b);
        push_u16(&mut out, value as u16);
    } else {
        out.push(0x0c);
        push_u32(&mut out, (value % 0x1_0000_0000) as u32);
    }
    proof {
        assert(out@ =~= int_const(value));
    }
    out
}

/// The bytes of a four-character object name.
pub fn aml_name_ref(name: &str) -> (bytes: Vec<u8>)
    requires
        encode_utf8(name@).len() == 4,
    ensures
        bytes@ == encode_utf8(name@),
{
    vstd::slice::slice_to_vec(name.as_bytes())
}

/// A string constant.
pub fn aml_string(value: &str) -> (object: Vec<u8>)
    ensures
        object@ == string_const(value@),
{
    let mut out: Vec<u8> = Vec::new();
    out.push(0x0d);
    push_bytes(&mut out, value.as_bytes());
    out.push(0);
    proof {
        assert(out@ =~= string_const(value@));
    }
    out
}

/// A named object.
pub fn aml_name_decl(name: &str, value: Vec<u8>) -> (object: Vec<u8>)
    requires
        encode_utf8(name@).len() == 4,
    ensures
        object@ == name_decl(name@, value@),
{
    let mut out: Vec<u8> = Vec::new();
    out.push(0x08);
    push_bytes(&mut out, &aml_name_ref(name));
    push_bytes(&mut out, &value);
    proof {
        assert(out@ =~= name_decl(name@, value@));
    }
    out
}

/// A scope named `name` around `body`.
pub fn aml_scope(name: &str, body: Vec<u8>) -> (object: Vec<u8>)
    requires
        encode_utf8(name@).len() == 4,
        body@.len() + 8 < PKG_LENGTH_LIMIT,
    ensures
        object@ == scope(name@, body@),
{
    let mut content: Vec<u8> = aml_name_ref(name);
    push_bytes(&mut content, &body);
    let opcode: [u8; 1] = [0x10];
    proof {
        assert(opcode@ =~= seq![0x10u8]);
    }
    aml_pkg_op(&opcode, content)
}

/// A device named `name` around `body`.
pub fn aml_device(name: &str, body: Vec<u8>) -> (object: Vec<u8>)
    requires
        encode_utf8(name@).len() == 4,
        body@.len() + 8 < PKG_LENGTH_LIMIT,
    ensures
        object@ == device(name@, body@),
{
    let mut content: Vec<u8> = aml_name_ref(name);
    push_bytes(&mut content, &body);
    let opcode: [u8; 2] = [0x5b, 0x82];
    proof {
        assert(opcode@ =~= seq![0x5bu8, 0x82u8]);
    }
    aml_pkg_op(&opcode, content)
}

/// A buffer that holds `bytes`.
pub fn aml_buffer(bytes: &[u8]) -> (object: Vec<u8>)
    requires
        bytes@.len() + 9 < PKG_LENGTH_LIMIT,
    ensures
        object@ == buffer(bytes@),
{
    let mut content: Vec<u8> = aml_int(bytes.len() as u64);
    proof {
        bytes::le_bytes_len(bytes@.len(), 2);
        bytes::le_bytes_len(bytes@.len() % 0x1_0000_0000, 4);
    }
    push_bytes(&mut content, bytes);
    let opcode: [u8; 1] = [0x11];
    proof {
        assert(opcode@ =~= seq![0x11u8]);
    }
    aml_pkg_op(&opcode, content)
}

/// A resource template that holds `resources` in order.
pub fn aml_resource_template(resources: &[Vec<u8>]) -> (object: Vec<u8>)
    requires
        descriptors(resources@.map_values(|r: Vec<u8>| r@)).len() + 11 < PKG_LENGTH_LIMIT,
    ensures
        object@ == resource_template(resources@.map_values(|r: Vec<u8>| r@)),
{
    let ghost parts = resources@.map_values(|r: Vec<u8>| r@);
    let mut joined: Vec<u8> = Vec::new();
    let mut i: usize = 0;
    while i < resources.len()
        invariant
            i <= resources@.len(),
            parts == resources@.map_values(|r: Vec<u8>| r@),
            joined@ == descriptors(parts.take(i as int)),
        decreases resources@.len() - i,
    {
        proof {
            assert(parts.take(i + 1).drop_last() =~= parts.take(i as int));
            assert(parts.take(i + 1).last() == resources@[i as int]@);
        }
        push_bytes(&mut joined, &resources[i]);
        i = i + 1;
    }
    let end_tag: [u8; 2] = [0x79, 0x00];
    push_bytes(&mut joined, &end_tag);
    proof {
        assert(parts.take(i as int) =~= parts);
        assert(end_tag@ =~= seq![0x79u8, 0x00u8]);
    }
    aml_buffer(&joined)
}

/// A descriptor for `size` ports fixed at `base`.
pub fn fixed_io_resource(base: u16, size: u8) -> (descriptor: Vec<u8>)
    ensures
        descriptor@ == fixed_io(base, size),
{
    let mut out: Vec<u8> = Vec::new();
    out.push(0x47);
    out.push(0x01);
    push_u16(&mut out, base);
    push_u16(&mut out, base);
    out.push(1);
    out.push(size);
    proof {
        assert(out@ =~= fixed_io(base, size));
    }
    out
}

/// A descriptor for the interrupt line `irq`.
pub fn irq_resource(irq: u8) -> (descriptor: Vec<u8>)
    requires
        irq < 16,
    ensures
        descriptor@ == irq_line(irq),
{
    proof {
        lemma_u16_pow2_no_overflow(irq as nat);
        lemma_u16_shl_is_mul(1, irq as u16);
        assert(1u16 << irq == 1u16 << (irq as u16));
    }
    let mask: u16 = 1u16 << irq;
    let mut out: Vec<u8> = Vec::new();
    out.push(0x22);
    push_u16(&mut out, mask);
    proof {
        assert(out@ =~= irq_line(irq));
    }
    out
}

} // verus!
