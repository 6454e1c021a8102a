//! What holds of AML objects.

use vstd::arithmetic::power2::*;
use vstd::prelude::*;
use vstd::utf8::*;

use crate::aml;
use crate::bytes;

verus! {

/// How many bytes the package length field at `at` has: one more than its two top bits say.
pub open spec fn size_bytes(object: Seq<u8>, at: int) -> nat {
    1 + (object[at] / 64) as nat
}

/// The size that the package length field at `at` gives: the low bits of the first byte, and above
/// them the further bytes, least significant first.
pub open spec fn package_size(object: Seq<u8>, at: int) -> nat {
    let low = (object[at] % 16) as nat;
    if object[at] < 64 {
        object[at] as nat
    } else if object[at] < 128 {
        low + 0x10 * object[at + 1] as nat
    } else if object[at] < 192 {
        low + 0x10 * object[at + 1] as nat + 0x1000 * object[at + 2] as nat
    } else {
        low + 0x10 * object[at + 1] as nat + 0x1000 * object[at + 2] as nat + 0x10_0000 * object[at
            + 3] as nat
    }
}

/// One more than the largest size that a field of `width` bytes gives.
pub open spec fn size_limit(width: nat) -> nat {
    if width == 1 {
        0x10
    } else if width == 2 {
        0x1000
    } else if width == 3 {
        0x10_0000
    } else {
        0x1000_0000
    }
}

/// The bytes of a number, one by one.
#[verifier::rlimit(50)]
proof fn bytes_one_by_one(value: nat)
    ensures
        bytes::le_bytes(value, 1) == seq![(value % 0x100) as u8],
        bytes::le_bytes(value, 2) == seq![(value % 0x100) as u8, (value / 0x100 % 0x100) as u8],
        bytes::le_bytes(value, 3) == seq![
            (value % 0x100) as u8,
            (value / 0x100 % 0x100) as u8,
            (value / 0x1_0000 % 0x100) as u8,
        ],
        bytes::le_bytes(value, 4) == seq![
            (value % 0x100) as u8,
            (value / 0x100 % 0x100) as u8,
            (value / 0x1_0000 % 0x100) as u8,
            (value / 0x100_0000 % 0x100) as u8,
        ],
{
    reveal_with_fuel(bytes::le_bytes, 5);
    assert(value / 256 / 256 == value / 0x1_0000);
    assert(value / 256 / 256 / 256 == value / 0x100_0000);
    assert(bytes::le_bytes(value, 1) =~= seq![(value % 0x100) as u8]);
    assert(bytes::le_bytes(value, 2) =~= seq![
        (value % 0x100) as u8,
        (value / 0x100 % 0x100) as u8,
    ]);
    assert(bytes::le_bytes(value, 3) =~= seq![
        (value % 0x100) as u8,
        (value / 0x100 % 0x100) as u8,
        (value / 0x1_0000 % 0x100) as u8,
    ]);
    assert(bytes::le_bytes(value, 4) =~= seq![
        (value % 0x100) as u8,
        (value / 0x100 % 0x100) as u8,
        (value / 0x1_0000 % 0x100) as u8,
        (value / 0x100_0000 % 0x100) as u8,
    ]);
}

/// A package length field gives its own size and that of the content behind it together, and it is
/// the shortest field that can: a size of up to four bits has one byte, one of up to twelve two, one
/// of up to twenty three, one of up to twenty-eight four.
#[verifier::rlimit(50)]
pub proof fn size_fields_are_exact_and_short(content: nat)
    requires
        content + 4 < 0x1000_0000,
    ensures
        ({
            let field = aml::pkg_length(content);
            let width = field.len();
            &&& 1 <= width <= 4
            &&& size_bytes(field, 0) == width
            &&& package_size(field, 0) == content + width
            &&& content + width < size_limit(width)
            &&& width > 1 ==> content + width - 1 >= size_limit((width - 1) as nat)
        }),
{
    let field = aml::pkg_length(content);
    let width = aml::pkg_length_width(content);
    let total = content + width;
    bytes_one_by_one(total / 16);
    if width == 1 {
        assert(field.len() == 1);
    } else {
        let high = total / 16;
        bytes::le_bytes_len(high, (width - 1) as nat);
        assert(field.len() == width);
        assert(field[0] == ((width - 1) * 64 + total % 16) as u8);
        assert(field[1] == (high % 0x100) as u8);
        if width == 2 {
            assert(high < 0x100);
        } else if width == 3 {
            assert(field[2] == (high / 0x100 % 0x100) as u8);
            assert(high < 0x1_0000);
            assert(high == high % 0x100 + 0x100 * (high / 0x100));
        } else {
            assert(field[2] == (high / 0x100 % 0x100) as u8);
            assert(field[3] == (high / 0x1_0000 % 0x100) as u8);
            assert(high < 0x100_0000);
            assert(high == high % 0x100 + 0x100 * (high / 0x100 % 0x100) + 0x1_0000 * (high
                / 0x1_0000));
        }
    }
}

/// Whether an object consists of an opcode, a size that reaches to its end, and a content.
pub open spec fn is_package(object: Seq<u8>, opcode: Seq<u8>, content: Seq<u8>) -> bool {
    let at = opcode.len() as int;
    &&& object.len() == opcode.len() + size_bytes(object, at) + content.len()
    &&& object.take(at) == opcode
    &&& package_size(object, at) == object.len() - at
    &&& object.skip(at + size_bytes(object, at)) == content
}

/// A package is its opcode, a size that reaches to its end, and its content.
pub proof fn packages_reach_to_their_end(opcode: Seq<u8>, content: Seq<u8>)
    requires
        content.len() + 4 < 0x1000_0000,
    ensures
        is_package(aml::pkg_op(opcode, content), opcode, content),
{
    let object = aml::pkg_op(opcode, content);
    let field = aml::pkg_length(content.len());
    let at = opcode.len() as int;
    size_fields_are_exact_and_short(content.len());
    assert(object[at] == field[0]);
    assert(field.len() > 1 ==> object[at + 1] == field[1]);
    assert(field.len() > 2 ==> object[at + 2] == field[2]);
    assert(field.len() > 3 ==> object[at + 3] == field[3]);
    assert(object.take(at) =~= opcode);
    assert(object.skip(at + field.len()) =~= content);
}

/// A scope has opcode 0x10 and holds its name and its body, a device has opcode 0x5b 0x82 and holds
/// its name and its body.
pub proof fn scopes_and_devices_are_packages(name: Seq<char>, body: Seq<u8>)
    requires
        encode_utf8(name).len() + body.len() + 4 < 0x1000_0000,
    ensures
        is_package(aml::scope(name, body), seq![0x10u8], encode_utf8(name) + body),
        is_package(aml::device(name, body), seq![0x5bu8, 0x82u8], encode_utf8(name) + body),
{
    packages_reach_to_their_end(seq![0x10u8], encode_utf8(name) + body);
    packages_reach_to_their_end(seq![0x5bu8, 0x82u8], encode_utf8(name) + body);
}

/// A buffer has opcode 0x11 and holds its size, as an integer, and its bytes.
pub proof fn buffers_are_packages(content: Seq<u8>)
    requires
        content.len() + 9 < 0x1000_0000,
    ensures
        is_package(
            aml::buffer(content),
            seq![0x11u8],
            aml::int_const(content.len() as u64) + content,
        ),
{
    let size = aml::int_const(content.len() as u64);
    bytes::le_bytes_len(content.len(), 2);
    bytes::le_bytes_len(content.len() % 0x1_0000_0000, 4);
    assert(size.len() <= 5);
    packages_reach_to_their_end(seq![0x11u8], size + content);
}

/// A resource template is a buffer of the descriptors in their order and the end tag 0x79 0x00.
pub proof fn templates_end_with_the_end_tag(
    resources: Seq<Seq<u8>>,
    more: Seq<Seq<u8>>,
    resource: Seq<u8>,
)
    ensures
        aml::resource_template(resources) == aml::buffer(
            aml::descriptors(resources) + seq![0x79u8, 0x00u8],
        ),
        aml::descriptors(Seq::empty()) == Seq::<u8>::empty(),
        aml::descriptors(seq![resource]) == resource,
        aml::descriptors(resources + more) == aml::descriptors(resources) + aml::descriptors(more),
    decreases more.len(),
{
    reveal_with_fuel(aml::descriptors, 2);
    assert(seq![resource].drop_last() =~= Seq::empty());
    assert(aml::descriptors(seq![resource]) =~= resource);
    if more.len() == 0 {
        assert(resources + more =~= resources);
        assert(aml::descriptors(resources) + aml::descriptors(more) =~= aml::descriptors(
            resources,
        ));
    } else {
        templates_end_with_the_end_tag(resources, more.drop_last(), resource);
        assert((resources + more).drop_last() =~= resources + more.drop_last());
        assert(aml::descriptors(resources + more) =~= aml::descriptors(resources)
            + aml::descriptors(more));
    }
}

/// An integer takes the shortest form that holds it: zero and one are their own opcodes, then come a
/// byte, a word and a double word behind theirs. Of larger ones the low 32 bits are kept.
#[verifier::rlimit(50)]
pub proof fn integers_take_the_shortest_form(value: u64)
    ensures
        ({
            let object = aml::int_const(value);
            if value <= 1 {
                object.len() == 1 && object[0] == value
            } else if value < 0x100 {
                object.len() == 2 && object[0] == 0x0a && object[1] == value
            } else if value < 0x1_0000 {
                object.len() == 3 && object[0] == 0x0b && object[1] + 0x100 * object[2] == value
            } else {
                object.len() == 5 && object[0] == 0x0c && object[1] + 0x100 * object[2] + 0x1_0000
                    * object[3] + 0x100_0000 * object[4] == value as nat % 0x1_0000_0000
            }
        }),
{
    let low = value as nat % 0x1_0000_0000;
    bytes_one_by_one(value as nat);
    bytes_one_by_one(low);
    assert(low == low % 0x100 + 0x100 * (low / 0x100 % 0x100) + 0x1_0000 * (low / 0x1_0000 % 0x100)
        + 0x100_0000 * (low / 0x100_0000)) by {
        assert(low / 0x100 == low / 0x1_0000 * 0x100 + low / 0x100 % 0x100);
        assert(low / 0x1_0000 == low / 0x100_0000 * 0x100 + low / 0x1_0000 % 0x100);
    }
}

/// A string is the opcode 0x0d, its bytes and a zero byte.
pub proof fn strings_end_with_zero(value: Seq<char>)
    ensures
        ({
            let object = aml::string_const(value);
            let text = encode_utf8(value);
            &&& object.len() == text.len() + 2
            &&& object[0] == 0x0d
            &&& object.subrange(1, text.len() as int + 1) == text
            &&& object[text.len() as int + 1] == 0
        }),
{
    let object = aml::string_const(value);
    let text = encode_utf8(value);
    assert(object.subrange(1, text.len() as int + 1) =~= text);
}

/// A named object is the opcode 0x08, the name and the value.
pub proof fn names_come_before_their_values(name: Seq<char>, value: Seq<u8>)
    ensures
        ({
            let object = aml::name_decl(name, value);
            let text = encode_utf8(name);
            &&& object[0] == 0x08
            &&& object.subrange(1, text.len() as int + 1) == text
            &&& object.skip(text.len() as int + 1) == value
        }),
{
    let object = aml::name_decl(name, value);
    let text = encode_utf8(name);
    assert(object.subrange(1, text.len() as int + 1) =~= text);
    assert(object.skip(text.len() as int + 1) =~= value);
}

/// A port descriptor has the tag 0x47, decodes sixteen bits, gives the base as the lowest and as the
/// highest base, needs no alignment, and ends with the number of ports.
#[verifier::rlimit(50)]
pub proof fn port_descriptors_are_fixed(base: u16, size: u8)
    ensures
        ({
            let descriptor = aml::fixed_io(base, size);
            &&& descriptor.len() == 8
            &&& descriptor[0] == 0x47
            &&& descriptor[1] == 1
            &&& descriptor[2] + 0x100 * descriptor[3] == base
            &&& descriptor[4] + 0x100 * descriptor[5] == base
            &&& descriptor[6] == 1
            &&& descriptor[7] == size
        }),
{
    bytes_one_by_one(base as nat);
}

/// An interrupt descriptor has the tag 0x22 and a mask in which the bit of its line, and no other, is
/// set.
#[verifier::rlimit(50)]
pub proof fn interrupt_descriptors_have_one_line(irq: u8)
    requires
        irq < 16,
    ensures
        ({
            let descriptor = aml::irq_line(irq);
            &&& descriptor.len() == 3
            &&& descriptor[0] == 0x22
            &&& descriptor[1] + 0x100 * descriptor[2] == pow2(irq as nat)
        }),
{
    bytes_one_by_one(pow2(irq as nat));
    lemma2_to64();
    assert(pow2(irq as nat) < 0x1_0000);
}

} // verus!
