//! What holds of the names of passed-through devices.

use vstd::prelude::*;

use crate::intx;
use crate::intx::{IntxKey, PciBdf, X86PciIntxSpec};
use crate::text;

verus! {

/// The first separator of two joined texts stands in the first one, if that has any.
proof fn first_index_of_joined(head: Seq<char>, tail: Seq<char>, separator: char)
    ensures
        text::first_index(head, separator) <= head.len(),
        text::first_index(head + tail, separator) == if text::first_index(head, separator)
            < head.len() {
            text::first_index(head, separator)
        } else {
            head.len() + text::first_index(tail, separator)
        },
    decreases head.len(),
{
    if head.len() == 0 {
        assert(head + tail =~= tail);
    } else {
        first_index_of_joined(head.drop_first(), tail, separator);
        assert((head + tail).drop_first() =~= head.drop_first() + tail);
    }
}

/// A text without the separator has no first separator.
proof fn no_first_index(field: Seq<char>, separator: char)
    requires
        !field.contains(separator),
    ensures
        text::first_index(field, separator) == field.len(),
    decreases field.len(),
{
    if field.len() > 0 {
        assert(field.contains(field[0]));
        assert(!field.drop_first().contains(separator)) by {
            if field.drop_first().contains(separator) {
                let i = choose|i: int|
                    0 <= i < field.drop_first().len() && field.drop_first()[i] == separator;
                assert(field[i + 1] == separator);
            }
        }
        no_first_index(field.drop_first(), separator);
    }
}

/// A separator and a field behind a text add the field to its parts.
pub proof fn parts_of_extended(head: Seq<char>, field: Seq<char>, separator: char)
    requires
        !field.contains(separator),
    ensures
        text::parts(head + seq![separator] + field, separator) == text::parts(head, separator).push(
            field,
        ),
    decreases head.len(),
{
    let tail = seq![separator] + field;
    let whole = head + seq![separator] + field;
    assert(whole =~= head + tail);
    first_index_of_joined(head, tail, separator);
    let at = text::first_index(whole, separator);
    if text::first_index(head, separator) < head.len() {
        let rest = head.skip(at as int + 1);
        assert(whole.take(at as int) =~= head.take(at as int));
        assert(whole.skip(at as int + 1) =~= rest + seq![separator] + field);
        parts_of_extended(rest, field, separator);
        assert(text::parts(whole, separator) =~= text::parts(head, separator).push(field));
    } else {
        assert(text::first_index(tail, separator) == 0) by {
            assert(tail[0] == separator);
        }
        no_first_index(field, separator);
        assert(whole.take(at as int) =~= head);
        assert(whole.skip(at as int + 1) =~= field);
        assert(text::parts(field, separator) == seq![field]);
        assert(text::parts(whole, separator) =~= text::parts(head, separator).push(field));
    }
}

/// `name` with one more field.
pub open spec fn extended(name: Seq<char>, field: Seq<char>) -> Seq<char> {
    name + seq![','] + field
}

/// A field behind a name is one more field behind the prefix of the name.
proof fn fields_of_extended(name: Seq<char>, field: Seq<char>, prefix: Seq<char>)
    requires
        !field.contains(','),
        intx::fields_behind(name, prefix) is Some,
    ensures
        intx::fields_behind(extended(name, field), prefix) == Some(
            intx::fields_behind(name, prefix)->0.push(field),
        ),
{
    let rest = name.skip(prefix.len() as int);
    let longer = extended(name, field);
    assert(longer.take(prefix.len() as int) =~= name.take(prefix.len() as int));
    assert(longer.skip(prefix.len() as int) =~= extended(rest, field));
    parts_of_extended(rest, field, ',');
}

/// A name that describes the interrupt pins of a device also describes its PCI functions, and the
/// two agree.
pub proof fn intx_spec_agrees_with_bdfs(name: Seq<char>, spec: X86PciIntxSpec)
    requires
        intx::intx_spec(name) == Some(spec),
    ensures
        intx::intx_bdfs(name) == Some(
            (
                PciBdf { bus: spec.bus, device: spec.dev, function: spec.func },
                PciBdf { bus: 0, device: spec.root_dev, function: spec.root_func },
            ),
        ),
{
}

/// A field that is no assignment, or whose value is invalid, or whose key is unknown, changes
/// neither the interrupt pins nor the PCI functions that a name describes.
pub proof fn malformed_fields_are_ignored(name: Seq<char>, field: Seq<char>)
    requires
        intx::fields_behind(name, intx::INTX_PREFIX@) is Some,
        !field.contains(','),
        match intx::assignment(field) {
            Some((key, Some(_))) => key == IntxKey::Unknown,
            _ => true,
        },
    ensures
        intx::intx_spec(extended(name, field)) == intx::intx_spec(name),
        intx::intx_bdfs(extended(name, field)) == intx::intx_bdfs(name),
{
    let fields = intx::fields_behind(name, intx::INTX_PREFIX@)->0;
    fields_of_extended(name, field, intx::INTX_PREFIX@);
    assert(fields.push(field).drop_last() =~= fields);
}

/// Of two valid assignments to one key the later one counts, and it leaves the other keys alone.
pub proof fn last_assignment_counts(
    name: Seq<char>,
    field: Seq<char>,
    prefix: Seq<char>,
    key: IntxKey,
    value: u8,
)
    requires
        intx::fields_behind(name, prefix) is Some,
        !field.contains(','),
        intx::assignment(field) == Some((key, Some(value))),
    ensures
        intx::fields_behind(extended(name, field), prefix) matches Some(longer) && intx::assigned(
            longer,
            key,
        ) == Some(value) && forall|other: IntxKey|
            other != key ==> #[trigger] intx::assigned(longer, other) == intx::assigned(
                intx::fields_behind(name, prefix)->0,
                other,
            ),
{
    let fields = intx::fields_behind(name, prefix)->0;
    fields_of_extended(name, field, prefix);
    assert(fields.push(field).drop_last() =~= fields);
}

/// One invalid value voids the interrupt vectors of a device, whatever key it belongs to.
pub proof fn invalid_value_voids_the_vectors(name: Seq<char>, field: Seq<char>, prefix: Seq<char>)
    requires
        prefix == intx::MSI_PREFIX@ || prefix == intx::INTX_PREFIX@,
        intx::fields_behind(name, prefix) is Some,
        !field.contains(','),
        intx::assignment(field) matches Some((_, None)),
    ensures
        intx::msi_vector_range(extended(name, field)) is None,
{
    reveal_strlit("pci-msi:");
    reveal_strlit("pci-intx:");
    let fields = intx::fields_behind(name, prefix)->0;
    let longer = extended(name, field);
    fields_of_extended(name, field, prefix);
    assert(fields.push(field)[fields.len() as int] == field);
    if prefix == intx::INTX_PREFIX@ {
        assert(longer.take(9)[4] == 'i');
        assert(longer.take(8)[4] == 'i');
    }
}

} // verus!
