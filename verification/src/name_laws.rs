//! What the names of passed-through devices mean.

use vstd::prelude::*;

use crate::intx;
use crate::intx::{IntxKey, PciBdf, X86PciIntxSpec};
use crate::text;
use crate::text_laws;

verus! {

/// The prefixes of names.
pub proof fn names_have_their_prefixes()
    ensures
        intx::INTX_PREFIX@ == "pci-intx:"@,
        intx::MSI_PREFIX@ == "pci-msi:"@,
{
}

/// The names of keys differ from each other.
proof fn key_names_differ()
    ensures
        "bus"@.len() == 3 && "bus"@[0] == 'b',
        "dev"@.len() == 3 && "dev"@[0] == 'd',
        "pin"@.len() == 3 && "pin"@[0] == 'p',
        "func"@.len() == 4,
        "device"@.len() == 6,
        "msi_end"@.len() == 7,
        "function"@.len() == 8 && "function"@[0] == 'f',
        "root_dev"@.len() == 8 && "root_dev"@[0] == 'r' && "root_dev"@[5] == 'd',
        "root_pin"@.len() == 8 && "root_pin"@[0] == 'r' && "root_pin"@[5] == 'p',
        "root_func"@.len() == 9 && "root_func"@[0] == 'r',
        "msi_start"@.len() == 9 && "msi_start"@[0] == 'm',
        "vector_end"@.len() == 10,
        "root_device"@.len() == 11,
        "vector_start"@.len() == 12,
        "root_function"@.len() == 13,
{
    reveal_strlit("bus");
    reveal_strlit("dev");
    reveal_strlit("pin");
    reveal_strlit("func");
    reveal_strlit("device");
    reveal_strlit("msi_end");
    reveal_strlit("function");
    reveal_strlit("root_dev");
    reveal_strlit("root_pin");
    reveal_strlit("root_func");
    reveal_strlit("msi_start");
    reveal_strlit("vector_end");
    reveal_strlit("root_device");
    reveal_strlit("vector_start");
    reveal_strlit("root_function");
}

/// Each key has exactly its names: a short and a long one, or one alone. The keys of vectors go by
/// `msi` and by `vector`. Every other name is unknown.
#[verifier::rlimit(50)]
pub proof fn keys_have_their_names(name: Seq<char>)
    ensures
        intx::key_named(name) == IntxKey::Bus <==> name == "bus"@,
        intx::key_named(name) == IntxKey::Device <==> name == "dev"@ || name == "device"@,
        intx::key_named(name) == IntxKey::Function <==> name == "func"@ || name == "function"@,
        intx::key_named(name) == IntxKey::Pin <==> name == "pin"@,
        intx::key_named(name) == IntxKey::RootDevice <==> name == "root_dev"@ || name
            == "root_device"@,
        intx::key_named(name) == IntxKey::RootFunction <==> name == "root_func"@ || name
            == "root_function"@,
        intx::key_named(name) == IntxKey::RootPin <==> name == "root_pin"@,
        intx::key_named(name) == IntxKey::VectorStart <==> name == "msi_start"@ || name
            == "vector_start"@,
        intx::key_named(name) == IntxKey::VectorEnd <==> name == "msi_end"@ || name
            == "vector_end"@,
{
    key_names_differ();
}

/// A value is read as it stands between the white space around it: to the base 16 behind `0x` or
/// `0X`, to the base 10 otherwise.
pub proof fn values_are_decimal_or_hexadecimal(value: Seq<char>)
    ensures
        ({
            let inner = text::trimmed(value);
            if inner.len() >= 2 && inner[0] == '0' && (inner[1] == 'x' || inner[1] == 'X') {
                intx::config_value(value) == text::byte_number(inner.skip(2), 16)
            } else {
                intx::config_value(value) == text::byte_number(inner, 10)
            }
        }),
{
    let inner = text::trimmed(value);
    reveal_strlit("0x");
    reveal_strlit("0X");
    if inner.len() >= 2 {
        if inner[0] == '0' && inner[1] == 'x' {
            assert(inner.take(2) =~= "0x"@);
        } else {
            assert(inner.take(2)[0] == inner[0] && inner.take(2)[1] == inner[1]);
        }
        if inner[0] == '0' && inner[1] == 'X' {
            assert(inner.take(2) =~= "0X"@);
        }
    }
}

/// Every byte reads back as a value from its decimal form, and from its hexadecimal form behind
/// either prefix.
#[verifier::rlimit(50)]
pub proof fn written_values_read_back(byte: u8)
    ensures
        intx::config_value(text_laws::decimal(byte)) == Some(byte),
        intx::config_value(seq!['0', 'x'] + text_laws::hexadecimal(byte)) == Some(byte),
        intx::config_value(seq!['0', 'X'] + text_laws::hexadecimal(byte)) == Some(byte),
{
    let tens = text_laws::decimal(byte);
    let hex = text_laws::hexadecimal(byte);
    let small = seq!['0', 'x'] + hex;
    let large = seq!['0', 'X'] + hex;
    text_laws::written_bytes_read_back(byte);
    not_blank(tens[0]);
    not_blank(tens.last());
    not_blank('0');
    not_blank(hex[1]);
    text_laws::trimmed_texts_stay(tens);
    text_laws::trimmed_texts_stay(small);
    text_laws::trimmed_texts_stay(large);
    values_are_decimal_or_hexadecimal(tens);
    values_are_decimal_or_hexadecimal(small);
    values_are_decimal_or_hexadecimal(large);
    assert(small.skip(2) =~= hex);
    assert(large.skip(2) =~= hex);
}

/// Digits and letters are no white space.
proof fn not_blank(c: char)
    requires
        '0' <= c <= 'z',
    ensures
        !text_laws::is_blank(c),
{
    text_laws::spaces_are_blanks(c);
}

/// A field assigns what stands behind its first `=` to the key before it, without the white space
/// around either, and assigns nothing without a `=`.
pub proof fn fields_assign_values_to_keys(key: Seq<char>, value: Seq<char>, field: Seq<char>)
    ensures
        !key.contains('=') ==> intx::assignment(key + seq!['='] + value) == Some(
            (intx::key_named(text::trimmed(key)), intx::config_value(value)),
        ),
        !field.contains('=') ==> intx::assignment(field) is None,
{
    if !key.contains('=') {
        text_laws::joined_halves_come_apart(key, value, '=');
    }
    if !field.contains('=') {
        text_laws::splits_are_at_the_first_separator(field, '=');
        if let Some((head, tail)) = text::split_at_first(field, '=') {
            assert(field[head.len() as int] == '=');
        }
    }
}

/// Without fields nothing is assigned. One more field assigns its value to its key, if the value is
/// valid, and leaves all else as it was.
pub proof fn the_last_field_counts(fields: Seq<Seq<char>>, field: Seq<char>, key: IntxKey)
    ensures
        intx::assigned(Seq::empty(), key) is None,
        intx::assigned(fields.push(field), key) == match intx::assignment(field) {
            Some((found, Some(value))) => if found == key {
                Some(value)
            } else {
                intx::assigned(fields, key)
            },
            _ => intx::assigned(fields, key),
        },
{
    assert(fields.push(field).drop_last() =~= fields);
}

/// Without fields all is valid. One more field keeps it so unless it assigns an invalid value.
pub proof fn an_invalid_value_is_noticed(fields: Seq<Seq<char>>, field: Seq<char>)
    ensures
        intx::all_valid(Seq::empty()),
        intx::all_valid(fields.push(field)) <==> intx::all_valid(fields) && !(intx::assignment(
            field,
        ) matches Some((_, None))),
{
    let longer = fields.push(field);
    assert(forall|i: int| 0 <= i < fields.len() ==> longer[i] == fields[i]);
    assert(longer[fields.len() as int] == field);
}

/// The fields of a name are what stands between the commas behind the prefix. A name without the
/// prefix has none.
pub proof fn fields_stand_between_commas(
    prefix: Seq<char>,
    fields: Seq<Seq<char>>,
    name: Seq<char>,
)
    requires
        fields.len() > 0,
        forall|i: int| 0 <= i < fields.len() ==> !(#[trigger] fields[i]).contains(','),
    ensures
        intx::fields_behind(prefix + text_laws::joined(fields, ','), prefix) == Some(fields),
        intx::fields_behind(name, prefix) is Some <==> name.len() >= prefix.len() && name.take(
            prefix.len() as int,
        ) == prefix,
{
    let rest = text_laws::joined(fields, ',');
    text_laws::prefixes_are_taken_off(prefix + rest, prefix, rest);
    text_laws::joined_texts_come_apart(fields, ',');
}

/// A name describes interrupt pins exactly if it has the prefix of pins and assigns all seven
/// numbers, and then it describes those.
pub proof fn pins_need_all_seven_numbers(name: Seq<char>, fields: Seq<Seq<char>>)
    ensures
        intx::fields_behind(name, "pci-intx:"@) is None ==> intx::intx_spec(name) is None,
        intx::fields_behind(name, "pci-intx:"@) == Some(fields) ==> {
            &&& intx::intx_spec(name) is Some <==> {
                &&& intx::assigned(fields, IntxKey::Bus) is Some
                &&& intx::assigned(fields, IntxKey::Device) is Some
                &&& intx::assigned(fields, IntxKey::Function) is Some
                &&& intx::assigned(fields, IntxKey::Pin) is Some
                &&& intx::assigned(fields, IntxKey::RootDevice) is Some
                &&& intx::assigned(fields, IntxKey::RootFunction) is Some
                &&& intx::assigned(fields, IntxKey::RootPin) is Some
            }
            &&& intx::intx_spec(name) matches Some(spec) ==> {
                &&& intx::assigned(fields, IntxKey::Bus) == Some(spec.bus)
                &&& intx::assigned(fields, IntxKey::Device) == Some(spec.dev)
                &&& intx::assigned(fields, IntxKey::Function) == Some(spec.func)
                &&& intx::assigned(fields, IntxKey::Pin) == Some(spec.pin)
                &&& intx::assigned(fields, IntxKey::RootDevice) == Some(spec.root_dev)
                &&& intx::assigned(fields, IntxKey::RootFunction) == Some(spec.root_func)
                &&& intx::assigned(fields, IntxKey::RootPin) == Some(spec.root_pin)
            }
        },
{
}

/// A name describes PCI functions exactly if it has the prefix of pins and assigns bus, device,
/// function and root device. The root function is on bus 0, and its number is 0 unless assigned.
pub proof fn functions_need_four_numbers(name: Seq<char>, fields: Seq<Seq<char>>)
    ensures
        intx::fields_behind(name, "pci-intx:"@) is None ==> intx::intx_bdfs(name) is None,
        intx::fields_behind(name, "pci-intx:"@) == Some(fields) ==> {
            &&& intx::intx_bdfs(name) is Some <==> {
                &&& intx::assigned(fields, IntxKey::Bus) is Some
                &&& intx::assigned(fields, IntxKey::Device) is Some
                &&& intx::assigned(fields, IntxKey::Function) is Some
                &&& intx::assigned(fields, IntxKey::RootDevice) is Some
            }
            &&& intx::intx_bdfs(name) matches Some((endpoint, root)) ==> {
                &&& intx::assigned(fields, IntxKey::Bus) == Some(endpoint.bus)
                &&& intx::assigned(fields, IntxKey::Device) == Some(endpoint.device)
                &&& intx::assigned(fields, IntxKey::Function) == Some(endpoint.function)
                &&& root.bus == 0
                &&& intx::assigned(fields, IntxKey::RootDevice) == Some(root.device)
                &&& match intx::assigned(fields, IntxKey::RootFunction) {
                    Some(function) => root.function == function,
                    None => root.function == 0,
                }
            }
        },
{
}

/// A name describes interrupt vectors exactly if it has a prefix, all its values are valid, and it
/// assigns the first or the last one. One that is not assigned is the other.
pub proof fn vectors_need_one_number(name: Seq<char>, fields: Seq<Seq<char>>)
    ensures
        intx::fields_behind(name, "pci-msi:"@) is None && intx::fields_behind(name, "pci-intx:"@)
            is None ==> intx::msi_vector_range(name) is None,
        intx::fields_behind(name, "pci-msi:"@) == Some(fields) || intx::fields_behind(
            name,
            "pci-intx:"@,
        ) == Some(fields) ==> {
            let first = intx::assigned(fields, IntxKey::VectorStart);
            let last = intx::assigned(fields, IntxKey::VectorEnd);
            &&& intx::msi_vector_range(name) is Some <==> intx::all_valid(fields) && (first is Some
                || last is Some)
            &&& intx::msi_vector_range(name) matches Some((start, end)) ==> {
                &&& first is Some ==> first == Some(start)
                &&& last is Some ==> last == Some(end)
                &&& first is None || last is None ==> start == end
            }
        },
{
    reveal_strlit("pci-msi:");
    reveal_strlit("pci-intx:");
    if intx::fields_behind(name, "pci-msi:"@) is Some && intx::fields_behind(name, "pci-intx:"@)
        is Some {
        assert(name.take(8)[4] == 'm');
        assert(name.take(9)[4] == 'i');
    }
}

/// A field that assigns a byte to a key in decimal.
pub open spec fn field(key: Seq<char>, byte: u8) -> Seq<char> {
    key + seq!['='] + text_laws::decimal(byte)
}

/// Such a field has no comma and is read as it was meant.
#[verifier::rlimit(50)]
proof fn field_reads_back(key: Seq<char>, byte: u8)
    requires
        key.len() > 0,
        forall|i: int| 0 <= i < key.len() ==> '_' <= #[trigger] key[i] <= 'z',
    ensures
        !field(key, byte).contains(','),
        intx::assignment(field(key, byte)) == Some((intx::key_named(key), Some(byte))),
{
    let all = field(key, byte);
    let tens = text_laws::decimal(byte);
    assert forall|i: int| 0 <= i < all.len() implies all[i] != ',' by {
        if i < key.len() {
            assert(all[i] == key[i]);
        } else if i > key.len() {
            assert(all[i] == tens[i - key.len() - 1]);
        }
    }
    assert forall|i: int| 0 <= i < key.len() implies key[i] != '=' by {
        assert('_' <= key[i]);
    }
    assert(!key.contains('='));
    not_blank(key[0]);
    not_blank(key.last());
    text_laws::trimmed_texts_stay(key);
    written_values_read_back(byte);
    fields_assign_values_to_keys(key, tens, all);
}

/// The name that describes interrupt pins.
pub open spec fn name_of_pins(spec: X86PciIntxSpec) -> Seq<char> {
    "pci-intx:"@ + text_laws::joined(fields_of_pins(spec), ',')
}

/// The fields of the name that describes interrupt pins.
pub open spec fn fields_of_pins(spec: X86PciIntxSpec) -> Seq<Seq<char>> {
    seq![
        field("bus"@, spec.bus),
        field("dev"@, spec.dev),
        field("func"@, spec.func),
        field("pin"@, spec.pin),
        field("root_dev"@, spec.root_dev),
        field("root_func"@, spec.root_func),
        field("root_pin"@, spec.root_pin),
    ]
}

/// The key that each of those fields assigns to.
pub open spec fn key_of_field(at: int) -> IntxKey {
    if at == 0 {
        IntxKey::Bus
    } else if at == 1 {
        IntxKey::Device
    } else if at == 2 {
        IntxKey::Function
    } else if at == 3 {
        IntxKey::Pin
    } else if at == 4 {
        IntxKey::RootDevice
    } else if at == 5 {
        IntxKey::RootFunction
    } else {
        IntxKey::RootPin
    }
}

/// The value that each of those fields assigns.
pub open spec fn value_of_field(spec: X86PciIntxSpec, at: int) -> u8 {
    if at == 0 {
        spec.bus
    } else if at == 1 {
        spec.dev
    } else if at == 2 {
        spec.func
    } else if at == 3 {
        spec.pin
    } else if at == 4 {
        spec.root_dev
    } else if at == 5 {
        spec.root_func
    } else {
        spec.root_pin
    }
}

/// Those fields have no comma and are read as they were meant.
#[verifier::rlimit(50)]
proof fn pin_fields_read_back(spec: X86PciIntxSpec, at: int)
    requires
        0 <= at < 7,
    ensures
        !fields_of_pins(spec)[at].contains(','),
        intx::assignment(fields_of_pins(spec)[at]) == Some(
            (key_of_field(at), Some(value_of_field(spec, at))),
        ),
{
    if at == 0 {
        reveal_strlit("bus");
        field_reads_back("bus"@, spec.bus);
        keys_have_their_names("bus"@);
    } else if at == 1 {
        reveal_strlit("dev");
        field_reads_back("dev"@, spec.dev);
        keys_have_their_names("dev"@);
    } else if at == 2 {
        reveal_strlit("func");
        field_reads_back("func"@, spec.func);
        keys_have_their_names("func"@);
    } else if at == 3 {
        reveal_strlit("pin");
        field_reads_back("pin"@, spec.pin);
        keys_have_their_names("pin"@);
    } else if at == 4 {
        reveal_strlit("root_dev");
        field_reads_back("root_dev"@, spec.root_dev);
        keys_have_their_names("root_dev"@);
    } else if at == 5 {
        reveal_strlit("root_func");
        field_reads_back("root_func"@, spec.root_func);
        keys_have_their_names("root_func"@);
    } else {
        reveal_strlit("root_pin");
        field_reads_back("root_pin"@, spec.root_pin);
        keys_have_their_names("root_pin"@);
    }
}

/// Fields that assign to different keys assign to each key what its field says.
proof fn distinct_fields_all_count(
    spec: X86PciIntxSpec,
    fields: Seq<Seq<char>>,
    at: int,
)
    requires
        fields.len() <= 7,
        forall|i: int|
            0 <= i < fields.len() ==> intx::assignment(#[trigger] fields[i]) == Some(
                (key_of_field(i), Some(value_of_field(spec, i))),
            ),
        0 <= at < 7,
    ensures
        intx::assigned(fields, key_of_field(at)) == if at < fields.len() {
            Some(value_of_field(spec, at))
        } else {
            None
        },
        intx::assigned(fields, IntxKey::VectorStart) is None,
        intx::assigned(fields, IntxKey::VectorEnd) is None,
    decreases fields.len(),
{
    if fields.len() > 0 {
        let shorter = fields.drop_last();
        let last = fields.len() - 1;
        assert forall|i: int| 0 <= i < shorter.len() implies intx::assignment(
            #[trigger] shorter[i],
        ) == Some((key_of_field(i), Some(value_of_field(spec, i)))) by {
            assert(shorter[i] == fields[i]);
        }
        distinct_fields_all_count(spec, shorter, at);
        assert(intx::assignment(fields[last]) == Some(
            (key_of_field(last), Some(value_of_field(spec, last))),
        ));
        assert(fields.last() == fields[last]);
    }
}

/// Any interrupt pins read back from the name that describes them, and so do their PCI functions.
#[verifier::rlimit(50)]
pub proof fn described_pins_read_back(spec: X86PciIntxSpec)
    ensures
        intx::intx_spec(name_of_pins(spec)) == Some(spec),
        intx::intx_bdfs(name_of_pins(spec)) == Some(
            (
                PciBdf { bus: spec.bus, device: spec.dev, function: spec.func },
                PciBdf { bus: 0, device: spec.root_dev, function: spec.root_func },
            ),
        ),
        intx::msi_vector_range(name_of_pins(spec)) is None,
{
    let name = name_of_pins(spec);
    let fields = fields_of_pins(spec);
    assert forall|i: int| 0 <= i < 7 implies !(#[trigger] fields[i]).contains(',')
        && intx::assignment(fields[i]) == Some(
        (key_of_field(i), Some(value_of_field(spec, i))),
    ) by {
        pin_fields_read_back(spec, i);
    }
    assert(fields.len() == 7);
    assert(name == "pci-intx:"@ + text_laws::joined(fields, ','));
    fields_stand_between_commas("pci-intx:"@, fields, name);
    pins_are_assigned(spec, name);
}

/// A name with those fields describes those pins.
#[verifier::rlimit(50)]
proof fn pins_are_assigned(spec: X86PciIntxSpec, name: Seq<char>)
    requires
        intx::fields_behind(name, "pci-intx:"@) == Some(fields_of_pins(spec)),
        forall|i: int|
            0 <= i < 7 ==> intx::assignment(#[trigger] fields_of_pins(spec)[i]) == Some(
                (key_of_field(i), Some(value_of_field(spec, i))),
            ),
    ensures
        intx::intx_spec(name) == Some(spec),
        intx::intx_bdfs(name) == Some(
            (
                PciBdf { bus: spec.bus, device: spec.dev, function: spec.func },
                PciBdf { bus: 0, device: spec.root_dev, function: spec.root_func },
            ),
        ),
        intx::msi_vector_range(name) is None,
{
    let fields = fields_of_pins(spec);
    distinct_fields_all_count(spec, fields, 0);
    distinct_fields_all_count(spec, fields, 1);
    distinct_fields_all_count(spec, fields, 2);
    distinct_fields_all_count(spec, fields, 3);
    distinct_fields_all_count(spec, fields, 4);
    distinct_fields_all_count(spec, fields, 5);
    distinct_fields_all_count(spec, fields, 6);
    pins_need_all_seven_numbers(name, fields);
    functions_need_four_numbers(name, fields);
    vectors_need_one_number(name, fields);
}

/// The name that describes interrupt vectors.
pub open spec fn name_of_vectors(start: u8, end: u8) -> Seq<char> {
    "pci-msi:"@ + text_laws::joined(seq![field("msi_start"@, start), field("msi_end"@, end)], ',')
}

/// Any interrupt vectors read back from the name that describes them, which describes no pins.
#[verifier::rlimit(50)]
pub proof fn described_vectors_read_back(start: u8, end: u8)
    ensures
        intx::msi_vector_range(name_of_vectors(start, end)) == Some((start, end)),
        intx::intx_spec(name_of_vectors(start, end)) is None,
        intx::intx_bdfs(name_of_vectors(start, end)) is None,
{
    let name = name_of_vectors(start, end);
    reveal_strlit("msi_start");
    reveal_strlit("msi_end");
    reveal_strlit("pci-msi:");
    reveal_strlit("pci-intx:");
    field_reads_back("msi_start"@, start);
    field_reads_back("msi_end"@, end);
    keys_have_their_names("msi_start"@);
    keys_have_their_names("msi_end"@);
    let one = seq![field("msi_start"@, start)];
    let fields = one.push(field("msi_end"@, end));
    assert(fields =~= seq![field("msi_start"@, start), field("msi_end"@, end)]);
    assert(one =~= Seq::empty().push(field("msi_start"@, start)));
    the_last_field_counts(Seq::empty(), field("msi_start"@, start), IntxKey::VectorStart);
    the_last_field_counts(one, field("msi_end"@, end), IntxKey::VectorStart);
    the_last_field_counts(one, field("msi_end"@, end), IntxKey::VectorEnd);
    an_invalid_value_is_noticed(Seq::empty(), field("msi_start"@, start));
    an_invalid_value_is_noticed(one, field("msi_end"@, end));
    fields_stand_between_commas("pci-msi:"@, fields, name);
    vectors_need_one_number(name, fields);
    assert(name[4] == 'm');
    if intx::fields_behind(name, "pci-intx:"@) is Some {
        assert(name.take(9)[4] == 'i');
    }
}

} // verus!
