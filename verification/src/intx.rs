//! The names of passed-through PCI devices.
//!
//! A passed-through device is described by its name: a prefix, and behind it assignments
//! `key=value` between commas, as in
//! `pci-intx:bus=0,dev=3,func=0,pin=1,root_dev=3,root_func=0,root_pin=1,msi_start=0x40`.
//! Blanks around keys and values are ignored. Values are bytes in decimal, or in hexadecimal behind
//! `0x`. Where a key is assigned twice, the last valid value counts.

use vstd::prelude::*;

use crate::text;

verus! {

/// The prefix of a device that interrupts by a PCI interrupt pin.
pub const INTX_PREFIX: &'static str = "pci-intx:";

/// The prefix of a device that interrupts by messages alone.
pub const MSI_PREFIX: &'static str = "pci-msi:";

/// What an assignment sets.
#[derive(Clone, Copy, Debug, PartialEq, Eq, Structural)]
pub enum IntxKey {
    Bus,
    Device,
    Function,
    Pin,
    RootDevice,
    RootFunction,
    RootPin,
    VectorStart,
    VectorEnd,
    Unknown,
}

/// The key that a name stands for.
pub open spec fn key_named(name: Seq<char>) -> IntxKey {
    if name == "bus"@ {
        IntxKey::Bus
    } else if name == "dev"@ || name == "device"@ {
        IntxKey::Device
    } else if name == "func"@ || name == "function"@ {
        IntxKey::Function
    } else if name == "pin"@ {
        IntxKey::Pin
    } else if name == "root_dev"@ || name == "root_device"@ {
        IntxKey::RootDevice
    } else if name == "root_func"@ || name == "root_function"@ {
        IntxKey::RootFunction
    } else if name == "root_pin"@ {
        IntxKey::RootPin
    } else if name == "msi_start"@ || name == "vector_start"@ {
        IntxKey::VectorStart
    } else if name == "msi_end"@ || name == "vector_end"@ {
        IntxKey::VectorEnd
    } else {
        IntxKey::Unknown
    }
}

/// The byte that a value stands for.
pub open spec fn config_value(value: Seq<char>) -> Option<u8> {
    let value = text::trimmed(value);
    match text::without_prefix(value, "0x"@) {
        Some(digits) => text::byte_number(digits, 16),
        None => match text::without_prefix(value, "0X"@) {
            Some(digits) => text::byte_number(digits, 16),
            None => text::byte_number(value, 10),
        },
    }
}

/// The key and the value of a field, if the field is an assignment. The value is `None` where it
/// stands for no byte.
pub open spec fn assignment(field: Seq<char>) -> Option<(IntxKey, Option<u8>)> {
    match text::split_at_first(field, '=') {
        Some((key, value)) => Some((key_named(text::trimmed(key)), config_value(value))),
        None => None,
    }
}

/// The last valid value that `fields` assign to `key`.
pub open spec fn assigned(fields: Seq<Seq<char>>, key: IntxKey) -> Option<u8>
    decreases fields.len(),
{
    if fields.len() == 0 {
        None
    } else {
        match assignment(fields.last()) {
            Some((found, Some(value))) => if found == key {
                Some(value)
            } else {
                assigned(fields.drop_last(), key)
            },
            _ => assigned(fields.drop_last(), key),
        }
    }
}

/// Whether every assignment has a valid value.
pub open spec fn all_valid(fields: Seq<Seq<char>>) -> bool {
    forall|i: int| 0 <= i < fields.len() ==> !(#[trigger] assignment(fields[i]) matches Some((_, None)))
}

/// The fields behind a prefix.
pub open spec fn fields_behind(name: Seq<char>, prefix: Seq<char>) -> Option<Seq<Seq<char>>> {
    match text::without_prefix(name, prefix) {
        Some(rest) => Some(text::parts(rest, ',')),
        None => None,
    }
}

/// The interrupt pin of a PCI device, and that of the root port device it is routed through.
#[derive(Clone, Copy, Debug, PartialEq, Eq, Structural)]
pub struct X86PciIntxSpec {
    pub bus: u8,
    pub dev: u8,
    pub func: u8,
    pub pin: u8,
    pub root_dev: u8,
    pub root_func: u8,
    pub root_pin: u8,
}

/// The interrupt pins that a name describes: all seven of them, or nothing.
pub open spec fn intx_spec(name: Seq<char>) -> Option<X86PciIntxSpec> {
    match fields_behind(name, INTX_PREFIX@) {
        Some(fields) => match (
            assigned(fields, IntxKey::Bus),
            assigned(fields, IntxKey::Device),
            assigned(fields, IntxKey::Function),
            assigned(fields, IntxKey::Pin),
            assigned(fields, IntxKey::RootDevice),
            assigned(fields, IntxKey::RootFunction),
            assigned(fields, IntxKey::RootPin),
        ) {
            (
                Some(bus),
                Some(dev),
                Some(func),
                Some(pin),
                Some(root_dev),
                Some(root_func),
                Some(root_pin),
            ) => Some(X86PciIntxSpec { bus, dev, func, pin, root_dev, root_func, root_pin }),
            _ => None,
        },
        None => None,
    }
}

/// The address of a PCI function: bus, device, function.
#[derive(Clone, Copy, Debug, PartialEq, Eq, Structural)]
pub struct PciBdf {
    pub bus: u8,
    pub device: u8,
    pub function: u8,
}

impl PciBdf {
    /// The function `function` of device `device` on bus `bus`.
    pub fn new(bus: u8, device: u8, function: u8) -> (bdf: Self)
        ensures
            bdf == (PciBdf { bus, device, function }),
    {
        PciBdf { bus, device, function }
    }
}

/// The PCI functions that a name describes: the device itself, and on bus 0 the one it is routed
/// through, whose function number is 0 where none is given.
pub open spec fn intx_bdfs(name: Seq<char>) -> Option<(PciBdf, PciBdf)> {
    match fields_behind(name, INTX_PREFIX@) {
        Some(fields) => match (
            assigned(fields, IntxKey::Bus),
            assigned(fields, IntxKey::Device),
            assigned(fields, IntxKey::Function),
            assigned(fields, IntxKey::RootDevice),
        ) {
            (Some(bus), Some(device), Some(function), Some(root_device)) => Some(
                (
                    PciBdf { bus, device, function },
                    PciBdf {
                        bus: 0,
                        device: root_device,
                        function: match assigned(fields, IntxKey::RootFunction) {
                            Some(root_function) => root_function,
                            None => 0,
                        },
                    },
                ),
            ),
            _ => None,
        },
        None => None,
    }
}

/// The first and the last interrupt vector that a name describes. A single one stands for both.
///
/// One invalid value anywhere in the name voids the range.
pub open spec fn msi_vector_range(name: Seq<char>) -> Option<(u8, u8)> {
    let fields = match fields_behind(name, MSI_PREFIX@) {
        Some(fields) => Some(fields),
        None => fields_behind(name, INTX_PREFIX@),
    };
    match fields {
        Some(fields) => if all_valid(fields) {
            match (assigned(fields, IntxKey::VectorStart), assigned(fields, IntxKey::VectorEnd)) {
                (Some(start), Some(end)) => Some((start, end)),
                (Some(vector), None) => Some((vector, vector)),
                (None, Some(vector)) => Some((vector, vector)),
                (None, None) => None,
            }
        } else {
            None
        },
        None => None,
    }
}

/// Reads a byte from the value of an assignment.
pub fn parse_u8_config_value(value: &str) -> (byte: Option<u8>)
    ensures
        byte == config_value(value@),
{
    let chars = text::chars_of(value);
    parse_value(&chars)
}

/// Reads a byte from the characters of a value.
fn parse_value(value: &[char]) -> (byte: Option<u8>)
    ensures
        byte == config_value(value@),
{
    let value = text::trim(value);
    match text::strip_prefix(value, "0x") {
        Some(digits) => text::parse_byte(digits, 16),
        None => match text::strip_prefix(value, "0X") {
            Some(digits) => text::parse_byte(digits, 16),
            None => text::parse_byte(value, 10),
        },
    }
}

/// The key that a name stands for.
fn key_of(name: &[char]) -> (key: IntxKey)
    ensures
        key == key_named(name@),
{
    if text::spells(name, "bus") {
        IntxKey::Bus
    } else if text::spells(name, "dev") || text::spells(name, "device") {
        IntxKey::Device
    } else if text::spells(name, "func") || text::spells(name, "function") {
        IntxKey::Function
    } else if text::spells(name, "pin") {
        IntxKey::Pin
    } else if text::spells(name, "root_dev") || text::spells(name, "root_device") {
        IntxKey::RootDevice
    } else if text::spells(name, "root_func") || text::spells(name, "root_function") {
        IntxKey::RootFunction
    } else if text::spells(name, "root_pin") {
        IntxKey::RootPin
    } else if text::spells(name, "msi_start") || text::spells(name, "vector_start") {
        IntxKey::VectorStart
    } else if text::spells(name, "msi_end") || text::spells(name, "vector_end") {
        IntxKey::VectorEnd
    } else {
        IntxKey::Unknown
    }
}

/// What the fields of a name assign.
struct Assignments {
    bus: Option<u8>,
    device: Option<u8>,
    function: Option<u8>,
    pin: Option<u8>,
    root_device: Option<u8>,
    root_function: Option<u8>,
    root_pin: Option<u8>,
    vector_start: Option<u8>,
    vector_end: Option<u8>,
    valid: bool,
}

impl Assignments {
    /// Whether these are the assignments of `fields`.
    spec fn of_fields(self, fields: Seq<Seq<char>>) -> bool {
        &&& self.bus == assigned(fields, IntxKey::Bus)
        &&& self.device == assigned(fields, IntxKey::Device)
        &&& self.function == assigned(fields, IntxKey::Function)
        &&& self.pin == assigned(fields, IntxKey::Pin)
        &&& self.root_device == assigned(fields, IntxKey::RootDevice)
        &&& self.root_function == assigned(fields, IntxKey::RootFunction)
        &&& self.root_pin == assigned(fields, IntxKey::RootPin)
        &&& self.vector_start == assigned(fields, IntxKey::VectorStart)
        &&& self.vector_end == assigned(fields, IntxKey::VectorEnd)
        &&& self.valid == all_valid(fields)
    }

    /// The assignments of no field at all.
    fn new() -> (assignments: Self)
        ensures
            assignments.of_fields(Seq::empty()),
    {
        Assignments {
            bus: None,
            device: None,
            function: None,
            pin: None,
            root_device: None,
            root_function: None,
            root_pin: None,
            vector_start: None,
            vector_end: None,
            valid: true,
        }
    }

    /// Adds the assignment of one more field.
    fn read_field(&mut self, field: &[char])
        ensures
            forall|fields: Seq<Seq<char>>|
                old(self).of_fields(fields) ==> #[trigger] final(self).of_fields(
                    fields.push(field@),
                ),
    {
        proof {
            assert forall|fields: Seq<Seq<char>>|
                (#[trigger] fields.push(field@)).drop_last() == fields && fields.push(
                    field@,
                ).last() == field@ && all_valid(fields.push(field@)) == (all_valid(fields) && !(
                assignment(field@) matches Some((_, None)))) by {
                let longer = fields.push(field@);
                assert(longer.drop_last() =~= fields);
                assert(forall|i: int| 0 <= i < fields.len() ==> longer[i] == fields[i]);
                assert(longer[fields.len() as int] == field@);
            }
        }
        match text::split_once(field, '=') {
            Some((key, value)) => {
                let key = key_of(text::trim(key));
                match parse_value(value) {
                    Some(byte) => {
                        match key {
                            IntxKey::Bus => {
                                self.bus = Some(byte);
                            },
                            IntxKey::Device => {
                                self.device = Some(byte);
                            },
                            IntxKey::Function => {
                                self.function = Some(byte);
                            },
                            IntxKey::Pin => {
                                self.pin = Some(byte);
                            },
                            IntxKey::RootDevice => {
                                self.root_device = Some(byte);
                            },
                            IntxKey::RootFunction => {
                                self.root_function = Some(byte);
                            },
                            IntxKey::RootPin => {
                                self.root_pin = Some(byte);
                            },
                            IntxKey::VectorStart => {
                                self.vector_start = Some(byte);
                            },
                            IntxKey::VectorEnd => {
                                self.vector_end = Some(byte);
                            },
                            IntxKey::Unknown => {},
                        }
                    },
                    None => {
                        self.valid = false;
                    },
                }
            },
            None => {},
        }
    }

    /// The assignments of the fields of `rest`.
    fn read(rest: &[char]) -> (assignments: Self)
        ensures
            assignments.of_fields(text::parts(rest@, ',')),
    {
        let mut assignments = Assignments::new();
        let mut left = rest;
        let ghost mut done: Seq<Seq<char>> = Seq::empty();
        proof {
            assert(done + text::parts(left@, ',') =~= text::parts(rest@, ','));
        }
        loop
            invariant
                assignments.of_fields(done),
                done + text::parts(left@, ',') == text::parts(rest@, ','),
            decreases left@.len(),
        {
            match text::split_once(left, ',') {
                Some((field, tail)) => {
                    proof {
                        assert(tail@.len() < left@.len());
                        assert(done.push(field@) + text::parts(tail@, ',') =~= done + (
                        seq![field@] + text::parts(tail@, ',')));
                        done = done.push(field@);
                    }
                    assignments.read_field(field);
                    left = tail;
                },
                None => {
                    proof {
                        assert(done.push(left@) =~= done + seq![left@]);
                    }
                    assignments.read_field(left);
                    return assignments;
                },
            }
        }
    }
}

/// Reads the interrupt pins from the name of a device.
pub fn parse_x86_pci_intx_spec(name: &str) -> (spec: Option<X86PciIntxSpec>)
    ensures
        spec == intx_spec(name@),
{
    let chars = text::chars_of(name);
    let fields = match text::strip_prefix(&chars, INTX_PREFIX) {
        Some(rest) => Assignments::read(rest),
        None => return None,
    };
    Some(
        X86PciIntxSpec {
            bus: fields.bus?,
            dev: fields.device?,
            func: fields.function?,
            pin: fields.pin?,
            root_dev: fields.root_device?,
            root_func: fields.root_function?,
            root_pin: fields.root_pin?,
        },
    )
}

/// Reads the PCI functions from the name of a device.
pub fn parse_pci_intx_bdfs(name: &str) -> (bdfs: Option<(PciBdf, PciBdf)>)
    ensures
        bdfs == intx_bdfs(name@),
{
    let chars = text::chars_of(name);
    let fields = match text::strip_prefix(&chars, INTX_PREFIX) {
        Some(rest) => Assignments::read(rest),
        None => return None,
    };
    let root_function: u8 = match fields.root_function {
        Some(function) => function,
        None => 0,
    };
    Some(
        (
            PciBdf::new(fields.bus?, fields.device?, fields.function?),
            PciBdf::new(0, fields.root_device?, root_function),
        ),
    )
}

/// Reads the range of interrupt vectors from the name of a device.
pub fn parse_msi_vector_range(name: &str) -> (range: Option<(u8, u8)>)
    ensures
        range == msi_vector_range(name@),
{
    let chars = text::chars_of(name);
    let fields = match text::strip_prefix(&chars, MSI_PREFIX) {
        Some(rest) => Assignments::read(rest),
        None => match text::strip_prefix(&chars, INTX_PREFIX) {
            Some(rest) => Assignments::read(rest),
            None => return None,
        },
    };
    if !fields.valid {
        return None;
    }
    match (fields.vector_start, fields.vector_end) {
        (Some(start), Some(end)) => Some((start, end)),
        (Some(vector), None) => Some((vector, vector)),
        (None, Some(vector)) => Some((vector, vector)),
        (None, None) => None,
    }
}

} // verus!
