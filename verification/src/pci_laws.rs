//! What holds of the filter before PCI configuration space.

use vstd::arithmetic::div_mod::*;
use vstd::prelude::*;

use axvm_types::AccessWidth;

use crate::bytes;
use crate::error::VmError;
use crate::intx;
use crate::intx::PciBdf;
use crate::pci_config;
use crate::port;
use crate::port::{PortData, PortOut, PortRead};
use crate::port_laws;
use crate::vmtypes::PassThroughDeviceModel;

verus! {

/// The bytes of the address register after a write.
proof fn bytes_after_write(register: u32, lane: int, count: nat, value: nat)
    requires
        0 <= lane,
        lane + count <= 4,
    ensures
        pci_config::register_bytes(pci_config::with_lanes(register, lane, count, value))
            == bytes::overwrite(
            pci_config::register_bytes(register),
            lane,
            bytes::le_bytes(value, count),
        ),
        pci_config::register_bytes(register).len() == 4,
{
    let before = pci_config::register_bytes(register);
    let patch = bytes::le_bytes(value, count);
    let after = bytes::overwrite(before, lane, patch);
    bytes::le_bytes_len(register as nat, 4);
    bytes::le_bytes_len(value, count);
    assert(after.len() == 4);
    bytes::le_value_bound(after);
    assert(bytes::le_limit(4) == 0x1_0000_0000) by {
        reveal_with_fuel(bytes::le_limit, 5);
    }
    bytes::le_bytes_of_le_value(after);
}

/// What the guest writes to the address register, it reads back: the low bytes of the value, as
/// many as the access has.
pub proof fn address_write_reads_back(
    register: u32,
    allowed: Seq<PciBdf>,
    port: u16,
    width: AccessWidth,
    value: usize,
)
    requires
        pci_config::is_address_access(port, width),
    ensures
        pci_config::config_read(
            pci_config::register_after(register, port, width, value),
            allowed,
            port,
            width,
        ) == Ok::<PortRead, VmError>(
            PortRead::Value(
                (value as nat % bytes::le_limit(port::byte_count(width))) as usize,
            ),
        ),
{
    let lane = port - pci_config::PCI_CONFIG_ADDRESS_PORT;
    let count = port::byte_count(width);
    bytes_after_write(register, lane, count, value as nat);
    bytes::le_bytes_len(value as nat, count);
    let after = pci_config::register_bytes(
        pci_config::register_after(register, port, width, value),
    );
    assert(after.subrange(lane, lane + count) =~= bytes::le_bytes(value as nat, count));
    bytes::le_value_of_low_bytes(value as nat, count);
}

/// A write to some bytes of the address register leaves the others as they were.
pub proof fn address_write_keeps_other_bytes(
    register: u32,
    allowed: Seq<PciBdf>,
    port: u16,
    width: AccessWidth,
    value: usize,
    other: u16,
    other_width: AccessWidth,
)
    requires
        pci_config::is_address_access(port, width),
        pci_config::is_address_access(other, other_width),
        other + port::byte_count(other_width) <= port || port + port::byte_count(width) <= other,
    ensures
        pci_config::config_read(
            pci_config::register_after(register, port, width, value),
            allowed,
            other,
            other_width,
        ) == pci_config::config_read(register, allowed, other, other_width),
{
    let lane = port - pci_config::PCI_CONFIG_ADDRESS_PORT;
    let count = port::byte_count(width);
    bytes_after_write(register, lane, count, value as nat);
    bytes::le_bytes_len(value as nat, count);
    let before = pci_config::register_bytes(register);
    let after = pci_config::register_bytes(
        pci_config::register_after(register, port, width, value),
    );
    let start = other - pci_config::PCI_CONFIG_ADDRESS_PORT;
    let end = start + port::byte_count(other_width);
    assert(after.subrange(start, end) =~= before.subrange(start, end));
}

/// A PCI function that is not passed through looks absent: reads of the data window give all ones,
/// and writes to it go nowhere.
pub proof fn other_functions_look_absent(
    register: u32,
    allowed: Seq<PciBdf>,
    port: u16,
    width: AccessWidth,
    value: usize,
)
    requires
        !pci_config::selection_allowed(register, allowed),
        pci_config::is_data_port(port),
    ensures
        pci_config::config_read(register, allowed, port, width) == Ok::<PortRead, VmError>(
            PortRead::Value(port::all_ones(width)),
        ),
        pci_config::config_write(register, allowed, port, width, value) == Ok::<
            Option<port::PortOut>,
            VmError,
        >(None),
        pci_config::register_after(register, port, width, value) == register,
{
}

/// The guest reaches a data port of the host only while a passed-through function is selected, and
/// it reaches no other host port but the address register, which takes what the guest wrote.
pub proof fn host_accesses_are_filtered(
    register: u32,
    allowed: Seq<PciBdf>,
    port: u16,
    width: AccessWidth,
    value: usize,
)
    ensures
        pci_config::config_read(register, allowed, port, width) matches Ok(PortRead::Host(access))
            ==> {
            &&& access.port == port
            &&& pci_config::is_data_port(port)
            &&& pci_config::selection_allowed(register, allowed)
        },
        pci_config::config_write(register, allowed, port, width, value) matches Ok(Some(access))
            ==> {
            ||| access.port == port && pci_config::is_data_port(port)
                && pci_config::selection_allowed(register, allowed)
            ||| access == (port::PortOut {
                port: pci_config::PCI_CONFIG_ADDRESS_PORT,
                data: port::PortData::Dword(
                    pci_config::register_after(register, port, width, value),
                ),
            })
        },
{
}

/// The value of the address register that selects register `offset` of a PCI function.
pub open spec fn select_value(bdf: PciBdf, offset: u8) -> usize {
    (pci_config::PCI_CONFIG_ENABLE + bdf.bus * 0x1_0000 + bdf.device * 0x800 + bdf.function * 0x100
        + offset) as usize
}

/// The select value of a PCI function taken apart.
#[verifier::rlimit(50)]
proof fn select_value_parts(bdf: PciBdf, offset: u8)
    requires
        bdf.device < 0x20,
        bdf.function < 8,
    ensures
        select_value(bdf, offset) <= u32::MAX,
        pci_config::selection(select_value(bdf, offset) as u32) == Some(bdf),
{
    let value = select_value(bdf, offset) as u32;
    assert(value / 0x1_0000 == 0x8000 + bdf.bus);
    assert(value / 0x1_0000 % 0x100 == bdf.bus);
    assert(value / 0x800 == 0x10_0000 + bdf.bus * 0x20 + bdf.device);
    assert(value / 0x800 % 0x20 == bdf.device);
    assert(value / 0x100 == 0x80_0000 + bdf.bus * 0x100 + bdf.device * 8 + bdf.function);
    assert(value / 0x100 % 8 == bdf.function);
}

/// Writing the select value of a PCI function selects that function, whatever was selected before.
#[verifier::rlimit(50)]
pub proof fn select_value_selects(register: u32, bdf: PciBdf, offset: u8)
    requires
        bdf.device < 0x20,
        bdf.function < 8,
    ensures
        pci_config::selection(
            pci_config::register_after(
                register,
                pci_config::PCI_CONFIG_ADDRESS_PORT,
                AccessWidth::Dword,
                select_value(bdf, offset),
            ),
        ) == Some(bdf),
{
    let value = select_value(bdf, offset);
    select_value_parts(bdf, offset);
    let after = pci_config::register_after(
        register,
        pci_config::PCI_CONFIG_ADDRESS_PORT,
        AccessWidth::Dword,
        value,
    );
    bytes_after_write(register, 0, 4, value as nat);
    bytes::le_bytes_len(value as nat, 4);
    assert(pci_config::register_bytes(after) =~= bytes::le_bytes(value as nat, 4));
    assert(bytes::le_limit(4) == 0x1_0000_0000) by {
        reveal_with_fuel(bytes::le_limit, 5);
    }
    bytes::le_value_of_le_bytes(value as nat, 4);
    bytes::le_value_of_le_bytes(after as nat, 4);
    assert(after == value);
}

/// Until the guest enables configuration accesses, no function is selected.
pub proof fn nothing_is_selected_at_first()
    ensures
        pci_config::selection(0) is None,
{
}

/// Adding a PCI function keeps the others, and keeps each of them single.
proof fn with_unique_adds(bdfs: Seq<PciBdf>, bdf: PciBdf)
    requires
        bdfs.no_duplicates(),
    ensures
        pci_config::with_unique(bdfs, bdf).no_duplicates(),
        forall|other: PciBdf| #[trigger]
            pci_config::with_unique(bdfs, bdf).contains(other) <==> bdfs.contains(other) || other
                == bdf,
{
    if !bdfs.contains(bdf) {
        let longer = bdfs.push(bdf);
        assert forall|other: PciBdf| #[trigger] longer.contains(other) <==> bdfs.contains(other)
            || other == bdf by {
            if bdfs.contains(other) {
                let i = choose|i: int| 0 <= i < bdfs.len() && bdfs[i] == other;
                assert(longer[i] == other);
            }
            if other == bdf {
                assert(longer[bdfs.len() as int] == bdf);
            }
        }
        assert forall|i: int, j: int| 0 <= i < longer.len() && 0 <= j < longer.len() && i != j
            implies longer[i] != longer[j] by {
            if i < bdfs.len() {
                assert(bdfs.contains(bdfs[i]));
            }
            if j < bdfs.len() {
                assert(bdfs.contains(bdfs[j]));
            }
        }
    }
}

/// Whether a device's name describes the PCI function `bdf`.
pub open spec fn describes(device: PassThroughDeviceModel, bdf: PciBdf) -> bool {
    match intx::intx_bdfs(device.name) {
        Some((endpoint, root)) => bdf == endpoint || bdf == root,
        None => false,
    }
}

/// The guest may reach exactly the PCI functions that some device's name describes, and each is
/// listed once.
pub proof fn allowed_functions_are_those_described(devices: Seq<PassThroughDeviceModel>)
    ensures
        pci_config::functions_of(devices).no_duplicates(),
        forall|bdf: PciBdf| #[trigger]
            pci_config::functions_of(devices).contains(bdf) <==> exists|i: int|
                0 <= i < devices.len() && #[trigger] describes(devices[i], bdf),
    decreases devices.len(),
{
    if devices.len() > 0 {
        let shorter = devices.drop_last();
        let before = pci_config::functions_of(shorter);
        let last = devices.len() - 1;
        allowed_functions_are_those_described(shorter);
        match intx::intx_bdfs(devices.last().name) {
            Some((endpoint, root)) => {
                with_unique_adds(before, endpoint);
                with_unique_adds(pci_config::with_unique(before, endpoint), root);
            },
            None => {},
        }
        assert forall|bdf: PciBdf| #[trigger]
            pci_config::functions_of(devices).contains(bdf) <==> exists|i: int|
                0 <= i < devices.len() && #[trigger] describes(devices[i], bdf) by {
            if before.contains(bdf) {
                let i = choose|i: int|
                    0 <= i < shorter.len() && #[trigger] describes(shorter[i], bdf);
                assert(devices[i] == shorter[i]);
                assert(describes(devices[i], bdf));
            }
            if exists|i: int| 0 <= i < devices.len() && #[trigger] describes(devices[i], bdf) {
                let i = choose|i: int|
                    0 <= i < devices.len() && #[trigger] describes(devices[i], bdf);
                if i < last {
                    assert(describes(shorter[i], bdf));
                }
            }
            if describes(devices[last], bdf) {
                assert(pci_config::functions_of(devices).contains(bdf));
            }
        }
    }
}

/// A filter can be made exactly where some device's name describes a PCI function.
pub proof fn filter_exists_where_a_device_is_described(devices: Seq<PassThroughDeviceModel>)
    ensures
        pci_config::functions_of(devices).len() > 0 <==> exists|i: int|
            0 <= i < devices.len() && intx::intx_bdfs((#[trigger] devices[i]).name) is Some,
{
    let functions = pci_config::functions_of(devices);
    allowed_functions_are_those_described(devices);
    if functions.len() > 0 {
        assert(functions.contains(functions[0]));
        let i = choose|i: int|
            0 <= i < devices.len() && #[trigger] describes(devices[i], functions[0]);
        assert(intx::intx_bdfs(devices[i].name) is Some);
    }
    if exists|i: int|
        0 <= i < devices.len() && intx::intx_bdfs((#[trigger] devices[i]).name) is Some {
        let i = choose|i: int|
            0 <= i < devices.len() && intx::intx_bdfs((#[trigger] devices[i]).name) is Some;
        let endpoint = (intx::intx_bdfs(devices[i].name)->0).0;
        assert(describes(devices[i], endpoint));
        assert(functions.contains(endpoint));
    }
}

/// Whether the address register selects a PCI function: the top bit enables the selection, then come
/// seven unused bits, eight bits of bus, five of device, three of function and eight of register.
pub open spec fn addresses(register: u32, bdf: PciBdf) -> bool {
    &&& register >= 0x8000_0000
    &&& bdf.device < 32
    &&& bdf.function < 8
    &&& register % 0x100_0000 - register % 0x100 == bdf.bus * 0x1_0000 + bdf.device * 0x800
        + bdf.function * 0x100
}

/// The byte at position `at` of a number, counted from the least significant one.
pub open spec fn byte_of(value: nat, at: int) -> nat {
    if at == 0 {
        value % 0x100
    } else if at == 1 {
        value / 0x100 % 0x100
    } else if at == 2 {
        value / 0x1_0000 % 0x100
    } else {
        value / 0x100_0000 % 0x100
    }
}

/// The parts of a number that are 8, 3, 5 and 8 bits long, from the lowest on.
#[verifier::rlimit(50)]
proof fn parts_of_register(register: int)
    requires
        0 <= register,
    ensures
        register % 0x100_0000 == register / 0x1_0000 % 0x100 * 0x1_0000 + register / 0x800 % 0x20
            * 0x800 + register / 0x100 % 8 * 0x100 + register % 0x100,
{
    let first = register / 0x100;
    let second = first / 8;
    let third = second / 0x20;
    let fourth = third / 0x100;
    lemma_div_denominator(register, 0x100, 8);
    lemma_div_denominator(register, 0x800, 0x20);
    let low = third % 0x100 * 0x1_0000 + second % 0x20 * 0x800 + first % 8 * 0x100 + register
        % 0x100;
    assert(register == fourth * 0x100_0000 + low);
    lemma_fundamental_div_mod_converse(register, 0x100_0000, fourth, low);
}

/// Two PCI functions at the same place are the same.
proof fn places_are_unique(
    bus: int,
    device: int,
    function: int,
    other_bus: int,
    other_device: int,
    other_function: int,
)
    requires
        0 <= device < 0x20,
        0 <= function < 8,
        0 <= other_device < 0x20,
        0 <= other_function < 8,
        bus * 0x1_0000 + device * 0x800 + function * 0x100 == other_bus * 0x1_0000 + other_device
            * 0x800 + other_function * 0x100,
    ensures
        bus == other_bus,
        device == other_device,
        function == other_function,
{
}

/// The selected function is the one that the address register addresses, and none otherwise.
#[verifier::rlimit(50)]
pub proof fn the_addressed_function_is_selected(register: u32, bdf: PciBdf)
    ensures
        pci_config::selection(register) == Some(bdf) <==> addresses(register, bdf),
        pci_config::selection(register) is None <==> register < 0x8000_0000,
{
    parts_of_register(register as int);
    if addresses(register, bdf) {
        places_are_unique(
            bdf.bus as int,
            bdf.device as int,
            bdf.function as int,
            (register / 0x1_0000 % 0x100) as int,
            (register / 0x800 % 0x20) as int,
            (register / 0x100 % 8) as int,
        );
    }
}

/// While a passed-through function is addressed, every access to a data port is the host access to
/// that port: a read of the same size, or a write of the same size with the low bytes of the value.
/// Accesses of eight bytes, which the host does not have, are refused. The address register stays as
/// it is.
pub proof fn passed_through_functions_are_reached(
    register: u32,
    allowed: Seq<PciBdf>,
    at: int,
    port: u16,
    width: AccessWidth,
    value: usize,
)
    requires
        0 <= at < allowed.len(),
        addresses(register, allowed[at]),
        0xcfc <= port <= 0xcff,
    ensures
        match pci_config::config_read(register, allowed, port, width) {
            Ok(PortRead::Host(access)) => access.port == port && port_laws::host_bytes(access.width)
                == port_laws::guest_bytes(width),
            Ok(PortRead::Value(_)) => false,
            Err(error) => port_laws::guest_bytes(width) == 8 && error == VmError::Unsupported,
        },
        match pci_config::config_write(register, allowed, port, width, value) {
            Ok(Some(access)) => {
                &&& access.port == port
                &&& port_laws::data_bytes(access.data) == port_laws::guest_bytes(width)
                &&& match access.data {
                    PortData::Byte(data) => data == value as nat % 0x100,
                    PortData::Word(data) => data == value as nat % 0x1_0000,
                    PortData::Dword(data) => data == value as nat % 0x1_0000_0000,
                }
            },
            Ok(None) => false,
            Err(error) => port_laws::guest_bytes(width) == 8 && error == VmError::Unsupported,
        },
        pci_config::register_after(register, port, width, value) == register,
{
    the_addressed_function_is_selected(register, allowed[at]);
}

/// While no passed-through function is addressed, every read of a data port gives all ones, every
/// write to one does nothing, and neither fails.
pub proof fn unaddressed_functions_look_absent(
    register: u32,
    allowed: Seq<PciBdf>,
    port: u16,
    width: AccessWidth,
    value: usize,
)
    requires
        forall|i: int| 0 <= i < allowed.len() ==> !addresses(register, #[trigger] allowed[i]),
        0xcfc <= port <= 0xcff,
    ensures
        match pci_config::config_read(register, allowed, port, width) {
            Ok(PortRead::Value(seen)) => if port_laws::guest_bytes(width) == 8 {
                seen == usize::MAX
            } else {
                seen + 1 == port_laws::values_of(port_laws::guest_bytes(width))
            },
            _ => false,
        },
        pci_config::config_write(register, allowed, port, width, value) == Ok::<
            Option<PortOut>,
            VmError,
        >(None),
        pci_config::register_after(register, port, width, value) == register,
{
    if let Some(bdf) = pci_config::selection(register) {
        the_addressed_function_is_selected(register, bdf);
        if allowed.contains(bdf) {
            let i = choose|i: int| 0 <= i < allowed.len() && allowed[i] == bdf;
            assert(!addresses(register, allowed[i]));
        }
    }
}

/// A read within the address register gives the bytes at the ports that it covers, whatever is
/// selected, and touches no host port.
#[verifier::rlimit(50)]
pub proof fn address_reads_give_the_bytes_at_their_ports(
    register: u32,
    allowed: Seq<PciBdf>,
    port: u16,
    width: AccessWidth,
)
    requires
        0xcf8 <= port,
        port + port_laws::guest_bytes(width) <= 0xcfc,
    ensures
        pci_config::config_read(register, allowed, port, width) matches Ok(PortRead::Value(seen))
            && seen < port_laws::values_of(port_laws::guest_bytes(width)) && forall|at: int|
            port <= at < port + port_laws::guest_bytes(width) ==> #[trigger] byte_of(
                seen as nat,
                at - port,
            ) == byte_of(register as nat, at - 0xcf8),
{
    let lane = port - 0xcf8;
    let count = port::byte_count(width);
    let all = pci_config::register_bytes(register);
    let part = all.subrange(lane, lane + count);
    let seen = bytes::le_value(part);
    bytes::le_bytes_len(register as nat, 4);
    reveal_with_fuel(bytes::le_limit, 5);
    bytes::le_value_bound(part);
    bytes::le_bytes_of_le_value(part);
    pci_config::low_bytes_of(seen, count);
    pci_config::register_bytes_are(register);
    assert forall|at: int| port <= at < port + count implies #[trigger] byte_of(seen, at - port)
        == byte_of(register as nat, at - 0xcf8) by {
        assert(part[at - port] == all[at - 0xcf8]);
        assert(bytes::le_bytes(seen, count)[at - port] == part[at - port]);
    }
}

/// A write within the address register changes the bytes at the ports that it covers to the low
/// bytes of the value and leaves the others, and the host gets the whole register at its first port.
#[verifier::rlimit(50)]
pub proof fn address_writes_set_the_bytes_at_their_ports(
    register: u32,
    allowed: Seq<PciBdf>,
    port: u16,
    width: AccessWidth,
    value: usize,
    at: int,
)
    requires
        0xcf8 <= port,
        port + port_laws::guest_bytes(width) <= 0xcfc,
        0xcf8 <= at < 0xcfc,
    ensures
        byte_of(
            pci_config::register_after(register, port, width, value) as nat,
            at - 0xcf8,
        ) == if port <= at < port + port_laws::guest_bytes(width) {
            byte_of(value as nat, at - port)
        } else {
            byte_of(register as nat, at - 0xcf8)
        },
        pci_config::config_write(register, allowed, port, width, value) == Ok::<
            Option<PortOut>,
            VmError,
        >(
            Some(
                PortOut {
                    port: 0xcf8,
                    data: PortData::Dword(
                        pci_config::register_after(register, port, width, value),
                    ),
                },
            ),
        ),
{
    let lane = port - 0xcf8;
    let count = port::byte_count(width);
    let after = pci_config::register_after(register, port, width, value);
    let patch = bytes::le_bytes(value as nat, count);
    bytes_after_write(register, lane, count, value as nat);
    bytes::le_bytes_len(value as nat, count);
    pci_config::low_bytes_of(value as nat, count);
    pci_config::register_bytes_are(register);
    pci_config::register_bytes_are(after);
    let all = pci_config::register_bytes(after);
    if port <= at < port + count {
        assert(all[at - 0xcf8] == patch[at - port]);
    } else {
        assert(all[at - 0xcf8] == pci_config::register_bytes(register)[at - 0xcf8]);
    }
}

/// Accesses that start outside the window, or that start in the address register and reach beyond
/// it, are refused and change nothing.
pub proof fn other_accesses_are_refused(
    register: u32,
    allowed: Seq<PciBdf>,
    port: u16,
    width: AccessWidth,
    value: usize,
)
    requires
        port < 0xcf8 || port > 0xcff || (port < 0xcfc && port + port_laws::guest_bytes(width)
            > 0xcfc),
    ensures
        pci_config::config_read(register, allowed, port, width) == Err::<PortRead, VmError>(
            VmError::InvalidInput,
        ),
        pci_config::config_write(register, allowed, port, width, value) == Err::<
            Option<PortOut>,
            VmError,
        >(VmError::InvalidInput),
        pci_config::register_after(register, port, width, value) == register,
{
}

/// The window is the eight ports from 0xcf8 on, of which the data ports are the upper four.
pub proof fn the_window_is_eight_ports()
    ensures
        pci_config::PCI_CONFIG_ADDRESS_PORT == 0xcf8,
        pci_config::PCI_CONFIG_DATA_PORT == 0xcfc,
        pci_config::PCI_CONFIG_LAST_PORT == 0xcff,
        pci_config::PCI_CONFIG_PORT_LENGTH == 8,
{
}

/// One more device keeps the functions listed so far in their places. Behind them comes the function
/// of the device and then the one it is routed through, each unless it is listed already.
pub proof fn functions_are_listed_in_order(
    devices: Seq<PassThroughDeviceModel>,
    device: PassThroughDeviceModel,
)
    ensures
        ({
            let before = pci_config::functions_of(devices);
            let after = pci_config::functions_of(devices.push(device));
            match intx::intx_bdfs(device.name) {
                None => after == before,
                Some((endpoint, root)) => {
                    let fresh = if before.contains(endpoint) {
                        Seq::empty()
                    } else {
                        seq![endpoint]
                    };
                    after == before + fresh + if before.contains(root) || root == endpoint {
                        Seq::empty()
                    } else {
                        seq![root]
                    }
                },
            }
        }),
        pci_config::functions_of(Seq::empty()) == Seq::<PciBdf>::empty(),
{
    let before = pci_config::functions_of(devices);
    assert(devices.push(device).drop_last() =~= devices);
    if let Some((endpoint, root)) = intx::intx_bdfs(device.name) {
        allowed_functions_are_those_described(devices);
        with_unique_adds(before, endpoint);
        let middle = pci_config::with_unique(before, endpoint);
        assert(middle.contains(root) <==> before.contains(root) || root == endpoint);
        let fresh = if before.contains(endpoint) {
            Seq::empty()
        } else {
            seq![endpoint]
        };
        assert(middle =~= before + fresh);
        let last = if before.contains(root) || root == endpoint {
            Seq::empty()
        } else {
            seq![root]
        };
        assert(pci_config::functions_of(devices.push(device)) =~= before + fresh + last);
    } else {
        assert(pci_config::functions_of(devices.push(device)) =~= before);
    }
}

/// An access lies within the address register exactly if all of its bytes are below the data ports
/// and none is below 0xcf8.
pub proof fn address_accesses_lie_below_the_data_ports(port: u16, width: AccessWidth)
    ensures
        pci_config::is_address_access(port, width) <==> 0xcf8 <= port && port
            + port_laws::guest_bytes(width) <= 0xcfc,
        pci_config::is_data_port(port) <==> 0xcfc <= port <= 0xcff,
{
}

/// The selected function may be reached exactly if the address register addresses one of those that
/// are passed through.
pub proof fn allowed_selections_are_addressed(register: u32, allowed: Seq<PciBdf>)
    ensures
        pci_config::selection_allowed(register, allowed) <==> exists|i: int|
            0 <= i < allowed.len() && addresses(register, #[trigger] allowed[i]),
{
    if let Some(bdf) = pci_config::selection(register) {
        the_addressed_function_is_selected(register, bdf);
        if allowed.contains(bdf) {
            let i = choose|i: int| 0 <= i < allowed.len() && allowed[i] == bdf;
            assert(addresses(register, allowed[i]));
        }
    }
    if exists|i: int| 0 <= i < allowed.len() && addresses(register, #[trigger] allowed[i]) {
        let i = choose|i: int| 0 <= i < allowed.len() && addresses(register, #[trigger] allowed[i]);
        the_addressed_function_is_selected(register, allowed[i]);
        assert(allowed.contains(allowed[i]));
    }
}

/// A function is added behind the others, unless it is one of them.
pub proof fn functions_are_added_once(bdfs: Seq<PciBdf>, bdf: PciBdf)
    ensures
        bdfs.contains(bdf) ==> pci_config::with_unique(bdfs, bdf) == bdfs,
        !bdfs.contains(bdf) ==> pci_config::with_unique(bdfs, bdf) == bdfs.push(bdf),
{
}

} // verus!
