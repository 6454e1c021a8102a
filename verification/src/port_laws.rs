//! What holds of passed-through I/O ports.

use vstd::prelude::*;

use axvm_types::{AccessWidth, PassThroughPortConfig};

use crate::error::VmError;
use crate::port;
use crate::port::{PortData, PortWidth};
use crate::vmtypes;

verus! {

/// How many bytes a host access of a width transfers.
pub open spec fn host_bytes(width: PortWidth) -> nat {
    match width {
        PortWidth::Byte => 1,
        PortWidth::Word => 2,
        PortWidth::Dword => 4,
    }
}

/// How many bytes go through a port with a piece of data.
pub open spec fn data_bytes(data: PortData) -> nat {
    match data {
        PortData::Byte(_) => 1,
        PortData::Word(_) => 2,
        PortData::Dword(_) => 4,
    }
}

/// How many bytes the guest accesses.
pub open spec fn guest_bytes(width: AccessWidth) -> nat {
    match width {
        AccessWidth::Byte => 1,
        AccessWidth::Word => 2,
        AccessWidth::Dword => 4,
        AccessWidth::Qword => 8,
    }
}

/// How many values fit in a number of bytes that an access can have.
pub open spec fn values_of(bytes: nat) -> nat {
    if bytes == 1 {
        0x100
    } else if bytes == 2 {
        0x1_0000
    } else if bytes == 4 {
        0x1_0000_0000
    } else {
        0x1_0000_0000_0000_0000
    }
}

/// A guest's read reads the same host port and transfers as many bytes as the guest asked for. The
/// only reads without a counterpart are those of eight bytes.
pub proof fn host_reads_keep_port_and_size(port: u16, width: AccessWidth)
    ensures
        guest_bytes(width) <= 4 <==> port::host_read(port, width) is Ok,
        port::host_read(port, width) matches Ok(access) ==> access.port == port && host_bytes(
            access.width,
        ) == guest_bytes(width),
        port::host_read(port, width) matches Err(error) ==> error == VmError::Unsupported,
{
}

/// A guest's write writes the same host port, transfers as many bytes as the guest asked for, and
/// those are the low bytes of the value. The only writes without a counterpart are those of eight
/// bytes.
pub proof fn host_writes_keep_port_size_and_low_bytes(port: u16, width: AccessWidth, value: usize)
    ensures
        guest_bytes(width) <= 4 <==> port::host_write(port, width, value) is Ok,
        port::host_write(port, width, value) matches Ok(access) ==> {
            &&& access.port == port
            &&& data_bytes(access.data) == guest_bytes(width)
            &&& match access.data {
                PortData::Byte(data) => data == value as nat % 0x100,
                PortData::Word(data) => data == value as nat % 0x1_0000,
                PortData::Dword(data) => data == value as nat % 0x1_0000_0000,
            }
        },
        port::host_write(port, width, value) matches Err(error) ==> error == VmError::Unsupported,
{
}

/// Only the bytes that go through the port count: values that agree in them amount to the same
/// write.
pub proof fn host_writes_ignore_high_bytes(
    port: u16,
    width: AccessWidth,
    value: usize,
    other: usize,
)
    requires
        value as nat % values_of(guest_bytes(width)) == other as nat % values_of(
            guest_bytes(width),
        ),
    ensures
        port::host_write(port, width, value) == port::host_write(port, width, other),
{
}

/// A value that fits in the width goes through a port unchanged, and the register takes what came
/// through as it is.
pub proof fn data_goes_through_unchanged(port: u16, width: AccessWidth, value: usize)
    requires
        guest_bytes(width) <= 4,
        value < values_of(guest_bytes(width)),
    ensures
        port::host_write(port, width, value) matches Ok(access) && access.data.number() == value,
{
}

/// The number of a piece of data is the data itself, without a sign.
pub proof fn data_is_its_number(byte: u8, word: u16, dword: u32)
    ensures
        PortData::Byte(byte).number() == byte,
        PortData::Word(word).number() == word,
        PortData::Dword(dword).number() == dword,
{
}

/// The widths of a guest's accesses have their sizes, and all ones is the largest value of a size,
/// as far as a register holds it.
pub proof fn widths_have_their_sizes(width: AccessWidth)
    ensures
        port::byte_count(width) == guest_bytes(width),
        guest_bytes(width) <= 4 ==> port::all_ones(width) + 1 == values_of(guest_bytes(width)),
        guest_bytes(width) == 8 ==> port::all_ones(width) == usize::MAX,
{
}

/// A range of ports fits if it has a port and none of them lies beyond the last port.
pub proof fn ranges_fit_below_the_last_port(base: u16, length: u16)
    ensures
        vmtypes::port_range_fits(base, length) <==> 0 < length && base + length <= 0x1_0000,
{
}

/// Ranges of ports fit if each of them does.
pub proof fn all_ranges_fit_or_one_does_not(ports: Seq<PassThroughPortConfig>)
    ensures
        vmtypes::port_ranges_fit(ports) <==> forall|i: int|
            0 <= i < ports.len() ==> 0 < (#[trigger] ports[i]).length && ports[i].base
                + ports[i].length <= 0x1_0000,
{
}

} // verus!
