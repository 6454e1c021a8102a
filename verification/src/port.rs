//! Host I/O ports that are passed through to a guest.
//!
//! A device decides what an access of the guest amounts to. Where that is an access to a port of
//! the host, the device hands out the access, and its owner performs it.

use vstd::prelude::*;

use axvm_types::{AccessWidth, EmulatedDeviceType, Port};

use crate::error::VmError;
use crate::vmtypes;

verus! {

/// What goes through a port in one access.
#[derive(Clone, Copy, Debug, PartialEq, Eq, Structural)]
pub enum PortData {
    Byte(u8),
    Word(u16),
    Dword(u32),
}

impl PortData {
    /// The number that went through the port.
    pub open spec fn number(self) -> nat {
        match self {
            PortData::Byte(data) => data as nat,
            PortData::Word(data) => data as nat,
            PortData::Dword(data) => data as nat,
        }
    }

    /// The number that went through the port, as a guest register takes it.
    pub fn widen(self) -> (value: usize)
        ensures
            value == self.number(),
    {
        match self {
            PortData::Byte(data) => data as usize,
            PortData::Word(data) => data as usize,
            PortData::Dword(data) => data as usize,
        }
    }
}

/// The width of an access to a host port.
#[derive(Clone, Copy, Debug, PartialEq, Eq, Structural)]
pub enum PortWidth {
    Byte,
    Word,
    Dword,
}

/// A read of a host port.
#[derive(Clone, Copy, Debug, PartialEq, Eq, Structural)]
pub struct PortIn {
    pub port: u16,
    pub width: PortWidth,
}

/// A write to a host port.
#[derive(Clone, Copy, Debug, PartialEq, Eq, Structural)]
pub struct PortOut {
    pub port: u16,
    pub data: PortData,
}

/// What a guest's read amounts to.
#[derive(Clone, Copy, Debug, PartialEq, Eq, Structural)]
pub enum PortRead {
    /// The guest gets this value.
    Value(usize),
    /// The guest gets what the host port gives.
    Host(PortIn),
}

/// A range of ports, both ends included.
#[derive(Clone, Copy, Debug, PartialEq, Eq)]
pub struct PortRange {
    pub start: Port,
    pub end: Port,
}

impl PortRange {
    /// The ports from `start` to `end`.
    pub fn new(start: Port, end: Port) -> (range: Self)
        ensures
            range == (PortRange { start, end }),
    {
        PortRange { start, end }
    }
}

/// The number of bytes of an access.
pub open spec fn byte_count(width: AccessWidth) -> nat {
    match width {
        AccessWidth::Byte => 1,
        AccessWidth::Word => 2,
        AccessWidth::Dword => 4,
        AccessWidth::Qword => 8,
    }
}

/// The largest value that an access can carry into a register.
pub open spec fn all_ones(width: AccessWidth) -> usize {
    match width {
        AccessWidth::Byte => 0xff,
        AccessWidth::Word => 0xffff,
        AccessWidth::Dword => 0xffff_ffff,
        AccessWidth::Qword => usize::MAX,
    }
}

/// The host access that reads a port, if there is one of that width.
pub open spec fn host_read(port: u16, width: AccessWidth) -> Result<PortIn, VmError> {
    match width {
        AccessWidth::Byte => Ok(PortIn { port, width: PortWidth::Byte }),
        AccessWidth::Word => Ok(PortIn { port, width: PortWidth::Word }),
        AccessWidth::Dword => Ok(PortIn { port, width: PortWidth::Dword }),
        AccessWidth::Qword => Err(VmError::Unsupported),
    }
}

/// The host access that writes the low bytes of `value` to a port, if there is one of that width.
pub open spec fn host_write(port: u16, width: AccessWidth, value: usize) -> Result<
    PortOut,
    VmError,
> {
    match width {
        AccessWidth::Byte => Ok(
            PortOut { port, data: PortData::Byte((value as nat % 0x100) as u8) },
        ),
        AccessWidth::Word => Ok(
            PortOut { port, data: PortData::Word((value as nat % 0x1_0000) as u16) },
        ),
        AccessWidth::Dword => Ok(
            PortOut { port, data: PortData::Dword((value as nat % 0x1_0000_0000) as u32) },
        ),
        AccessWidth::Qword => Err(VmError::Unsupported),
    }
}

/// The low byte of a register.
fn low_byte(value: usize) -> (byte: u8)
    ensures
        byte == value as nat % 0x100,
{
    let wide: u64 = value as u64;
    proof {
        assert((wide & 0xff) as u8 == wide % 0x100) by (bit_vector);
    }
    (wide & 0xff) as u8
}

/// The low two bytes of a register.
fn low_word(value: usize) -> (word: u16)
    ensures
        word == value as nat % 0x1_0000,
{
    let wide: u64 = value as u64;
    proof {
        assert((wide & 0xffff) as u16 == wide % 0x1_0000) by (bit_vector);
    }
    (wide & 0xffff) as u16
}

/// The low four bytes of a register.
pub(crate) fn low_dword(value: usize) -> (dword: u32)
    ensures
        dword == value as nat % 0x1_0000_0000,
{
    let wide: u64 = value as u64;
    proof {
        assert((wide & 0xffff_ffff) as u32 == wide % 0x1_0000_0000) by (bit_vector);
    }
    (wide & 0xffff_ffff) as u32
}

/// The host access that reads a port.
pub fn read_host_port(port: Port, width: AccessWidth) -> (access: Result<PortIn, VmError>)
    ensures
        access == host_read(port.0, width),
{
    match width {
        AccessWidth::Byte => Ok(PortIn { port: port.0, width: PortWidth::Byte }),
        AccessWidth::Word => Ok(PortIn { port: port.0, width: PortWidth::Word }),
        AccessWidth::Dword => Ok(PortIn { port: port.0, width: PortWidth::Dword }),
        AccessWidth::Qword => Err(VmError::Unsupported),
    }
}

/// The host access that writes a port.
pub fn write_host_port(port: Port, width: AccessWidth, value: usize) -> (access: Result<
    PortOut,
    VmError,
>)
    ensures
        access == host_write(port.0, width, value),
{
    match width {
        AccessWidth::Byte => Ok(PortOut { port: port.0, data: PortData::Byte(low_byte(value)) }),
        AccessWidth::Word => Ok(PortOut { port: port.0, data: PortData::Word(low_word(value)) }),
        AccessWidth::Dword => Ok(PortOut { port: port.0, data: PortData::Dword(low_dword(value)) }),
        AccessWidth::Qword => Err(VmError::Unsupported),
    }
}

/// The number of bytes of an access.
pub fn width_bytes(width: AccessWidth) -> (count: usize)
    ensures
        count == byte_count(width),
{
    match width {
        AccessWidth::Byte => 1,
        AccessWidth::Word => 2,
        AccessWidth::Dword => 4,
        AccessWidth::Qword => 8,
    }
}

/// The largest value that an access can carry into a register.
pub fn width_mask(width: AccessWidth) -> (mask: usize)
    ensures
        mask == all_ones(width),
{
    match width {
        AccessWidth::Byte => 0xff,
        AccessWidth::Word => 0xffff,
        AccessWidth::Dword => 0xffff_ffff,
        AccessWidth::Qword => usize::MAX,
    }
}

/// A host I/O port range that a guest accesses directly.
pub struct HostPortPassthrough {
    base: Port,
    length: u16,
}

impl HostPortPassthrough {
    /// The first port.
    pub closed spec fn base(self) -> u16 {
        self.base.0
    }

    /// The number of ports.
    pub closed spec fn length(self) -> u16 {
        self.length
    }

    /// The range is not empty and ends within the port space.
    #[verifier::type_invariant]
    spec fn fits(self) -> bool {
        vmtypes::port_range_fits(self.base.0, self.length)
    }

    /// The device for the `length` ports from `base` on.
    pub fn new(base: u16, length: u16) -> (device: Result<Self, VmError>)
        ensures
            match device {
                Ok(device) => vmtypes::port_range_fits(base, length) && device.base() == base
                    && device.length() == length,
                Err(error) => !vmtypes::port_range_fits(base, length) && error
                    == VmError::InvalidInput,
            },
    {
        if length == 0 {
            return Err(VmError::InvalidInput);
        }
        if base.checked_add(length - 1).is_none() {
            return Err(VmError::InvalidInput);
        }
        Ok(HostPortPassthrough { base: Port(base), length })
    }

    /// The last port.
    pub fn end(&self) -> (port: Port)
        ensures
            port.0 == self.base() + self.length() - 1,
            self.length() > 0,
    {
        proof {
            use_type_invariant(self);
        }
        Port(self.base.0 + (self.length - 1))
    }

    /// The guest sees no emulated device.
    pub fn emu_type(&self) -> (emu_type: EmulatedDeviceType)
        ensures
            emu_type == EmulatedDeviceType::Dummy,
    {
        EmulatedDeviceType::Dummy
    }

    /// The ports of the device.
    pub fn address_range(&self) -> (range: PortRange)
        ensures
            range.start.0 == self.base(),
            range.end.0 == self.base() + self.length() - 1,
            range.start.0 <= range.end.0,
    {
        PortRange::new(self.base, self.end())
    }

    /// What a read of the guest amounts to.
    pub fn handle_read(&self, port: Port, width: AccessWidth) -> (access: Result<PortIn, VmError>)
        ensures
            access == host_read(port.0, width),
    {
        read_host_port(port, width)
    }

    /// What a write of the guest amounts to.
    pub fn handle_write(&self, port: Port, width: AccessWidth, value: usize) -> (access: Result<
        PortOut,
        VmError,
    >)
        ensures
            access == host_write(port.0, width, value),
    {
        write_host_port(port, width, value)
    }
}

} // verus!
