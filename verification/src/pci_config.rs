//! PCI configuration space behind a filter.
//!
//! PCI configuration mechanism #1 has an address register, which selects a PCI function and a
//! register of it, and a window of data ports onto what is selected. The device here lets a guest
//! write the address register, and lets it through to the data ports only where the selected
//! function is one of those that are passed through. All others look absent to the guest.

use vstd::prelude::*;

use axvm_types::{AccessWidth, EmulatedDeviceType, PassThroughDeviceConfig, Port};

use crate::bytes;
use crate::error::VmError;
use crate::intx;
use crate::intx::PciBdf;
use crate::port;
use crate::port::{PortData, PortOut, PortRange, PortRead};
use crate::vmtypes;
use crate::vmtypes::PassThroughDeviceModel;

verus! {

/// The first port of the address register.
pub const PCI_CONFIG_ADDRESS_PORT: u16 = 0xcf8;

/// The first port of the data window.
pub const PCI_CONFIG_DATA_PORT: u16 = 0xcfc;

/// The last port of the data window.
pub const PCI_CONFIG_LAST_PORT: u16 = 0xcff;

/// The number of ports of both.
pub const PCI_CONFIG_PORT_LENGTH: u16 = 8;

/// The bit of the address register that enables configuration accesses.
pub const PCI_CONFIG_ENABLE: u32 = 0x8000_0000;

/// Whether a port range is exactly that of PCI configuration mechanism #1.
pub fn is_pci_config_port_range(base: u16, length: u16) -> (is_config: bool)
    ensures
        is_config == (base == PCI_CONFIG_ADDRESS_PORT && length == PCI_CONFIG_PORT_LENGTH),
{
    base == PCI_CONFIG_ADDRESS_PORT && length == PCI_CONFIG_PORT_LENGTH
}

/// Whether an access lies within the address register.
pub open spec fn is_address_access(port: u16, width: AccessWidth) -> bool {
    PCI_CONFIG_ADDRESS_PORT <= port && port + port::byte_count(width) <= PCI_CONFIG_DATA_PORT
}

/// Whether an access starts in the data window.
pub open spec fn is_data_port(port: u16) -> bool {
    PCI_CONFIG_DATA_PORT <= port <= PCI_CONFIG_LAST_PORT
}

/// The four bytes of the address register, in the order of their ports.
pub open spec fn register_bytes(register: u32) -> Seq<u8> {
    bytes::le_bytes(register as nat, 4)
}

/// What `count` bytes of the address register hold, from byte `lane` on.
pub open spec fn lanes_value(register: u32, lane: int, count: nat) -> nat {
    bytes::read_le(register_bytes(register), lane, count as int)
}

/// The address register after a write of the low `count` bytes of `value` from byte `lane` on.
pub open spec fn with_lanes(register: u32, lane: int, count: nat, value: nat) -> u32 {
    bytes::le_value(
        bytes::overwrite(register_bytes(register), lane, bytes::le_bytes(value, count)),
    ) as u32
}

/// The PCI function that the address register selects, if configuration accesses are enabled.
pub open spec fn selection(register: u32) -> Option<PciBdf> {
    if register >= PCI_CONFIG_ENABLE {
        Some(
            PciBdf {
                bus: (register / 0x1_0000 % 0x100) as u8,
                device: (register / 0x800 % 0x20) as u8,
                function: (register / 0x100 % 8) as u8,
            },
        )
    } else {
        None
    }
}

/// Whether the selected function is one of `allowed`.
pub open spec fn selection_allowed(register: u32, allowed: Seq<PciBdf>) -> bool {
    match selection(register) {
        Some(bdf) => allowed.contains(bdf),
        None => false,
    }
}

/// What a read of the guest amounts to.
pub open spec fn config_read(
    register: u32,
    allowed: Seq<PciBdf>,
    port: u16,
    width: AccessWidth,
) -> Result<PortRead, VmError> {
    if is_address_access(port, width) {
        Ok(
            PortRead::Value(
                lanes_value(
                    register,
                    port - PCI_CONFIG_ADDRESS_PORT,
                    port::byte_count(width),
                ) as usize,
            ),
        )
    } else if is_data_port(port) {
        if selection_allowed(register, allowed) {
            match port::host_read(port, width) {
                Ok(access) => Ok(PortRead::Host(access)),
                Err(error) => Err(error),
            }
        } else {
            Ok(PortRead::Value(port::all_ones(width)))
        }
    } else {
        Err(VmError::InvalidInput)
    }
}

/// The address register after a write of the guest.
pub open spec fn register_after(register: u32, port: u16, width: AccessWidth, value: usize) -> u32 {
    if is_address_access(port, width) {
        with_lanes(
            register,
            port - PCI_CONFIG_ADDRESS_PORT,
            port::byte_count(width),
            value as nat,
        )
    } else {
        register
    }
}

/// What a write of the guest amounts to: the whole address register written to the host, a write
/// to a data port of the host, or nothing.
pub open spec fn config_write(
    register: u32,
    allowed: Seq<PciBdf>,
    port: u16,
    width: AccessWidth,
    value: usize,
) -> Result<Option<PortOut>, VmError> {
    if is_address_access(port, width) {
        Ok(
            Some(
                PortOut {
                    port: PCI_CONFIG_ADDRESS_PORT,
                    data: PortData::Dword(register_after(register, port, width, value)),
                },
            ),
        )
    } else if is_data_port(port) {
        if selection_allowed(register, allowed) {
            match port::host_write(port, width, value) {
                Ok(access) => Ok(Some(access)),
                Err(error) => Err(error),
            }
        } else {
            Ok(None)
        }
    } else {
        Err(VmError::InvalidInput)
    }
}

/// `bdfs` with `bdf` behind them, unless it is among them already.
pub open spec fn with_unique(bdfs: Seq<PciBdf>, bdf: PciBdf) -> Seq<PciBdf> {
    if bdfs.contains(bdf) {
        bdfs
    } else {
        bdfs.push(bdf)
    }
}

/// The PCI functions that the names of `devices` describe, each once, in the order in which they
/// are named.
pub open spec fn functions_of(devices: Seq<PassThroughDeviceModel>) -> Seq<PciBdf>
    decreases devices.len(),
{
    if devices.len() == 0 {
        Seq::empty()
    } else {
        let before = functions_of(devices.drop_last());
        match intx::intx_bdfs(devices.last().name) {
            Some((endpoint, root)) => with_unique(with_unique(before, endpoint), root),
            None => before,
        }
    }
}

/// Whether an access lies within the address register.
pub fn pci_config_address_access(port: u16, width: AccessWidth) -> (within: bool)
    ensures
        within == is_address_access(port, width),
{
    let start: usize = port as usize;
    let end: usize = start.saturating_add(port::width_bytes(width));
    start >= PCI_CONFIG_ADDRESS_PORT as usize && end <= PCI_CONFIG_DATA_PORT as usize
}

/// The bytes of the address register one by one.
#[verifier::rlimit(50)]
pub proof fn register_bytes_are(register: u32)
    ensures
        register_bytes(register) == seq![
            (register % 0x100) as u8,
            (register / 0x100 % 0x100) as u8,
            (register / 0x1_0000 % 0x100) as u8,
            (register / 0x100_0000 % 0x100) as u8,
        ],
{
    reveal_with_fuel(bytes::le_bytes, 5);
    let value = register as nat;
    assert(value / 256 / 256 == value / 0x1_0000);
    assert(value / 256 / 256 / 256 == value / 0x100_0000);
    assert(register_bytes(register) =~= seq![
        (register % 0x100) as u8,
        (register / 0x100 % 0x100) as u8,
        (register / 0x1_0000 % 0x100) as u8,
        (register / 0x100_0000 % 0x100) as u8,
    ]);
}

/// The bits that an access of `count` bytes touches in the lowest lanes.
fn lanes_mask(count: usize) -> (mask: u32)
    requires
        count == 1 || count == 2 || count == 4,
    ensures
        count == 1 ==> mask == 0xff,
        count == 2 ==> mask == 0xffff,
        count == 4 ==> mask == 0xffff_ffff,
{
    if count == 1 {
        0xff
    } else if count == 2 {
        0xffff
    } else {
        0xffff_ffff
    }
}

/// Reads bytes of the address register.
fn read_lanes(register: u32, lane: usize, count: usize) -> (value: u32)
    requires
        count == 1 || count == 2 || count == 4,
        lane + count <= 4,
    ensures
        value == lanes_value(register, lane as int, count as nat),
{
    let shift: u32 = lane as u32 * 8;
    let mask: u32 = lanes_mask(count);
    let value: u32 = (register >> shift) & mask;
    proof {
        register_bytes_are(register);
        reveal_with_fuel(bytes::le_value, 5);
        let all = register_bytes(register);
        let part = all.subrange(lane as int, lane + count);
        if count == 1 {
            assert(part.drop_first() =~= Seq::empty());
            assert(((register >> shift) & mask) == if shift == 0 {
                register % 0x100
            } else if shift == 8 {
                register / 0x100 % 0x100
            } else if shift == 16 {
                register / 0x1_0000 % 0x100
            } else {
                register / 0x100_0000 % 0x100
            }) by (bit_vector)
                requires
                    mask == 0xff,
                    shift == 0 || shift == 8 || shift == 16 || shift == 24,
            ;
        } else if count == 2 {
            assert(part.drop_first().drop_first() =~= Seq::empty());
            assert(((register >> shift) & mask) == if shift == 0 {
                register % 0x100 + 0x100 * (register / 0x100 % 0x100)
            } else if shift == 8 {
                register / 0x100 % 0x100 + 0x100 * (register / 0x1_0000 % 0x100)
            } else {
                register / 0x1_0000 % 0x100 + 0x100 * (register / 0x100_0000 % 0x100)
            }) by (bit_vector)
                requires
                    mask == 0xffff,
                    shift == 0 || shift == 8 || shift == 16,
            ;
        } else {
            assert(part =~= all);
            assert(((register >> shift) & mask) == register) by (bit_vector)
                requires
                    mask == 0xffff_ffff,
                    shift == 0,
            ;
            assert(bytes::le_limit(4) == 0x1_0000_0000) by {
                reveal_with_fuel(bytes::le_limit, 5);
            }
            bytes::le_value_of_le_bytes(register as nat, 4);
        }
    }
    value
}

/// The low bytes of a number do not depend on what stands above them.
#[verifier::rlimit(50)]
pub proof fn low_bytes_of(value: nat, count: nat)
    requires
        count == 1 || count == 2 || count == 4,
    ensures
        bytes::le_bytes(value, count) == bytes::le_bytes(value % 0x1_0000_0000, count),
        bytes::le_bytes(value, 1) == seq![(value % 0x100) as u8],
        bytes::le_bytes(value, 2) == seq![(value % 0x100) as u8, (value / 0x100 % 0x100) as u8],
        bytes::le_bytes(value, 4) == seq![
            (value % 0x100) as u8,
            (value / 0x100 % 0x100) as u8,
            (value / 0x1_0000 % 0x100) as u8,
            (value / 0x100_0000 % 0x100) as u8,
        ],
{
    reveal_with_fuel(bytes::le_bytes, 5);
    let low = value % 0x1_0000_0000;
    let top = value / 0x1_0000_0000;
    assert(value == top * 0x1_0000_0000 + low);
    assert(value / 256 == top * 0x100_0000 + low / 256);
    assert(value / 0x1_0000 == top * 0x1_0000 + low / 0x1_0000);
    assert(value / 0x100_0000 == top * 0x100 + low / 0x100_0000);
    assert(value / 256 / 256 == value / 0x1_0000);
    assert(value / 256 / 256 / 256 == value / 0x100_0000);
    assert(low / 256 / 256 == low / 0x1_0000);
    assert(low / 256 / 256 / 256 == low / 0x100_0000);
    assert(bytes::le_bytes(value, 1) =~= seq![(value % 0x100) as u8]);
    assert(bytes::le_bytes(value, 2) =~= seq![
        (value % 0x100) as u8,
        (value / 0x100 % 0x100) as u8,
    ]);
    assert(bytes::le_bytes(value, 4) =~= seq![
        (value % 0x100) as u8,
        (value / 0x100 % 0x100) as u8,
        (value / 0x1_0000 % 0x100) as u8,
        (value / 0x100_0000 % 0x100) as u8,
    ]);
    assert(bytes::le_bytes(low, 1) =~= seq![(low % 0x100) as u8]);
    assert(bytes::le_bytes(low, 2) =~= seq![(low % 0x100) as u8, (low / 0x100 % 0x100) as u8]);
    assert(bytes::le_bytes(low, 4) =~= seq![
        (low % 0x100) as u8,
        (low / 0x100 % 0x100) as u8,
        (low / 0x1_0000 % 0x100) as u8,
        (low / 0x100_0000 % 0x100) as u8,
    ]);
}

/// Writes bytes of the address register.
fn write_lanes(register: u32, lane: usize, count: usize, value: u32) -> (new: u32)
    requires
        count == 1 || count == 2 || count == 4,
        lane + count <= 4,
    ensures
        new == with_lanes(register, lane as int, count as nat, value as nat),
{
    let shift: u32 = lane as u32 * 8;
    let mask: u32 = lanes_mask(count);
    let new: u32 = (register & !(mask << shift)) | ((value & mask) << shift);
    proof {
        let before = register_bytes(register);
        let patch = bytes::le_bytes(value as nat, count as nat);
        register_bytes_are(register);
        register_bytes_are(new);
        low_bytes_of(value as nat, count as nat);
        if count == 1 {
            assert({
                &&& new % 0x100 == if shift == 0 { value } else { register } % 0x100
                &&& new / 0x100 % 0x100 == if shift == 8 { value % 0x100 } else { register / 0x100
                    % 0x100 }
                &&& new / 0x1_0000 % 0x100 == if shift == 16 { value % 0x100 } else { register
                    / 0x1_0000 % 0x100 }
                &&& new / 0x100_0000 % 0x100 == if shift == 24 { value % 0x100 } else { register
                    / 0x100_0000 % 0x100 }
            }) by (bit_vector)
                requires
                    mask == 0xff,
                    shift == 0 || shift == 8 || shift == 16 || shift == 24,
                    new == (register & !(mask << shift)) | ((value & mask) << shift),
            ;
        } else if count == 2 {
            assert({
                &&& new % 0x100 == if shift == 0 { value } else { register } % 0x100
                &&& new / 0x100 % 0x100 == if shift == 0 { value / 0x100 % 0x100 } else if shift
                    == 8 { value % 0x100 } else { register / 0x100 % 0x100 }
                &&& new / 0x1_0000 % 0x100 == if shift == 8 { value / 0x100 % 0x100 } else if shift
                    == 16 { value % 0x100 } else { register / 0x1_0000 % 0x100 }
                &&& new / 0x100_0000 % 0x100 == if shift == 16 { value / 0x100 % 0x100 } else {
                    register / 0x100_0000 % 0x100 }
            }) by (bit_vector)
                requires
                    mask == 0xffff,
                    shift == 0 || shift == 8 || shift == 16,
                    new == (register & !(mask << shift)) | ((value & mask) << shift),
            ;
        } else {
            assert(new == value) by (bit_vector)
                requires
                    mask == 0xffff_ffff,
                    shift == 0,
                    new == (register & !(mask << shift)) | ((value & mask) << shift),
            ;
        }
        assert(register_bytes(new) =~= bytes::overwrite(before, lane as int, patch));
        assert(bytes::le_limit(4) == 0x1_0000_0000) by {
            reveal_with_fuel(bytes::le_limit, 5);
        }
        bytes::le_value_of_le_bytes(new as nat, 4);
    }
    new
}

/// Whether `bdf` is among `bdfs`.
fn contains_bdf(bdfs: &Vec<PciBdf>, bdf: PciBdf) -> (found: bool)
    ensures
        found == bdfs@.contains(bdf),
{
    let mut i: usize = 0;
    while i < bdfs.len()
        invariant
            i <= bdfs@.len(),
            forall|k: int| 0 <= k < i ==> bdfs@[k] != bdf,
        decreases bdfs@.len() - i,
    {
        if bdfs[i] == bdf {
            return true;
        }
        i = i + 1;
    }
    false
}

/// Adds a PCI function, unless it is there already.
pub fn push_unique_bdf(bdfs: &mut Vec<PciBdf>, bdf: PciBdf)
    ensures
        final(bdfs)@ == with_unique(old(bdfs)@, bdf),
{
    if !contains_bdf(bdfs, bdf) {
        bdfs.push(bdf);
    }
}

/// A filter before the ports of PCI configuration mechanism #1.
pub struct HostPciConfigPortPassthrough {
    config_address: u32,
    allowed_bdfs: Vec<PciBdf>,
}

impl HostPciConfigPortPassthrough {
    /// What the guest has written to the address register.
    pub closed spec fn config_address(self) -> u32 {
        self.config_address
    }

    /// The PCI functions that the guest may reach.
    pub closed spec fn allowed(self) -> Seq<PciBdf> {
        self.allowed_bdfs@
    }

    /// The filter that lets the guest reach the PCI functions that the names of `devices` describe.
    pub fn new(devices: &[PassThroughDeviceConfig]) -> (device: Result<Self, VmError>)
        ensures
            match device {
                Ok(device) => {
                    &&& device.allowed() == functions_of(
                        vmtypes::passthrough_devices_model(devices@),
                    )
                    &&& device.allowed().len() > 0
                    &&& device.config_address() == 0
                },
                Err(error) => {
                    &&& functions_of(vmtypes::passthrough_devices_model(devices@)).len() == 0
                    &&& error == VmError::InvalidInput
                },
            },
    {
        let ghost models = vmtypes::passthrough_devices_model(devices@);
        let mut allowed_bdfs: Vec<PciBdf> = Vec::new();
        let mut i: usize = 0;
        while i < devices.len()
            invariant
                i <= devices@.len(),
                models == vmtypes::passthrough_devices_model(devices@),
                allowed_bdfs@ == functions_of(models.take(i as int)),
            decreases devices@.len() - i,
        {
            match intx::parse_pci_intx_bdfs(&devices[i].name) {
                Some((endpoint, root)) => {
                    push_unique_bdf(&mut allowed_bdfs, endpoint);
                    push_unique_bdf(&mut allowed_bdfs, root);
                },
                None => {},
            }
            i = i + 1;
            proof {
                assert(models.take(i as int).drop_last() =~= models.take(i - 1));
            }
        }
        proof {
            assert(models.take(i as int) =~= models);
        }
        if allowed_bdfs.len() == 0 {
            return Err(VmError::InvalidInput);
        }
        Ok(HostPciConfigPortPassthrough { config_address: 0, allowed_bdfs })
    }

    /// The PCI function that the guest has selected.
    pub fn selected_bdf(&self) -> (bdf: Option<PciBdf>)
        ensures
            bdf == selection(self.config_address()),
    {
        let address: u32 = self.config_address;
        proof {
            assert((address & 0x8000_0000 == 0) == (address < 0x8000_0000)) by (bit_vector);
            assert((address >> 16) & 0xff == address / 0x1_0000 % 0x100) by (bit_vector);
            assert((address >> 11) & 0x1f == address / 0x800 % 0x20) by (bit_vector);
            assert((address >> 8) & 0x7 == address / 0x100 % 8) by (bit_vector);
        }
        if address & PCI_CONFIG_ENABLE == 0 {
            return None;
        }
        Some(
            PciBdf::new(
                ((address >> 16) & 0xff) as u8,
                ((address >> 11) & 0x1f) as u8,
                ((address >> 8) & 0x7) as u8,
            ),
        )
    }

    /// Whether the guest may reach the PCI function that it has selected.
    pub fn selected_bdf_allowed(&self) -> (allowed: bool)
        ensures
            allowed == selection_allowed(self.config_address(), self.allowed()),
    {
        match self.selected_bdf() {
            Some(bdf) => contains_bdf(&self.allowed_bdfs, bdf),
            None => false,
        }
    }

    /// The guest sees no emulated device.
    pub fn emu_type(&self) -> (emu_type: EmulatedDeviceType)
        ensures
            emu_type == EmulatedDeviceType::Dummy,
    {
        EmulatedDeviceType::Dummy
    }

    /// The ports of the address register and of the data window.
    pub fn address_range(&self) -> (range: PortRange)
        ensures
            range.start.0 == PCI_CONFIG_ADDRESS_PORT,
            range.end.0 == PCI_CONFIG_LAST_PORT,
    {
        PortRange::new(
            Port(PCI_CONFIG_ADDRESS_PORT),
            Port(PCI_CONFIG_ADDRESS_PORT + PCI_CONFIG_PORT_LENGTH - 1),
        )
    }

    /// What a read of the guest amounts to.
    pub fn handle_read(&self, port: Port, width: AccessWidth) -> (access: Result<PortRead, VmError>)
        ensures
            access == config_read(self.config_address(), self.allowed(), port.0, width),
    {
        let number: u16 = port.0;
        if pci_config_address_access(number, width) {
            let lane: usize = (number - PCI_CONFIG_ADDRESS_PORT) as usize;
            let value: u32 = read_lanes(self.config_address, lane, port::width_bytes(width));
            return Ok(PortRead::Value(value as usize));
        }
        if PCI_CONFIG_DATA_PORT <= number && number <= PCI_CONFIG_LAST_PORT {
            if self.selected_bdf_allowed() {
                match port::read_host_port(port, width) {
                    Ok(access) => Ok(PortRead::Host(access)),
                    Err(error) => Err(error),
                }
            } else {
                Ok(PortRead::Value(port::width_mask(width)))
            }
        } else {
            Err(VmError::InvalidInput)
        }
    }

    /// What a write of the guest amounts to. A write to the address register is remembered.
    pub fn handle_write(&mut self, port: Port, width: AccessWidth, value: usize) -> (access: Result<
        Option<PortOut>,
        VmError,
    >)
        ensures
            access == config_write(
                old(self).config_address(),
                old(self).allowed(),
                port.0,
                width,
                value,
            ),
            final(self).config_address() == register_after(
                old(self).config_address(),
                port.0,
                width,
                value,
            ),
            final(self).allowed() == old(self).allowed(),
    {
        let number: u16 = port.0;
        if pci_config_address_access(number, width) {
            let lane: usize = (number - PCI_CONFIG_ADDRESS_PORT) as usize;
            let count: usize = port::width_bytes(width);
            let low: u32 = port::low_dword(value);
            let new: u32 = write_lanes(self.config_address, lane, count, low);
            proof {
                low_bytes_of(value as nat, count as nat);
            }
            self.config_address = new;
            return Ok(Some(PortOut { port: PCI_CONFIG_ADDRESS_PORT, data: PortData::Dword(new) }));
        }
        if PCI_CONFIG_DATA_PORT <= number && number <= PCI_CONFIG_LAST_PORT {
            if self.selected_bdf_allowed() {
                match port::write_host_port(port, width, value) {
                    Ok(access) => Ok(Some(access)),
                    Err(error) => Err(error),
                }
            } else {
                Ok(None)
            }
        } else {
            Err(VmError::InvalidInput)
        }
    }
}

} // verus!
