//! Minimal ACPI tables for x86 Linux direct boot.
//!
//! The image is a root pointer and one run of tables. Each table starts with a 36-byte header
//! whose length field spans the table and whose checksum brings the table's byte sum to a
//! multiple of 256.

use vstd::prelude::*;

use crate::aml;
use crate::aml::{
    aml_device, aml_int, aml_name_decl, aml_resource_template, aml_scope, aml_string,
    fixed_io_resource, irq_resource,
};
use crate::bytes;
use crate::bytes::{
    checksum, push_bytes, push_u16, push_u32, push_u64, write_u16, write_u32, write_u64,
};

verus! {

pub const ACPI_RSDP_GPA: usize = 0x000e_0000;

pub const ACPI_TABLES_GPA: usize = 0x000e_1000;

pub const ACPI_RESERVED_SIZE: usize = 0x0002_0000;

/// `AXVIS ` in ASCII.
pub const ACPI_OEM_ID: [u8; 6] = [0x41, 0x58, 0x56, 0x49, 0x53, 0x20];

/// `X86LINUX` in ASCII.
pub const ACPI_OEM_TABLE_ID: [u8; 8] = [0x58, 0x38, 0x36, 0x4c, 0x49, 0x4e, 0x55, 0x58];

/// `AXVS` in ASCII.
pub const ACPI_CREATOR_ID: [u8; 4] = [0x41, 0x58, 0x56, 0x53];

/// `RSD PTR ` in ASCII.
pub const RSDP_SIGNATURE: [u8; 8] = [0x52, 0x53, 0x44, 0x20, 0x50, 0x54, 0x52, 0x20];

/// `DSDT` in ASCII.
pub const DSDT_SIGNATURE: [u8; 4] = [0x44, 0x53, 0x44, 0x54];

/// `FACP` in ASCII.
pub const FADT_SIGNATURE: [u8; 4] = [0x46, 0x41, 0x43, 0x50];

/// `APIC` in ASCII.
pub const MADT_SIGNATURE: [u8; 4] = [0x41, 0x50, 0x49, 0x43];

/// `SPCR` in ASCII.
pub const SPCR_SIGNATURE: [u8; 4] = [0x53, 0x50, 0x43, 0x52];

/// `RSDT` in ASCII.
pub const RSDT_SIGNATURE: [u8; 4] = [0x52, 0x53, 0x44, 0x54];

pub const LOCAL_APIC_ADDR: u32 = 0xfee0_0000;

pub const IO_APIC_ADDR: u32 = 0xfec0_0000;

pub const ACPI_SLEEP_REG_GPA: u64 = 0xfed1_0000;

pub const IO_APIC_ID: u8 = 1;

pub const COM1_PORT: u16 = 0x03f8;

pub const COM1_IRQ: u8 = 4;

pub const FADT_V5_SIZE: usize = 0x10c;

pub const FADT_DSDT_OFFSET: usize = 40;

pub const FADT_IAPC_BOOT_ARCH_OFFSET: usize = 109;

pub const FADT_FLAGS_OFFSET: usize = 112;

pub const FADT_XDSDT_OFFSET: usize = 140;

pub const FADT_SLEEP_CONTROL_OFFSET: usize = 244;

pub const FADT_SLEEP_STATUS_OFFSET: usize = 256;

pub const FADT_IAPC_BOOT_ARCH_LEGACY_DEVICES: u16 = 1;

/// Bit 20: the platform has no ACPI fixed hardware.
pub const FADT_FLAG_HW_REDUCED_ACPI: u32 = 0x0010_0000;

/// The bytes of a table header.
pub const SDT_HEADER_SIZE: usize = 36;

/// The root pointer and the tables that it leads to.
pub struct AcpiImage {
    pub rsdp: [u8; 20],
    pub tables: Vec<u8>,
}

/// A range of guest physical memory that the Linux boot layout sets aside.
#[derive(Clone, Copy, Debug, PartialEq, Eq, Structural)]
pub struct X86LinuxRange {
    pub start: usize,
    pub size: usize,
}

impl X86LinuxRange {
    /// The range of `size` bytes from `start` on.
    pub fn new(start: usize, size: usize) -> (range: Self)
        ensures
            range == (X86LinuxRange { start, size }),
    {
        X86LinuxRange { start, size }
    }
}

/// The guest memory that is set aside for the image.
pub fn reserved_range() -> (range: X86LinuxRange)
    ensures
        range == (X86LinuxRange { start: ACPI_RSDP_GPA, size: ACPI_RESERVED_SIZE }),
{
    X86LinuxRange::new(ACPI_RSDP_GPA, ACPI_RESERVED_SIZE)
}

/// The header of a table.
pub open spec fn sdt_header(signature: Seq<u8>, length: nat, revision: u8, check: u8) -> Seq<u8> {
    signature + bytes::le_bytes(length, 4) + seq![revision, check] + ACPI_OEM_ID@
        + ACPI_OEM_TABLE_ID@ + bytes::le_bytes(1, 4) + ACPI_CREATOR_ID@ + bytes::le_bytes(1, 4)
}

/// A generic address structure: a byte-wide register of 8 bits in the address space `space`.
pub open spec fn generic_address(space: u8, address: u64) -> Seq<u8> {
    seq![space, 8, 0, 1] + bytes::le_bytes(address as nat, 8)
}

/// The table body `body` with `field` at `offset`, counted from the start of the table's header.
pub open spec fn with_field(body: Seq<u8>, offset: usize, field: Seq<u8>) -> Seq<u8> {
    bytes::overwrite(body, offset - SDT_HEADER_SIZE, field)
}

/// The body of the fixed description table: zero but for the two pointers to the DSDT, the
/// legacy-device and hardware-reduced flags, and the two sleep registers.
pub open spec fn fadt_body(dsdt_addr: u32) -> Seq<u8> {
    let zeros = Seq::new((FADT_V5_SIZE - SDT_HEADER_SIZE) as nat, |i: int| 0u8);
    let dsdt = with_field(zeros, FADT_DSDT_OFFSET, bytes::le_bytes(dsdt_addr as nat, 4));
    let arch = with_field(
        dsdt,
        FADT_IAPC_BOOT_ARCH_OFFSET,
        bytes::le_bytes(FADT_IAPC_BOOT_ARCH_LEGACY_DEVICES as nat, 2),
    );
    let flags = with_field(
        arch,
        FADT_FLAGS_OFFSET,
        bytes::le_bytes(FADT_FLAG_HW_REDUCED_ACPI as nat, 4),
    );
    let xdsdt = with_field(flags, FADT_XDSDT_OFFSET, bytes::le_bytes(dsdt_addr as nat, 8));
    let control = with_field(
        xdsdt,
        FADT_SLEEP_CONTROL_OFFSET,
        generic_address(0, ACPI_SLEEP_REG_GPA),
    );
    with_field(
        control,
        FADT_SLEEP_STATUS_OFFSET,
        generic_address(0, (ACPI_SLEEP_REG_GPA + 1) as u64),
    )
}

/// The body of the interrupt controller table: one local APIC and one I/O APIC.
pub open spec fn madt_body() -> Seq<u8> {
    bytes::le_bytes(LOCAL_APIC_ADDR as nat, 4) + bytes::le_bytes(1, 4) + seq![0u8, 8, 0, 0]
        + bytes::le_bytes(1, 4) + seq![1u8, 12, IO_APIC_ID, 0] + bytes::le_bytes(
        IO_APIC_ADDR as nat,
        4,
    ) + bytes::le_bytes(0, 4)
}

/// The body of the serial console table: a 16550 at COM1, 115200 baud, 8 data bits, 1 stop bit.
pub open spec fn spcr_body() -> Seq<u8> {
    seq![0u8, 0, 0, 0] + generic_address(1, COM1_PORT as u64) + seq![0u8, 0] + bytes::le_bytes(
        COM1_IRQ as nat,
        4,
    ) + seq![7u8, 0, 1, 0, 3, 0] + bytes::le_bytes(0xffff, 2) + bytes::le_bytes(0xffff, 2)
        + seq![0u8, 0, 0] + bytes::le_bytes(0, 4) + seq![0u8] + bytes::le_bytes(1_843_200, 4)
        + bytes::le_bytes(115_200, 4) + bytes::le_bytes(0, 2) + bytes::le_bytes(0, 2)
}

/// The resources of COM1: its eight ports and its interrupt line.
pub open spec fn serial_crs() -> Seq<u8> {
    aml::resource_template(seq![aml::fixed_io(COM1_PORT, 8), aml::irq_line(COM1_IRQ)])
}

/// The objects inside the COM1 device: hardware id, unique id and resources.
pub open spec fn com1_aml() -> Seq<u8> {
    aml::name_decl("_HID"@, aml::string_const("PNP0501"@)) + aml::name_decl(
        "_UID"@,
        aml::int_const(0),
    ) + aml::name_decl("_CRS"@, serial_crs())
}

/// The body of the differentiated description table: COM1 in the system bus scope.
pub open spec fn dsdt_body() -> Seq<u8> {
    aml::scope("_SB_"@, aml::device("COM1"@, com1_aml()))
}

/// The body of the root table: the address of each table.
pub open spec fn rsdt_body(offsets: Seq<u32>) -> Seq<u8>
    decreases offsets.len(),
{
    if offsets.len() == 0 {
        Seq::empty()
    } else {
        rsdt_body(offsets.drop_last()) + bytes::le_bytes(
            (ACPI_TABLES_GPA + offsets.last()) as nat,
            4,
        )
    }
}

/// A finished table: its header, with the length of the whole and a checksum, and its body.
pub open spec fn sdt(signature: Seq<u8>, revision: u8, body: Seq<u8>) -> Seq<u8> {
    let length = SDT_HEADER_SIZE as nat + body.len();
    let unsummed = sdt_header(signature, length, revision, 0) + body;
    sdt_header(signature, length, revision, bytes::checksum_byte(unsummed)) + body
}

/// The root pointer before its checksum is filled in.
pub open spec fn rsdp_unsummed(rsdt_addr: u32) -> Seq<u8> {
    RSDP_SIGNATURE@ + seq![0u8] + ACPI_OEM_ID@ + seq![1u8] + bytes::le_bytes(rsdt_addr as nat, 4)
}

/// The root pointer to the root table at `rsdt_addr`.
pub open spec fn rsdp(rsdt_addr: u32) -> Seq<u8> {
    let unsummed = rsdp_unsummed(rsdt_addr);
    unsummed.update(8, bytes::checksum_byte(unsummed))
}

/// The differentiated description table, which stands first.
pub open spec fn dsdt_table() -> Seq<u8> {
    sdt(DSDT_SIGNATURE@, 1, dsdt_body())
}

/// The fixed description table.
pub open spec fn fadt_table() -> Seq<u8> {
    sdt(FADT_SIGNATURE@, 5, fadt_body(ACPI_TABLES_GPA as u32))
}

/// The interrupt controller table.
pub open spec fn madt_table() -> Seq<u8> {
    sdt(MADT_SIGNATURE@, 1, madt_body())
}

/// The serial console table.
pub open spec fn spcr_table() -> Seq<u8> {
    sdt(SPCR_SIGNATURE@, 2, spcr_body())
}

/// The root table.
pub open spec fn rsdt_table() -> Seq<u8> {
    sdt(
        RSDT_SIGNATURE@,
        1,
        rsdt_body(seq![fadt_offset() as u32, madt_offset() as u32, spcr_offset() as u32]),
    )
}

/// Where the fixed description table starts.
pub open spec fn fadt_offset() -> nat {
    dsdt_table().len()
}

/// Where the interrupt controller table starts.
pub open spec fn madt_offset() -> nat {
    fadt_offset() + fadt_table().len()
}

/// Where the serial console table starts.
pub open spec fn spcr_offset() -> nat {
    madt_offset() + madt_table().len()
}

/// Where the root table starts.
pub open spec fn rsdt_offset() -> nat {
    spcr_offset() + spcr_table().len()
}

/// The whole run of tables.
pub open spec fn acpi_tables() -> Seq<u8> {
    dsdt_table() + fadt_table() + madt_table() + spcr_table() + rsdt_table()
}

/// `tables` with the length and the checksum of the table that runs from `start` to the end
/// filled in. The length field keeps the low 32 bits of the length, and the checksum covers as
/// many bytes as the field says.
pub open spec fn sealed(tables: Seq<u8>, start: int) -> Seq<u8> {
    let length = (tables.len() - start) % 0x1_0000_0000;
    let sized = bytes::overwrite(tables, start + 4, bytes::le_bytes(length as nat, 4));
    sized.update(start + 9, bytes::checksum_byte(sized.subrange(start, start + length)))
}

/// The size of a table header.
pub proof fn sdt_header_len(signature: Seq<u8>, length: nat, revision: u8, check: u8)
    requires
        signature.len() == 4,
    ensures
        sdt_header(signature, length, revision, check).len() == SDT_HEADER_SIZE,
{
    bytes::le_bytes_len(length, 4);
    bytes::le_bytes_len(1, 4);
}

/// Sealing a table behind a prefix finishes it and leaves the prefix as it is.
proof fn sealed_is_sdt(prefix: Seq<u8>, signature: Seq<u8>, revision: u8, body: Seq<u8>)
    requires
        signature.len() == 4,
        SDT_HEADER_SIZE + body.len() < 0x1_0000_0000,
    ensures
        sealed(prefix + sdt_header(signature, 0, revision, 0) + body, prefix.len() as int)
            == prefix + sdt(signature, revision, body),
{
    let start = prefix.len() as int;
    let length = SDT_HEADER_SIZE as nat + body.len();
    let open = prefix + sdt_header(signature, 0, revision, 0) + body;
    let unsummed = sdt_header(signature, length, revision, 0) + body;
    sdt_header_len(signature, 0, revision, 0);
    sdt_header_len(signature, length, revision, 0);
    bytes::le_bytes_len(0, 4);
    bytes::le_bytes_len(length, 4);
    bytes::le_bytes_len(1, 4);
    let sized = bytes::overwrite(open, start + 4, bytes::le_bytes(length, 4));
    assert(sized =~= prefix + unsummed);
    assert(sized.subrange(start, start + length) =~= unsummed);
    assert(sealed(open, start) =~= prefix + sdt(signature, revision, body));
}

/// Appends a table header whose length and checksum are still zero and returns its position.
pub fn begin_table(tables: &mut Vec<u8>, signature: &[u8; 4], revision: u8) -> (start: usize)
    ensures
        start == old(tables)@.len(),
        final(tables)@ == old(tables)@ + sdt_header(signature@, 0, revision, 0),
{
    let start: usize = tables.len();
    push_bytes(tables, signature);
    push_u32(tables, 0);
    tables.push(revision);
    tables.push(0);
    push_bytes(tables, &ACPI_OEM_ID);
    push_bytes(tables, &ACPI_OEM_TABLE_ID);
    push_u32(tables, 1);
    push_bytes(tables, &ACPI_CREATOR_ID);
    push_u32(tables, 1);
    proof {
        assert(tables@ =~= old(tables)@ + sdt_header(signature@, 0, revision, 0));
    }
    start
}

/// Fills in the length and the checksum of the table that runs from `start` to the end.
pub fn end_table(tables: &mut [u8], start: usize)
    requires
        start + 10 <= old(tables)@.len(),
    ensures
        final(tables)@ == sealed(old(tables)@, start as int),
{
    let size: usize = tables.len();
    let len: u32 = ((size - start) as u64 % 0x1_0000_0000) as u32;
    proof {
        bytes::le_bytes_len(len as nat, 4);
    }
    write_u32(tables, start + 4, len);
    let check: u8 = checksum(vstd::slice::slice_subrange(tables, start, start + len as usize));
    tables[start + 9] = check;
}

/// Appends a generic address structure for an I/O port.
pub fn push_gas_io(tables: &mut Vec<u8>, address: u64)
    ensures
        final(tables)@ == old(tables)@ + generic_address(1, address),
{
    tables.push(1);
    tables.push(8);
    tables.push(0);
    tables.push(1);
    push_u64(tables, address);
    proof {
        assert(tables@ =~= old(tables)@ + generic_address(1, address));
    }
}

/// Overwrites twelve bytes with a generic address structure for a memory register.
pub fn write_gas_memory(out: &mut [u8], offset: usize, address: u64)
    requires
        offset + 12 <= old(out)@.len(),
    ensures
        final(out)@ == bytes::overwrite(old(out)@, offset as int, generic_address(0, address)),
{
    let size: usize = out.len();
    proof {
        assert(offset + 12 <= size);
        bytes::le_bytes_len(address as nat, 8);
    }
    out[offset] = 0;
    out[offset + 1] = 8;
    out[offset + 2] = 0;
    out[offset + 3] = 1;
    write_u64(out, offset + 4, address);
    proof {
        assert(out@ =~= bytes::overwrite(old(out)@, offset as int, generic_address(0, address)));
    }
}

/// Appends the interrupt controller table.
pub fn build_madt(tables: &mut Vec<u8>)
    ensures
        final(tables)@ == old(tables)@ + sdt(MADT_SIGNATURE@, 1, madt_body()),
{
    let start: usize = begin_table(tables, &MADT_SIGNATURE, 1);
    push_u32(tables, LOCAL_APIC_ADDR);
    push_u32(tables, 1);
    push_bytes(tables, &[0, 8, 0, 0]);
    push_u32(tables, 1);
    push_bytes(tables, &[1, 12, IO_APIC_ID, 0]);
    push_u32(tables, IO_APIC_ADDR);
    push_u32(tables, 0);
    proof {
        let header = sdt_header(MADT_SIGNATURE@, 0, 1, 0);
        assert([0u8, 8, 0, 0]@ =~= seq![0u8, 8, 0, 0]);
        assert([1u8, 12, IO_APIC_ID, 0]@ =~= seq![1u8, 12, IO_APIC_ID, 0]);
        assert(tables@ =~= old(tables)@ + header + madt_body());
        madt_body_len();
        sdt_header_len(MADT_SIGNATURE@, 0, 1, 0);
        sealed_is_sdt(old(tables)@, MADT_SIGNATURE@, 1, madt_body());
    }
    end_table(tables, start);
}

/// The size of the body of the interrupt controller table.
pub proof fn madt_body_len()
    ensures
        madt_body().len() == 28,
{
    bytes::le_bytes_len(LOCAL_APIC_ADDR as nat, 4);
    bytes::le_bytes_len(IO_APIC_ADDR as nat, 4);
    bytes::le_bytes_len(1, 4);
    bytes::le_bytes_len(0, 4);
}

/// The size of the body of the serial console table.
pub proof fn spcr_body_len()
    ensures
        spcr_body().len() == 52,
{
    bytes::le_bytes_len(COM1_PORT as nat, 8);
    bytes::le_bytes_len(COM1_IRQ as nat, 4);
    bytes::le_bytes_len(0xffff, 2);
    bytes::le_bytes_len(1_843_200, 4);
    bytes::le_bytes_len(115_200, 4);
    bytes::le_bytes_len(0, 2);
    bytes::le_bytes_len(0, 4);
}

/// Appends the serial console table.
pub fn build_spcr(tables: &mut Vec<u8>)
    ensures
        final(tables)@ == old(tables)@ + sdt(SPCR_SIGNATURE@, 2, spcr_body()),
{
    let start: usize = begin_table(tables, &SPCR_SIGNATURE, 2);
    push_bytes(tables, &[0, 0, 0, 0]);
    push_gas_io(tables, COM1_PORT as u64);
    push_bytes(tables, &[0, 0]);
    push_u32(tables, COM1_IRQ as u32);
    push_bytes(tables, &[7, 0, 1, 0, 3, 0]);
    push_u16(tables, 0xffff);
    push_u16(tables, 0xffff);
    push_bytes(tables, &[0, 0, 0]);
    push_u32(tables, 0);
    tables.push(0);
    push_u32(tables, 1_843_200);
    push_u32(tables, 115_200);
    push_u16(tables, 0);
    push_u16(tables, 0);
    proof {
        let header = sdt_header(SPCR_SIGNATURE@, 0, 2, 0);
        assert([0u8, 0, 0, 0]@ =~= seq![0u8, 0, 0, 0]);
        assert([0u8, 0]@ =~= seq![0u8, 0]);
        assert([7u8, 0, 1, 0, 3, 0]@ =~= seq![7u8, 0, 1, 0, 3, 0]);
        assert([0u8, 0, 0]@ =~= seq![0u8, 0, 0]);
        assert(tables@ =~= old(tables)@ + header + spcr_body());
        spcr_body_len();
        sdt_header_len(SPCR_SIGNATURE@, 0, 2, 0);
        sealed_is_sdt(old(tables)@, SPCR_SIGNATURE@, 2, spcr_body());
    }
    end_table(tables, start);
}

/// Overwriting a field of the last table overwrites it in that table's body.
proof fn field_behind_header(prefix: Seq<u8>, start: int, body: Seq<u8>, offset: usize, field: Seq<u8>)
    requires
        prefix.len() == start + SDT_HEADER_SIZE,
        SDT_HEADER_SIZE <= offset,
        offset + field.len() <= SDT_HEADER_SIZE + body.len(),
    ensures
        bytes::overwrite(prefix + body, start + offset, field) == prefix + with_field(
            body,
            offset,
            field,
        ),
        with_field(body, offset, field).len() == body.len(),
{
    bytes::overwrite_behind(prefix, body, offset - SDT_HEADER_SIZE, field);
}

/// Appends the fixed description table.
pub fn build_fadt(tables: &mut Vec<u8>, dsdt_addr: u32)
    requires
        old(tables)@.len() + FADT_V5_SIZE <= usize::MAX,
    ensures
        final(tables)@ == old(tables)@ + sdt(FADT_SIGNATURE@, 5, fadt_body(dsdt_addr)),
{
    let start: usize = begin_table(tables, &FADT_SIGNATURE, 5);
    let ghost prefix = tables@;
    let ghost zeros = Seq::new((FADT_V5_SIZE - SDT_HEADER_SIZE) as nat, |i: int| 0u8);
    proof {
        sdt_header_len(FADT_SIGNATURE@, 0, 5, 0);
        bytes::le_bytes_len(dsdt_addr as nat, 4);
        bytes::le_bytes_len(dsdt_addr as nat, 8);
        bytes::le_bytes_len(FADT_IAPC_BOOT_ARCH_LEGACY_DEVICES as nat, 2);
        bytes::le_bytes_len(FADT_FLAG_HW_REDUCED_ACPI as nat, 4);
        bytes::le_bytes_len(ACPI_SLEEP_REG_GPA as nat, 8);
        bytes::le_bytes_len((ACPI_SLEEP_REG_GPA + 1) as nat, 8);
    }
    tables.resize(start + FADT_V5_SIZE, 0);
    proof {
        assert(tables@ =~= prefix + zeros);
        field_behind_header(
            prefix,
            start as int,
            zeros,
            FADT_DSDT_OFFSET,
            bytes::le_bytes(dsdt_addr as nat, 4),
        );
    }
    write_u32(tables, start + FADT_DSDT_OFFSET, dsdt_addr);
    let ghost dsdt = with_field(zeros, FADT_DSDT_OFFSET, bytes::le_bytes(dsdt_addr as nat, 4));
    proof {
        field_behind_header(
            prefix,
            start as int,
            dsdt,
            FADT_IAPC_BOOT_ARCH_OFFSET,
            bytes::le_bytes(FADT_IAPC_BOOT_ARCH_LEGACY_DEVICES as nat, 2),
        );
    }
    write_u16(
        tables,
        start + FADT_IAPC_BOOT_ARCH_OFFSET,
        FADT_IAPC_BOOT_ARCH_LEGACY_DEVICES,
    );
    let ghost arch = with_field(
        dsdt,
        FADT_IAPC_BOOT_ARCH_OFFSET,
        bytes::le_bytes(FADT_IAPC_BOOT_ARCH_LEGACY_DEVICES as nat, 2),
    );
    proof {
        field_behind_header(
            prefix,
            start as int,
            arch,
            FADT_FLAGS_OFFSET,
            bytes::le_bytes(FADT_FLAG_HW_REDUCED_ACPI as nat, 4),
        );
    }
    write_u32(tables, start + FADT_FLAGS_OFFSET, FADT_FLAG_HW_REDUCED_ACPI);
    let ghost flags = with_field(
        arch,
        FADT_FLAGS_OFFSET,
        bytes::le_bytes(FADT_FLAG_HW_REDUCED_ACPI as nat, 4),
    );
    proof {
        field_behind_header(
            prefix,
            start as int,
            flags,
            FADT_XDSDT_OFFSET,
            bytes::le_bytes(dsdt_addr as nat, 8),
        );
    }
    write_u64(tables, start + FADT_XDSDT_OFFSET, dsdt_addr as u64);
    let ghost xdsdt = with_field(flags, FADT_XDSDT_OFFSET, bytes::le_bytes(dsdt_addr as nat, 8));
    proof {
        field_behind_header(
            prefix,
            start as int,
            xdsdt,
            FADT_SLEEP_CONTROL_OFFSET,
            generic_address(0, ACPI_SLEEP_REG_GPA),
        );
    }
    write_gas_memory(tables, start + FADT_SLEEP_CONTROL_OFFSET, ACPI_SLEEP_REG_GPA);
    let ghost control = with_field(
        xdsdt,
        FADT_SLEEP_CONTROL_OFFSET,
        generic_address(0, ACPI_SLEEP_REG_GPA),
    );
    proof {
        field_behind_header(
            prefix,
            start as int,
            control,
            FADT_SLEEP_STATUS_OFFSET,
            generic_address(0, (ACPI_SLEEP_REG_GPA + 1) as u64),
        );
    }
    write_gas_memory(tables, start + FADT_SLEEP_STATUS_OFFSET, ACPI_SLEEP_REG_GPA + 1);
    proof {
        assert(tables@ == prefix + fadt_body(dsdt_addr));
        sealed_is_sdt(old(tables)@, FADT_SIGNATURE@, 5, fadt_body(dsdt_addr));
    }
    end_table(tables, start);
}

/// Appends the root table, which holds the address of the table at each of `offsets`.
pub fn build_rsdt(tables: &mut Vec<u8>, offsets: &[u32])
    requires
        forall|i: int|
            0 <= i < offsets@.len() ==> ACPI_TABLES_GPA + #[trigger] offsets@[i] <= u32::MAX,
    ensures
        final(tables)@ == sealed(
            old(tables)@ + sdt_header(RSDT_SIGNATURE@, 0, 1, 0) + rsdt_body(offsets@),
            old(tables)@.len() as int,
        ),
        SDT_HEADER_SIZE + 4 * offsets@.len() < 0x1_0000_0000 ==> final(tables)@ == old(tables)@
            + sdt(RSDT_SIGNATURE@, 1, rsdt_body(offsets@)),
{
    let start: usize = begin_table(tables, &RSDT_SIGNATURE, 1);
    let ghost prefix = tables@;
    let mut i: usize = 0;
    proof {
        assert(prefix =~= prefix + rsdt_body(offsets@.take(0)));
    }
    while i < offsets.len()
        invariant
            i <= offsets@.len(),
            forall|k: int|
                0 <= k < offsets@.len() ==> ACPI_TABLES_GPA + #[trigger] offsets@[k] <= u32::MAX,
            tables@ == prefix + rsdt_body(offsets@.take(i as int)),
        decreases offsets@.len() - i,
    {
        let ghost before = tables@;
        proof {
            assert(offsets@.take(i + 1).drop_last() =~= offsets@.take(i as int));
        }
        push_u32(tables, ACPI_TABLES_GPA as u32 + offsets[i]);
        i = i + 1;
        proof {
            assert(tables@ =~= prefix + rsdt_body(offsets@.take(i as int)));
        }
    }
    proof {
        assert(offsets@.take(i as int) =~= offsets@);
        rsdt_body_len(offsets@);
        sdt_header_len(RSDT_SIGNATURE@, 0, 1, 0);
        if SDT_HEADER_SIZE + 4 * offsets@.len() < 0x1_0000_0000 {
            sealed_is_sdt(old(tables)@, RSDT_SIGNATURE@, 1, rsdt_body(offsets@));
        }
    }
    end_table(tables, start);
}

/// The root table has four bytes for each table.
pub proof fn rsdt_body_len(offsets: Seq<u32>)
    ensures
        rsdt_body(offsets).len() == 4 * offsets.len(),
    decreases offsets.len(),
{
    if offsets.len() > 0 {
        rsdt_body_len(offsets.drop_last());
        bytes::le_bytes_len((ACPI_TABLES_GPA + offsets.last()) as nat, 4);
    }
}

/// An ASCII string has as many bytes as characters.
proof fn ascii_len(text: Seq<char>)
    requires
        vstd::utf8::is_ascii_chars(text),
    ensures
        vstd::utf8::encode_utf8(text).len() == text.len(),
{
    vstd::utf8::is_ascii_chars_encode_utf8(text);
}

/// Every name in the COM1 description has four bytes, and so the AML has these lengths.
pub proof fn dsdt_lens()
    ensures
        vstd::utf8::encode_utf8("_HID"@).len() == 4,
        vstd::utf8::encode_utf8("_UID"@).len() == 4,
        vstd::utf8::encode_utf8("_CRS"@).len() == 4,
        vstd::utf8::encode_utf8("_SB_"@).len() == 4,
        vstd::utf8::encode_utf8("COM1"@).len() == 4,
        aml::fixed_io(COM1_PORT, 8).len() == 8,
        aml::irq_line(COM1_IRQ).len() == 3,
        aml::descriptors(seq![aml::fixed_io(COM1_PORT, 8), aml::irq_line(COM1_IRQ)]).len() == 11,
        serial_crs().len() == 18,
        com1_aml().len() == 43,
        aml::device("COM1"@, com1_aml()).len() == 51,
        dsdt_body().len() == 58,
{
    reveal_strlit("_HID");
    reveal_strlit("_UID");
    reveal_strlit("_CRS");
    reveal_strlit("_SB_");
    reveal_strlit("COM1");
    reveal_strlit("PNP0501");
    ascii_len("_HID"@);
    ascii_len("_UID"@);
    ascii_len("_CRS"@);
    ascii_len("_SB_"@);
    ascii_len("COM1"@);
    ascii_len("PNP0501"@);
    bytes::le_bytes_len(COM1_PORT as nat, 2);
    bytes::le_bytes_len(vstd::arithmetic::power2::pow2(COM1_IRQ as nat), 2);
    let parts = seq![aml::fixed_io(COM1_PORT, 8), aml::irq_line(COM1_IRQ)];
    reveal_with_fuel(aml::descriptors, 3);
    assert(parts.drop_last().drop_last() =~= Seq::<Seq<u8>>::empty());
    aml::pkg_length_counts_itself(15);
    aml::pkg_length_counts_itself(47);
    aml::pkg_length_counts_itself(55);
}

/// The resources of COM1.
pub fn serial_crs_aml() -> (object: Vec<u8>)
    ensures
        object@ == serial_crs(),
{
    let resources: [Vec<u8>; 2] = [fixed_io_resource(COM1_PORT, 8), irq_resource(COM1_IRQ)];
    proof {
        dsdt_lens();
        assert(resources@.map_values(|r: Vec<u8>| r@) =~= seq![
            aml::fixed_io(COM1_PORT, 8),
            aml::irq_line(COM1_IRQ),
        ]);
    }
    aml_resource_template(&resources)
}

/// The objects inside the COM1 device.
pub fn build_com1_aml() -> (body: Vec<u8>)
    ensures
        body@ == com1_aml(),
{
    proof {
        dsdt_lens();
    }
    let mut body: Vec<u8> = Vec::new();
    push_bytes(&mut body, &aml_name_decl("_HID", aml_string("PNP0501")));
    push_bytes(&mut body, &aml_name_decl("_UID", aml_int(0)));
    push_bytes(&mut body, &aml_name_decl("_CRS", serial_crs_aml()));
    proof {
        assert(body@ =~= com1_aml());
    }
    body
}

/// Appends the differentiated description table.
pub fn build_dsdt(tables: &mut Vec<u8>)
    ensures
        final(tables)@ == old(tables)@ + sdt(DSDT_SIGNATURE@, 1, dsdt_body()),
{
    proof {
        dsdt_lens();
    }
    let scope: Vec<u8> = aml_device("COM1", build_com1_aml());
    let aml: Vec<u8> = aml_scope("_SB_", scope);
    let start: usize = begin_table(tables, &DSDT_SIGNATURE, 1);
    push_bytes(tables, &aml);
    proof {
        sdt_header_len(DSDT_SIGNATURE@, 0, 1, 0);
        sealed_is_sdt(old(tables)@, DSDT_SIGNATURE@, 1, dsdt_body());
    }
    end_table(tables, start);
}

/// The root pointer to the root table at `rsdt_addr`.
pub fn build_rsdp(rsdt_addr: u32) -> (pointer: [u8; 20])
    ensures
        pointer@ == rsdp(rsdt_addr),
{
    let mut pointer: [u8; 20] = [0; 20];
    let mut i: usize = 0;
    while i < 8
        invariant
            i <= 8,
            forall|k: int| 0 <= k < i ==> pointer@[k] == RSDP_SIGNATURE@[k],
            forall|k: int| i <= k < 20 ==> pointer@[k] == 0,
        decreases 8 - i,
    {
        pointer[i] = RSDP_SIGNATURE[i];
        i = i + 1;
    }
    i = 0;
    while i < 6
        invariant
            i <= 6,
            forall|k: int| 0 <= k < 8 ==> pointer@[k] == RSDP_SIGNATURE@[k],
            pointer@[8] == 0,
            forall|k: int| 9 <= k < 9 + i ==> pointer@[k] == ACPI_OEM_ID@[k - 9],
            forall|k: int| 9 + i <= k < 20 ==> pointer@[k] == 0,
        decreases 6 - i,
    {
        pointer[9 + i] = ACPI_OEM_ID[i];
        i = i + 1;
    }
    pointer[15] = 1;
    write_u32(&mut pointer, 16, rsdt_addr);
    proof {
        bytes::le_bytes_len(rsdt_addr as nat, 4);
        assert(pointer@ =~= rsdp_unsummed(rsdt_addr));
    }
    pointer[8] = checksum(&pointer);
    pointer
}

/// The lengths of the tables.
pub proof fn table_lens()
    ensures
        dsdt_table().len() == 94,
        fadt_table().len() == FADT_V5_SIZE,
        madt_table().len() == 64,
        spcr_table().len() == 88,
        rsdt_table().len() == 48,
        acpi_tables().len() == 562,
{
    dsdt_lens();
    madt_body_len();
    spcr_body_len();
    fadt_body_len(ACPI_TABLES_GPA as u32);
    rsdt_body_len(seq![fadt_offset() as u32, madt_offset() as u32, spcr_offset() as u32]);
    sdt_len(DSDT_SIGNATURE@, 1, dsdt_body());
    sdt_len(FADT_SIGNATURE@, 5, fadt_body(ACPI_TABLES_GPA as u32));
    sdt_len(MADT_SIGNATURE@, 1, madt_body());
    sdt_len(SPCR_SIGNATURE@, 2, spcr_body());
    sdt_len(
        RSDT_SIGNATURE@,
        1,
        rsdt_body(seq![fadt_offset() as u32, madt_offset() as u32, spcr_offset() as u32]),
    );
}

/// The size of a finished table.
pub proof fn sdt_len(signature: Seq<u8>, revision: u8, body: Seq<u8>)
    requires
        signature.len() == 4,
    ensures
        sdt(signature, revision, body).len() == SDT_HEADER_SIZE + body.len(),
{
    let length = SDT_HEADER_SIZE as nat + body.len();
    let unsummed = sdt_header(signature, length, revision, 0) + body;
    sdt_header_len(signature, length, revision, bytes::checksum_byte(unsummed));
}

/// The size of the body of the fixed description table.
pub proof fn fadt_body_len(dsdt_addr: u32)
    ensures
        fadt_body(dsdt_addr).len() == FADT_V5_SIZE - SDT_HEADER_SIZE,
{
    bytes::le_bytes_len(dsdt_addr as nat, 4);
    bytes::le_bytes_len(dsdt_addr as nat, 8);
    bytes::le_bytes_len(FADT_IAPC_BOOT_ARCH_LEGACY_DEVICES as nat, 2);
    bytes::le_bytes_len(FADT_FLAG_HW_REDUCED_ACPI as nat, 4);
    bytes::le_bytes_len(ACPI_SLEEP_REG_GPA as nat, 8);
    bytes::le_bytes_len((ACPI_SLEEP_REG_GPA + 1) as nat, 8);
}

/// Builds the root pointer and the tables.
pub fn build() -> (image: AcpiImage)
    ensures
        image.rsdp@ == rsdp((ACPI_TABLES_GPA + rsdt_offset()) as u32),
        image.tables@ == acpi_tables(),
{
    let mut tables: Vec<u8> = Vec::new();
    proof {
        table_lens();
    }
    let dsdt: u32 = tables.len() as u32;
    build_dsdt(&mut tables);
    proof {
        assert(tables@ =~= dsdt_table());
    }
    let fadt: u32 = tables.len() as u32;
    build_fadt(&mut tables, ACPI_TABLES_GPA as u32 + dsdt);
    let madt: u32 = tables.len() as u32;
    build_madt(&mut tables);
    let spcr: u32 = tables.len() as u32;
    build_spcr(&mut tables);
    let rsdt: u32 = tables.len() as u32;
    let offsets: [u32; 3] = [fadt, madt, spcr];
    proof {
        assert(offsets@ =~= seq![
            fadt_offset() as u32,
            madt_offset() as u32,
            spcr_offset() as u32,
        ]);
    }
    build_rsdt(&mut tables, &offsets);
    AcpiImage { rsdp: build_rsdp(ACPI_TABLES_GPA as u32 + rsdt), tables }
}

} // verus!
