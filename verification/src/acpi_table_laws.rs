//! What stands in the tables of the ACPI image, field by field.

use vstd::prelude::*;
use vstd::utf8::*;

use crate::acpi;
use crate::acpi::{
    DSDT_SIGNATURE, FADT_SIGNATURE, MADT_SIGNATURE, RSDP_SIGNATURE, RSDT_SIGNATURE, SPCR_SIGNATURE,
};
use crate::acpi_laws;
use crate::aml;
use crate::byte_laws;
use crate::bytes;

verus! {

/// The bytes of a number, one by one.
#[verifier::rlimit(50)]
proof fn bytes_one_by_one(value: nat)
    ensures
        bytes::le_bytes(value, 2) == seq![(value % 0x100) as u8, (value / 0x100 % 0x100) as u8],
        bytes::le_bytes(value, 4) == seq![
            (value % 0x100) as u8,
            (value / 0x100 % 0x100) as u8,
            (value / 0x1_0000 % 0x100) as u8,
            (value / 0x100_0000 % 0x100) as u8,
        ],
{
    reveal_with_fuel(bytes::le_bytes, 5);
    assert(value / 256 / 256 == value / 0x1_0000);
    assert(value / 256 / 256 / 256 == value / 0x100_0000);
    assert(bytes::le_bytes(value, 2) =~= seq![
        (value % 0x100) as u8,
        (value / 0x100 % 0x100) as u8,
    ]);
    assert(bytes::le_bytes(value, 4) =~= seq![
        (value % 0x100) as u8,
        (value / 0x100 % 0x100) as u8,
        (value / 0x1_0000 % 0x100) as u8,
        (value / 0x100_0000 % 0x100) as u8,
    ]);
}

/// A field that was laid down as a number reads back as that number.
proof fn laid_field_reads_back(all: Seq<u8>, offset: int, value: nat, width: nat)
    requires
        0 <= offset,
        offset + width <= all.len(),
        value < bytes::le_limit(width),
        all.subrange(offset, offset + width) == bytes::le_bytes(value, width),
    ensures
        bytes::read_le(all, offset, width as int) == value,
{
    bytes::le_value_of_le_bytes(value, width);
}

/// The addresses of the image and the size of what is set aside for it.
pub proof fn the_image_has_its_addresses()
    ensures
        acpi::ACPI_RSDP_GPA == 0xe_0000,
        acpi::ACPI_TABLES_GPA == 0xe_1000,
        acpi::ACPI_RESERVED_SIZE == 0x2_0000,
{
}

/// The tables have their signatures: `DSDT`, `FACP`, `APIC`, `SPCR` and `RSDT`, and the root pointer
/// has `RSD PTR ` with a blank at its end.
pub proof fn tables_have_their_signatures()
    ensures
        DSDT_SIGNATURE@ == seq![0x44u8, 0x53, 0x44, 0x54],
        FADT_SIGNATURE@ == seq![0x46u8, 0x41, 0x43, 0x50],
        MADT_SIGNATURE@ == seq![0x41u8, 0x50, 0x49, 0x43],
        SPCR_SIGNATURE@ == seq![0x53u8, 0x50, 0x43, 0x52],
        RSDT_SIGNATURE@ == seq![0x52u8, 0x53, 0x44, 0x54],
        RSDP_SIGNATURE@ == seq![0x52u8, 0x53, 0x44, 0x20, 0x50, 0x54, 0x52, 0x20],
{
    assert(DSDT_SIGNATURE@ =~= seq![0x44u8, 0x53, 0x44, 0x54]);
    assert(FADT_SIGNATURE@ =~= seq![0x46u8, 0x41, 0x43, 0x50]);
    assert(MADT_SIGNATURE@ =~= seq![0x41u8, 0x50, 0x49, 0x43]);
    assert(SPCR_SIGNATURE@ =~= seq![0x53u8, 0x50, 0x43, 0x52]);
    assert(RSDT_SIGNATURE@ =~= seq![0x52u8, 0x53, 0x44, 0x54]);
    assert(RSDP_SIGNATURE@ =~= seq![0x52u8, 0x53, 0x44, 0x20, 0x50, 0x54, 0x52, 0x20]);
}

/// A header holds signature, length, revision, checksum, the OEM `AXVIS `, the OEM's table
/// `X86LINUX` in revision 1, and the creator `AXVS` in revision 1.
#[verifier::rlimit(50)]
pub proof fn headers_name_the_oem(signature: Seq<u8>, length: nat, revision: u8, check: u8)
    requires
        signature.len() == 4,
        length < 0x1_0000_0000,
    ensures
        ({
            let header = acpi::sdt_header(signature, length, revision, check);
            &&& header.len() == 36
            &&& header.subrange(0, 4) == signature
            &&& bytes::read_le(header, 4, 4) == length
            &&& header[8] == revision
            &&& header[9] == check
            &&& header.subrange(10, 16) == seq![0x41u8, 0x58, 0x56, 0x49, 0x53, 0x20]
            &&& header.subrange(16, 24) == seq![0x58u8, 0x38, 0x36, 0x4c, 0x49, 0x4e, 0x55, 0x58]
            &&& bytes::read_le(header, 24, 4) == 1
            &&& header.subrange(28, 32) == seq![0x41u8, 0x58, 0x56, 0x53]
            &&& bytes::read_le(header, 32, 4) == 1
        }),
{
    let header = acpi::sdt_header(signature, length, revision, check);
    acpi::sdt_header_len(signature, length, revision, check);
    bytes::le_bytes_len(length, 4);
    bytes::le_bytes_len(1, 4);
    reveal_with_fuel(bytes::le_limit, 5);
    assert(header.subrange(0, 4) =~= signature);
    assert(header.subrange(4, 8) =~= bytes::le_bytes(length, 4));
    assert(header.subrange(10, 16) =~= seq![0x41u8, 0x58, 0x56, 0x49, 0x53, 0x20]);
    assert(header.subrange(16, 24) =~= seq![0x58u8, 0x38, 0x36, 0x4c, 0x49, 0x4e, 0x55, 0x58]);
    assert(header.subrange(24, 28) =~= bytes::le_bytes(1, 4));
    assert(header.subrange(28, 32) =~= seq![0x41u8, 0x58, 0x56, 0x53]);
    assert(header.subrange(32, 36) =~= bytes::le_bytes(1, 4));
    laid_field_reads_back(header, 4, length, 4);
    laid_field_reads_back(header, 24, 1, 4);
    laid_field_reads_back(header, 32, 1, 4);
}

/// A finished table is such a header, with the length of the whole, and its body.
#[verifier::rlimit(50)]
pub proof fn finished_tables_have_headers(signature: Seq<u8>, revision: u8, body: Seq<u8>)
    requires
        signature.len() == 4,
        36 + body.len() < 0x1_0000_0000,
    ensures
        ({
            let table = acpi::sdt(signature, revision, body);
            &&& table.len() == 36 + body.len()
            &&& table.subrange(0, 4) == signature
            &&& bytes::read_le(table, 4, 4) == table.len()
            &&& table[8] == revision
            &&& table.subrange(10, 16) == seq![0x41u8, 0x58, 0x56, 0x49, 0x53, 0x20]
            &&& table.subrange(16, 24) == seq![0x58u8, 0x38, 0x36, 0x4c, 0x49, 0x4e, 0x55, 0x58]
            &&& bytes::read_le(table, 24, 4) == 1
            &&& table.subrange(28, 32) == seq![0x41u8, 0x58, 0x56, 0x53]
            &&& bytes::read_le(table, 32, 4) == 1
            &&& table.skip(36) == body
            &&& bytes::byte_sum(table) % 256 == 0
        }),
{
    let table = acpi::sdt(signature, revision, body);
    let length = 36 + body.len();
    let unsummed = acpi::sdt_header(signature, length, revision, 0) + body;
    let check = bytes::checksum_byte(unsummed);
    let header = acpi::sdt_header(signature, length, revision, check);
    headers_name_the_oem(signature, length, revision, check);
    acpi_laws::sdt_is_sound(signature, revision, body);
    assert(table =~= header + body);
    assert(table.subrange(0, 4) =~= header.subrange(0, 4));
    assert(table.subrange(4, 8) =~= header.subrange(4, 8));
    assert(table.subrange(10, 16) =~= header.subrange(10, 16));
    assert(table.subrange(16, 24) =~= header.subrange(16, 24));
    assert(table.subrange(24, 28) =~= header.subrange(24, 28));
    assert(table.subrange(28, 32) =~= header.subrange(28, 32));
    assert(table.subrange(32, 36) =~= header.subrange(32, 36));
}

/// Replacing a byte changes the sum by the difference.
proof fn replaced_byte_changes_the_sum(all: Seq<u8>, at: int, byte: u8)
    requires
        0 <= at < all.len(),
    ensures
        bytes::byte_sum(all.update(at, byte)) + all[at] == bytes::byte_sum(all) + byte,
{
    let before = all.take(at);
    let after = all.skip(at + 1);
    assert(all =~= before + seq![all[at]] + after);
    assert(all.update(at, byte) =~= before + seq![byte] + after);
    byte_laws::sums_add_up(before + seq![all[at]], byte, after);
    byte_laws::sums_add_up(before + seq![byte], byte, after);
    byte_laws::sums_add_up(before, all[at], seq![all[at]]);
    byte_laws::sums_add_up(before, byte, seq![byte]);
}

/// Finishing a table gives it the length up to the end, replaces its checksum so that its bytes sum
/// to a multiple of 256 together with the checksum that was there, and changes no other byte. The
/// checksum of a table that was just begun is zero.
#[verifier::rlimit(50)]
pub proof fn sealing_sets_length_and_checksum(tables: Seq<u8>, start: int, at: int)
    requires
        0 <= start,
        start + 10 <= tables.len(),
        tables.len() - start < 0x1_0000_0000,
        0 <= at < tables.len(),
    ensures
        ({
            let done = acpi::sealed(tables, start);
            &&& done.len() == tables.len()
            &&& bytes::read_le(done, start + 4, 4) == tables.len() - start
            &&& (bytes::byte_sum(done.skip(start)) + tables[start + 9]) % 256 == 0
            &&& at < start || start + 10 <= at || start <= at < start + 4 || at == start + 8
                ==> done[at] == tables[at]
        }),
{
    let done = acpi::sealed(tables, start);
    let length = (tables.len() - start) as nat;
    let sized = bytes::overwrite(tables, start + 4, bytes::le_bytes(length, 4));
    bytes::le_bytes_len(length, 4);
    reveal_with_fuel(bytes::le_limit, 5);
    assert(length as int % 0x1_0000_0000 == length);
    let unsummed = sized.skip(start);
    assert(sized.subrange(start, start + length) =~= unsummed);
    assert(done.skip(start) =~= unsummed.update(9, bytes::checksum_byte(unsummed)));
    replaced_byte_changes_the_sum(unsummed, 9, bytes::checksum_byte(unsummed));
    assert(unsummed[9] == tables[start + 9]);
    byte_laws::checksums_balance(unsummed);
    assert(done.subrange(start + 4, start + 8) =~= bytes::le_bytes(length, 4));
    laid_field_reads_back(done, start + 4, length, 4);
}

/// A generic address names its space, a register of eight bits at bit 0 with byte accesses, and the
/// address.
pub proof fn addresses_are_of_byte_registers(space: u8, address: u64)
    ensures
        ({
            let structure = acpi::generic_address(space, address);
            &&& structure.len() == 12
            &&& structure[0] == space
            &&& structure[1] == 8
            &&& structure[2] == 0
            &&& structure[3] == 1
            &&& bytes::read_le(structure, 4, 8) == address
        }),
{
    let structure = acpi::generic_address(space, address);
    bytes::le_bytes_len(address as nat, 8);
    reveal_with_fuel(bytes::le_limit, 9);
    assert(structure.subrange(4, 12) =~= bytes::le_bytes(address as nat, 8));
    laid_field_reads_back(structure, 4, address as nat, 8);
}

/// The root pointer names the OEM `AXVIS `, revision 1 and the address it was made for, and sums to a
/// multiple of 256.
pub proof fn the_root_pointer_names_the_oem(rsdt_addr: u32)
    ensures
        ({
            let pointer = acpi::rsdp(rsdt_addr);
            &&& pointer.len() == 20
            &&& pointer.subrange(0, 8) == seq![0x52u8, 0x53, 0x44, 0x20, 0x50, 0x54, 0x52, 0x20]
            &&& pointer.subrange(9, 15) == seq![0x41u8, 0x58, 0x56, 0x49, 0x53, 0x20]
            &&& pointer[15] == 1
            &&& bytes::read_le(pointer, 16, 4) == rsdt_addr
            &&& bytes::byte_sum(pointer) % 256 == 0
        }),
{
    let pointer = acpi::rsdp(rsdt_addr);
    acpi_laws::rsdp_is_sound(rsdt_addr);
    tables_have_their_signatures();
    bytes::le_bytes_len(rsdt_addr as nat, 4);
    assert(pointer.subrange(9, 15) =~= seq![0x41u8, 0x58, 0x56, 0x49, 0x53, 0x20]);
}

/// The interrupt controller table: the local APICs are at 0xfee0_0000 and there is a legacy
/// interrupt controller; processor 0 has the local APIC 0, which is enabled; the I/O APIC 1 is at
/// 0xfec0_0000 and serves the interrupts from 0 on. There is nothing else.
#[verifier::rlimit(50)]
pub proof fn the_madt_describes_the_controllers()
    ensures
        ({
            let madt = acpi::sdt(MADT_SIGNATURE@, 1, acpi::madt_body());
            &&& madt.len() == 64
            &&& madt[8] == 1
            &&& bytes::read_le(madt, 36, 4) == 0xfee0_0000
            &&& bytes::read_le(madt, 40, 4) == 1
            &&& madt[44] == 0
            &&& madt[45] == 8
            &&& madt[46] == 0
            &&& madt[47] == 0
            &&& bytes::read_le(madt, 48, 4) == 1
            &&& madt[52] == 1
            &&& madt[53] == 12
            &&& madt[54] == 1
            &&& madt[55] == 0
            &&& bytes::read_le(madt, 56, 4) == 0xfec0_0000
            &&& bytes::read_le(madt, 60, 4) == 0
            &&& acpi::madt_table() == madt
        }),
{
    let body = acpi::madt_body();
    let madt = acpi::sdt(MADT_SIGNATURE@, 1, body);
    acpi::madt_body_len();
    finished_tables_have_headers(MADT_SIGNATURE@, 1, body);
    assert(forall|i: int| 36 <= i < 64 ==> madt[i] == madt.skip(36)[i - 36]);
    bytes::le_bytes_len(0xfee0_0000, 4);
    bytes::le_bytes_len(0xfec0_0000, 4);
    bytes::le_bytes_len(1, 4);
    bytes::le_bytes_len(0, 4);
    reveal_with_fuel(bytes::le_limit, 5);
    assert(madt.subrange(36, 40) =~= bytes::le_bytes(0xfee0_0000, 4));
    assert(madt.subrange(40, 44) =~= bytes::le_bytes(1, 4));
    assert(madt.subrange(48, 52) =~= bytes::le_bytes(1, 4));
    assert(madt.subrange(56, 60) =~= bytes::le_bytes(0xfec0_0000, 4));
    assert(madt.subrange(60, 64) =~= bytes::le_bytes(0, 4));
    laid_field_reads_back(madt, 36, 0xfee0_0000, 4);
    laid_field_reads_back(madt, 40, 1, 4);
    laid_field_reads_back(madt, 48, 1, 4);
    laid_field_reads_back(madt, 56, 0xfec0_0000, 4);
    laid_field_reads_back(madt, 60, 0, 4);
}

/// The serial console table: a 16550 at I/O port 0x3f8, interrupt 4 without the legacy interrupt
/// types, 115200 baud, no parity, one stop bit, no flow control, VT-UTF8, no PCI device, and a clock
/// of 1.8432 MHz. Everything else is zero.
#[verifier::rlimit(50)]
pub proof fn the_spcr_describes_the_console()
    ensures
        ({
            let spcr = acpi::sdt(SPCR_SIGNATURE@, 2, acpi::spcr_body());
            &&& spcr.len() == 88
            &&& spcr[8] == 2
            &&& spcr[36] == 0
            &&& spcr[37] == 0
            &&& spcr[38] == 0
            &&& spcr[39] == 0
            &&& spcr[40] == 1
            &&& spcr[41] == 8
            &&& spcr[42] == 0
            &&& spcr[43] == 1
            &&& bytes::read_le(spcr, 44, 8) == 0x3f8
            &&& spcr[52] == 0
            &&& spcr[53] == 0
            &&& bytes::read_le(spcr, 54, 4) == 4
            &&& spcr[58] == 7
            &&& spcr[59] == 0
            &&& spcr[60] == 1
            &&& spcr[61] == 0
            &&& spcr[62] == 3
            &&& spcr[63] == 0
            &&& bytes::read_le(spcr, 64, 2) == 0xffff
            &&& bytes::read_le(spcr, 66, 2) == 0xffff
            &&& spcr[68] == 0
            &&& spcr[69] == 0
            &&& spcr[70] == 0
            &&& bytes::read_le(spcr, 71, 4) == 0
            &&& spcr[75] == 0
            &&& bytes::read_le(spcr, 76, 4) == 1_843_200
            &&& bytes::read_le(spcr, 80, 4) == 115_200
            &&& bytes::read_le(spcr, 84, 2) == 0
            &&& bytes::read_le(spcr, 86, 2) == 0
            &&& acpi::spcr_table() == spcr
        }),
{
    let body = acpi::spcr_body();
    let spcr = acpi::sdt(SPCR_SIGNATURE@, 2, body);
    acpi::spcr_body_len();
    finished_tables_have_headers(SPCR_SIGNATURE@, 2, body);
    assert(forall|i: int| 36 <= i < 88 ==> spcr[i] == spcr.skip(36)[i - 36]);
    bytes::le_bytes_len(0x3f8, 8);
    bytes::le_bytes_len(4, 4);
    bytes::le_bytes_len(0xffff, 2);
    bytes::le_bytes_len(0, 4);
    bytes::le_bytes_len(1_843_200, 4);
    bytes::le_bytes_len(115_200, 4);
    bytes::le_bytes_len(0, 2);
    reveal_with_fuel(bytes::le_limit, 9);
    assert(spcr.subrange(44, 52) =~= bytes::le_bytes(0x3f8, 8));
    assert(spcr.subrange(54, 58) =~= bytes::le_bytes(4, 4));
    assert(spcr.subrange(64, 66) =~= bytes::le_bytes(0xffff, 2));
    assert(spcr.subrange(66, 68) =~= bytes::le_bytes(0xffff, 2));
    assert(spcr.subrange(71, 75) =~= bytes::le_bytes(0, 4));
    assert(spcr.subrange(76, 80) =~= bytes::le_bytes(1_843_200, 4));
    assert(spcr.subrange(80, 84) =~= bytes::le_bytes(115_200, 4));
    assert(spcr.subrange(84, 86) =~= bytes::le_bytes(0, 2));
    assert(spcr.subrange(86, 88) =~= bytes::le_bytes(0, 2));
    laid_field_reads_back(spcr, 44, 0x3f8, 8);
    laid_field_reads_back(spcr, 54, 4, 4);
    laid_field_reads_back(spcr, 64, 0xffff, 2);
    laid_field_reads_back(spcr, 66, 0xffff, 2);
    laid_field_reads_back(spcr, 71, 0, 4);
    laid_field_reads_back(spcr, 76, 1_843_200, 4);
    laid_field_reads_back(spcr, 80, 115_200, 4);
    laid_field_reads_back(spcr, 84, 0, 2);
    laid_field_reads_back(spcr, 86, 0, 2);
}

/// The fixed description table points to the DSDT in both of its pointers, has legacy devices, is
/// hardware-reduced and has its sleep registers in memory at 0xfed1_0000 and 0xfed1_0001. Everything
/// else behind its header is zero.
#[verifier::rlimit(50)]
pub proof fn the_fadt_has_nothing_else(dsdt_addr: u32, at: int)
    requires
        36 <= at < 0x10c,
    ensures
        ({
            let fadt = acpi::sdt(FADT_SIGNATURE@, 5, acpi::fadt_body(dsdt_addr));
            &&& fadt.len() == 0x10c
            &&& fadt[8] == 5
            &&& bytes::read_le(fadt, 40, 4) == dsdt_addr
            &&& bytes::read_le(fadt, 109, 2) == 1
            &&& bytes::read_le(fadt, 112, 4) == 0x10_0000
            &&& bytes::read_le(fadt, 140, 8) == dsdt_addr
            &&& fadt.subrange(244, 248) == seq![0u8, 8, 0, 1]
            &&& bytes::read_le(fadt, 248, 8) == 0xfed1_0000
            &&& fadt.subrange(256, 260) == seq![0u8, 8, 0, 1]
            &&& bytes::read_le(fadt, 260, 8) == 0xfed1_0001
            &&& at < 40 || 44 <= at < 109 || at == 111 || 116 <= at < 140 || 148 <= at < 244
                ==> fadt[at] == 0
        }),
{
    let body = acpi::fadt_body(dsdt_addr);
    let fadt = acpi::sdt(FADT_SIGNATURE@, 5, body);
    acpi::fadt_body_len(dsdt_addr);
    finished_tables_have_headers(FADT_SIGNATURE@, 5, body);
    acpi_laws::fadt_describes_the_platform(dsdt_addr);
    bytes::le_bytes_len(dsdt_addr as nat, 4);
    bytes::le_bytes_len(dsdt_addr as nat, 8);
    bytes::le_bytes_len(1, 2);
    bytes::le_bytes_len(0x10_0000, 4);
    bytes::le_bytes_len(0xfed1_0000, 8);
    bytes::le_bytes_len(0xfed1_0001, 8);
    reveal_with_fuel(bytes::le_limit, 3);
    assert(forall|i: int| 36 <= i < 0x10c ==> fadt[i] == fadt.skip(36)[i - 36]);
    assert(fadt.subrange(109, 111) =~= bytes::le_bytes(1, 2));
    laid_field_reads_back(fadt, 109, 1, 2);
    assert(fadt.subrange(244, 248) =~= seq![0u8, 8, 0, 1]);
    assert(fadt.subrange(256, 260) =~= seq![0u8, 8, 0, 1]);
}

/// The root table lists one guest address for each offset, in their order, and nothing else.
pub proof fn the_rsdt_lists_the_addresses(offsets: Seq<u32>, at: int)
    requires
        0 <= at < offsets.len(),
        36 + 4 * offsets.len() < 0x1_0000_0000,
        0xe_1000 + offsets[at] <= u32::MAX,
    ensures
        ({
            let rsdt = acpi::sdt(RSDT_SIGNATURE@, 1, acpi::rsdt_body(offsets));
            &&& rsdt.len() == 36 + 4 * offsets.len()
            &&& rsdt[8] == 1
            &&& bytes::read_le(rsdt, 36 + 4 * at, 4) == 0xe_1000 + offsets[at]
        }),
{
    let body = acpi::rsdt_body(offsets);
    let rsdt = acpi::sdt(RSDT_SIGNATURE@, 1, body);
    acpi::rsdt_body_len(offsets);
    finished_tables_have_headers(RSDT_SIGNATURE@, 1, body);
    acpi_laws::rsdt_entry_points_to_its_table(offsets, at);
    assert(rsdt.subrange(36 + 4 * at, 40 + 4 * at) =~= body.subrange(4 * at, 4 * at + 4)) by {
        assert(forall|i: int| 36 <= i < rsdt.len() ==> rsdt[i] == rsdt.skip(36)[i - 36]);
    }
}

/// The bytes of the names and texts in the DSDT.
proof fn dsdt_texts()
    ensures
        encode_utf8("_SB_"@) == seq![0x5fu8, 0x53, 0x42, 0x5f],
        encode_utf8("COM1"@) == seq![0x43u8, 0x4f, 0x4d, 0x31],
        encode_utf8("_HID"@) == seq![0x5fu8, 0x48, 0x49, 0x44],
        encode_utf8("_UID"@) == seq![0x5fu8, 0x55, 0x49, 0x44],
        encode_utf8("_CRS"@) == seq![0x5fu8, 0x43, 0x52, 0x53],
        encode_utf8("PNP0501"@) == seq![0x50u8, 0x4e, 0x50, 0x30, 0x35, 0x30, 0x31],
{
    reveal_strlit("_SB_");
    reveal_strlit("COM1");
    reveal_strlit("_HID");
    reveal_strlit("_UID");
    reveal_strlit("_CRS");
    reveal_strlit("PNP0501");
    is_ascii_chars_encode_utf8("_SB_"@);
    is_ascii_chars_encode_utf8("COM1"@);
    is_ascii_chars_encode_utf8("_HID"@);
    is_ascii_chars_encode_utf8("_UID"@);
    is_ascii_chars_encode_utf8("_CRS"@);
    is_ascii_chars_encode_utf8("PNP0501"@);
    assert(encode_utf8("_SB_"@) =~= seq![0x5fu8, 0x53, 0x42, 0x5f]);
    assert(encode_utf8("COM1"@) =~= seq![0x43u8, 0x4f, 0x4d, 0x31]);
    assert(encode_utf8("_HID"@) =~= seq![0x5fu8, 0x48, 0x49, 0x44]);
    assert(encode_utf8("_UID"@) =~= seq![0x5fu8, 0x55, 0x49, 0x44]);
    assert(encode_utf8("_CRS"@) =~= seq![0x5fu8, 0x43, 0x52, 0x53]);
    assert(encode_utf8("PNP0501"@) =~= seq![0x50u8, 0x4e, 0x50, 0x30, 0x35, 0x30, 0x31]);
}

/// The resources of COM1 byte by byte: eight ports at 0x3f8 and interrupt 4.
#[verifier::rlimit(50)]
proof fn serial_crs_bytes()
    ensures
        acpi::serial_crs() == seq![
            0x11u8, 0x41, 0x01, 0x0a, 0x0d, 0x47, 0x01, 0xf8, 0x03, 0xf8, 0x03, 0x01, 0x08, 0x22, 0x10,
            0x00, 0x79, 0x00,
        ],
{
    let ports = aml::fixed_io(acpi::COM1_PORT, 8);
    let line = aml::irq_line(acpi::COM1_IRQ);
    let end = seq![0x79u8, 0x00u8];
    bytes_one_by_one(0x3f8);
    vstd::arithmetic::power2::lemma2_to64();
    bytes_one_by_one(0x10);
    assert(ports =~= seq![0x47u8, 0x01, 0xf8, 0x03, 0xf8, 0x03, 0x01, 0x08]);
    assert(line =~= seq![0x22u8, 0x10, 0x00]);
    reveal_with_fuel(aml::descriptors, 3);
    assert(seq![ports, line].drop_last() =~= seq![ports]);
    assert(seq![ports].drop_last() =~= Seq::empty());
    let content = aml::descriptors(seq![ports, line]) + end;
    assert(content =~= ports + line + end);
    assert(content.len() == 13);
    let size = aml::int_const(13);
    assert(size =~= seq![0x0au8, 0x0d]);
    pkg_lengths();
    assert((size + content).len() == 15);
    assert(acpi::serial_crs() =~= seq![
        0x11u8, 0x41, 0x01, 0x0a, 0x0d, 0x47, 0x01, 0xf8, 0x03, 0xf8, 0x03, 0x01, 0x08, 0x22, 0x10, 0x00,
        0x79, 0x00,
    ]);
}

/// The package lengths that occur in the DSDT.
proof fn pkg_lengths()
    ensures
        aml::pkg_length(15) == seq![0x41u8, 0x01],
        aml::pkg_length(47) == seq![0x41u8, 0x03],
        aml::pkg_length(55) == seq![0x49u8, 0x03],
{
    reveal_with_fuel(bytes::le_bytes, 2);
    assert(aml::pkg_length(15) =~= seq![0x41u8, 0x01]);
    assert(aml::pkg_length(47) =~= seq![0x41u8, 0x03]);
    assert(aml::pkg_length(55) =~= seq![0x49u8, 0x03]);
}

/// The objects of COM1 byte by byte.
#[verifier::rlimit(50)]
proof fn com1_bytes()
    ensures
        acpi::com1_aml() == seq![
            0x08u8, 0x5f, 0x48, 0x49, 0x44, 0x0d, 0x50, 0x4e, 0x50, 0x30, 0x35, 0x30, 0x31, 0x00, 0x08,
            0x5f, 0x55, 0x49, 0x44, 0x00, 0x08, 0x5f, 0x43, 0x52, 0x53,
        ] + acpi::serial_crs(),
{
    dsdt_texts();
    let id = aml::string_const("PNP0501"@);
    assert(id =~= seq![0x0du8, 0x50, 0x4e, 0x50, 0x30, 0x35, 0x30, 0x31, 0x00]);
    let hid = aml::name_decl("_HID"@, id);
    let uid = aml::name_decl("_UID"@, aml::int_const(0));
    let crs = aml::name_decl("_CRS"@, acpi::serial_crs());
    assert(hid =~= seq![
        0x08u8, 0x5f, 0x48, 0x49, 0x44, 0x0d, 0x50, 0x4e, 0x50, 0x30, 0x35, 0x30, 0x31, 0x00,
    ]);
    assert(uid =~= seq![0x08u8, 0x5f, 0x55, 0x49, 0x44, 0x00]);
    assert(crs =~= seq![0x08u8, 0x5f, 0x43, 0x52, 0x53] + acpi::serial_crs());
    assert(acpi::com1_aml() =~= seq![
        0x08u8, 0x5f, 0x48, 0x49, 0x44, 0x0d, 0x50, 0x4e, 0x50, 0x30, 0x35, 0x30, 0x31, 0x00, 0x08, 0x5f,
        0x55, 0x49, 0x44, 0x00, 0x08, 0x5f, 0x43, 0x52, 0x53,
    ] + acpi::serial_crs());
}

/// The DSDT byte by byte, behind its header: the scope `_SB_` holds the device `COM1`, which holds
/// `_HID` with `PNP0501`, `_UID` with 0 and `_CRS` with the ports 0x3f8 to 0x3ff and interrupt 4.
#[verifier::rlimit(50)]
pub proof fn the_dsdt_is_com1()
    ensures
        acpi::sdt(DSDT_SIGNATURE@, 1, acpi::dsdt_body()) == acpi::dsdt_table(),
        acpi::dsdt_table()[8] == 1,
        acpi::dsdt_table().skip(36) == seq![
            0x10u8, 0x49, 0x03, 0x5f, 0x53, 0x42, 0x5f, 0x5b, 0x82, 0x41, 0x03, 0x43, 0x4f, 0x4d, 0x31,
        ] + seq![
            0x08u8, 0x5f, 0x48, 0x49, 0x44, 0x0d, 0x50, 0x4e, 0x50, 0x30, 0x35, 0x30, 0x31, 0x00, 0x08,
            0x5f, 0x55, 0x49, 0x44, 0x00, 0x08, 0x5f, 0x43, 0x52, 0x53,
        ] + seq![
            0x11u8, 0x41, 0x01, 0x0a, 0x0d, 0x47, 0x01, 0xf8, 0x03, 0xf8, 0x03, 0x01, 0x08, 0x22, 0x10,
            0x00, 0x79, 0x00,
        ],
{
    let body = acpi::dsdt_body();
    let inner = acpi::com1_aml();
    acpi::dsdt_lens();
    finished_tables_have_headers(DSDT_SIGNATURE@, 1, body);
    dsdt_texts();
    serial_crs_bytes();
    com1_bytes();
    pkg_lengths();
    let device = aml::device("COM1"@, inner);
    assert((encode_utf8("COM1"@) + inner).len() == 47);
    assert(device =~= seq![0x5bu8, 0x82, 0x41, 0x03, 0x43, 0x4f, 0x4d, 0x31] + inner);
    assert((encode_utf8("_SB_"@) + device).len() == 55);
    assert(body =~= seq![0x10u8, 0x49, 0x03, 0x5f, 0x53, 0x42, 0x5f] + device);
    assert(body =~= seq![
        0x10u8, 0x49, 0x03, 0x5f, 0x53, 0x42, 0x5f, 0x5b, 0x82, 0x41, 0x03, 0x43, 0x4f, 0x4d, 0x31,
    ] + inner);
}

/// The image is the DSDT at 0, the FADT for a DSDT at 0xe_1000 at 94, the MADT at 362, the SPCR at
/// 426 and the RSDT for the tables at 94, 362 and 426 at 514, where it ends at 562.
#[verifier::rlimit(50)]
pub proof fn the_image_is_its_five_tables()
    ensures
        ({
            let image = acpi::acpi_tables();
            &&& image.len() == 562
            &&& acpi::rsdt_offset() == 514
            &&& image.subrange(0, 94) == acpi::sdt(DSDT_SIGNATURE@, 1, acpi::dsdt_body())
            &&& image.subrange(94, 362) == acpi::sdt(
                FADT_SIGNATURE@,
                5,
                acpi::fadt_body(0xe_1000),
            )
            &&& image.subrange(362, 426) == acpi::sdt(MADT_SIGNATURE@, 1, acpi::madt_body())
            &&& image.subrange(426, 514) == acpi::sdt(SPCR_SIGNATURE@, 2, acpi::spcr_body())
            &&& image.subrange(514, 562) == acpi::sdt(
                RSDT_SIGNATURE@,
                1,
                acpi::rsdt_body(seq![94u32, 362u32, 426u32]),
            )
        }),
{
    let image = acpi::acpi_tables();
    acpi::table_lens();
    assert(image.subrange(0, 94) =~= acpi::dsdt_table());
    assert(image.subrange(94, 362) =~= acpi::fadt_table());
    assert(image.subrange(362, 426) =~= acpi::madt_table());
    assert(image.subrange(426, 514) =~= acpi::spcr_table());
    assert(image.subrange(514, 562) =~= acpi::rsdt_table());
}

} // verus!
