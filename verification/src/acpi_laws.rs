//! What a guest can rely on when it walks the ACPI image.

use vstd::prelude::*;
use vstd::utf8::*;

use crate::acpi;
use crate::acpi::{
    ACPI_RESERVED_SIZE, ACPI_RSDP_GPA, ACPI_SLEEP_REG_GPA, ACPI_TABLES_GPA, COM1_IRQ, COM1_PORT,
    DSDT_SIGNATURE, FADT_DSDT_OFFSET, FADT_FLAGS_OFFSET, FADT_FLAG_HW_REDUCED_ACPI,
    FADT_SIGNATURE, FADT_SLEEP_CONTROL_OFFSET, FADT_SLEEP_STATUS_OFFSET, FADT_V5_SIZE,
    FADT_XDSDT_OFFSET, MADT_SIGNATURE, RSDP_SIGNATURE, RSDT_SIGNATURE, SDT_HEADER_SIZE,
    SPCR_SIGNATURE,
};
use crate::aml;
use crate::bytes;

verus! {

/// A table opens with its signature, its length field spans the whole table, and its bytes sum
/// to a multiple of 256.
pub open spec fn is_sound_table(table: Seq<u8>, signature: Seq<u8>) -> bool {
    &&& table.len() >= SDT_HEADER_SIZE
    &&& table.subrange(0, 4) == signature
    &&& bytes::read_le(table, 4, 4) == table.len()
    &&& bytes::byte_sum(table) % 256 == 0
}

/// Every table that the library finishes is sound.
pub proof fn sdt_is_sound(signature: Seq<u8>, revision: u8, body: Seq<u8>)
    requires
        signature.len() == 4,
        SDT_HEADER_SIZE + body.len() < 0x1_0000_0000,
    ensures
        is_sound_table(acpi::sdt(signature, revision, body), signature),
        acpi::sdt(signature, revision, body)[8] == revision,
        acpi::sdt(signature, revision, body).skip(SDT_HEADER_SIZE as int) == body,
{
    let length = SDT_HEADER_SIZE as nat + body.len();
    let unsummed = acpi::sdt_header(signature, length, revision, 0) + body;
    let check = bytes::checksum_byte(unsummed);
    let table = acpi::sdt(signature, revision, body);
    acpi::sdt_header_len(signature, length, revision, 0);
    acpi::sdt_header_len(signature, length, revision, check);
    bytes::le_bytes_len(length, 4);
    assert(table =~= unsummed.update(9, check));
    bytes::checksum_balances(unsummed, 9);
    reveal_with_fuel(bytes::le_limit, 5);
    bytes::le_value_of_le_bytes(length, 4);
    assert(table.subrange(4, 8) =~= bytes::le_bytes(length, 4));
    assert(table.subrange(0, 4) =~= signature);
    assert(table.skip(SDT_HEADER_SIZE as int) =~= body);
}

/// The root pointer opens with its signature, holds the address that it was built for, and sums
/// to a multiple of 256.
pub proof fn rsdp_is_sound(rsdt_addr: u32)
    ensures
        acpi::rsdp(rsdt_addr).len() == 20,
        acpi::rsdp(rsdt_addr).subrange(0, 8) == RSDP_SIGNATURE@,
        bytes::read_le(acpi::rsdp(rsdt_addr), 16, 4) == rsdt_addr,
        bytes::byte_sum(acpi::rsdp(rsdt_addr)) % 256 == 0,
{
    let pointer = acpi::rsdp(rsdt_addr);
    bytes::le_bytes_len(rsdt_addr as nat, 4);
    bytes::checksum_balances(acpi::rsdp_unsummed(rsdt_addr), 8);
    reveal_with_fuel(bytes::le_limit, 5);
    bytes::le_value_of_le_bytes(rsdt_addr as nat, 4);
    assert(pointer.subrange(16, 20) =~= bytes::le_bytes(rsdt_addr as nat, 4));
    assert(pointer.subrange(0, 8) =~= RSDP_SIGNATURE@);
}

/// The length field of the table at `offset`.
pub open spec fn length_field(tables: Seq<u8>, offset: nat) -> nat {
    bytes::read_le(tables, offset as int + 4, 4)
}

/// The table at `offset`, as far as its own length field says.
pub open spec fn table_at(tables: Seq<u8>, offset: nat) -> Seq<u8> {
    tables.subrange(offset as int, offset as int + length_field(tables, offset))
}

/// The length field of a sound table inside a run of tables spans that table.
proof fn sound_table_in_run(before: Seq<u8>, table: Seq<u8>, after: Seq<u8>, signature: Seq<u8>)
    requires
        is_sound_table(table, signature),
    ensures
        table_at(before + table + after, before.len()) == table,
        length_field(before + table + after, before.len()) == table.len(),
{
    let run = before + table + after;
    assert(run.subrange(before.len() as int + 4, before.len() as int + 8) =~= table.subrange(4, 8));
    assert(run.subrange(before.len() as int, (before.len() + table.len()) as int) =~= table);
}

/// Following the length fields from the start visits the five tables, each sound, in the order
/// DSDT, FADT, MADT, SPCR, RSDT, and ends at the end of the image.
#[verifier::rlimit(50)]
pub proof fn length_fields_chain_the_tables()
    ensures
        is_sound_table(table_at(acpi::acpi_tables(), 0), DSDT_SIGNATURE@),
        length_field(acpi::acpi_tables(), 0) == acpi::fadt_offset(),
        is_sound_table(table_at(acpi::acpi_tables(), acpi::fadt_offset()), FADT_SIGNATURE@),
        acpi::fadt_offset() + length_field(acpi::acpi_tables(), acpi::fadt_offset())
            == acpi::madt_offset(),
        is_sound_table(table_at(acpi::acpi_tables(), acpi::madt_offset()), MADT_SIGNATURE@),
        acpi::madt_offset() + length_field(acpi::acpi_tables(), acpi::madt_offset())
            == acpi::spcr_offset(),
        is_sound_table(table_at(acpi::acpi_tables(), acpi::spcr_offset()), SPCR_SIGNATURE@),
        acpi::spcr_offset() + length_field(acpi::acpi_tables(), acpi::spcr_offset())
            == acpi::rsdt_offset(),
        is_sound_table(table_at(acpi::acpi_tables(), acpi::rsdt_offset()), RSDT_SIGNATURE@),
        acpi::rsdt_offset() + length_field(acpi::acpi_tables(), acpi::rsdt_offset())
            == acpi::acpi_tables().len(),
{
    tables_are_sound();
    five_tables_chain(
        acpi::dsdt_table(),
        acpi::fadt_table(),
        acpi::madt_table(),
        acpi::spcr_table(),
        acpi::rsdt_table(),
    );
}

/// In a run of five sound tables each length field leads to the next table.
#[verifier::rlimit(50)]
proof fn five_tables_chain(a: Seq<u8>, b: Seq<u8>, c: Seq<u8>, d: Seq<u8>, e: Seq<u8>)
    requires
        is_sound_table(a, DSDT_SIGNATURE@),
        is_sound_table(b, FADT_SIGNATURE@),
        is_sound_table(c, MADT_SIGNATURE@),
        is_sound_table(d, SPCR_SIGNATURE@),
        is_sound_table(e, RSDT_SIGNATURE@),
    ensures
        table_at(a + b + c + d + e, 0) == a,
        length_field(a + b + c + d + e, 0) == a.len(),
        table_at(a + b + c + d + e, a.len()) == b,
        length_field(a + b + c + d + e, a.len()) == b.len(),
        table_at(a + b + c + d + e, a.len() + b.len()) == c,
        length_field(a + b + c + d + e, a.len() + b.len()) == c.len(),
        table_at(a + b + c + d + e, a.len() + b.len() + c.len()) == d,
        length_field(a + b + c + d + e, a.len() + b.len() + c.len()) == d.len(),
        table_at(a + b + c + d + e, a.len() + b.len() + c.len() + d.len()) == e,
        length_field(a + b + c + d + e, a.len() + b.len() + c.len() + d.len()) == e.len(),
{
    let run = a + b + c + d + e;
    assert(run =~= Seq::<u8>::empty() + a + (b + c + d + e));
    sound_table_in_run(Seq::empty(), a, b + c + d + e, DSDT_SIGNATURE@);
    assert(run =~= a + b + (c + d + e));
    sound_table_in_run(a, b, c + d + e, FADT_SIGNATURE@);
    assert(run =~= (a + b) + c + (d + e));
    sound_table_in_run(a + b, c, d + e, MADT_SIGNATURE@);
    sound_table_in_run(a + b + c, d, e, SPCR_SIGNATURE@);
    assert(run =~= run + Seq::<u8>::empty());
    sound_table_in_run(a + b + c + d, e, Seq::empty(), RSDT_SIGNATURE@);
}

/// The five tables of the image are sound, and the fixed description table has revision 5.
proof fn tables_are_sound()
    ensures
        is_sound_table(acpi::dsdt_table(), DSDT_SIGNATURE@),
        is_sound_table(acpi::fadt_table(), FADT_SIGNATURE@),
        is_sound_table(acpi::madt_table(), MADT_SIGNATURE@),
        is_sound_table(acpi::spcr_table(), SPCR_SIGNATURE@),
        is_sound_table(acpi::rsdt_table(), RSDT_SIGNATURE@),
        acpi::fadt_table()[8] == 5,
{
    let offsets = seq![
        acpi::fadt_offset() as u32,
        acpi::madt_offset() as u32,
        acpi::spcr_offset() as u32,
    ];
    acpi::dsdt_lens();
    acpi::madt_body_len();
    acpi::spcr_body_len();
    acpi::fadt_body_len(ACPI_TABLES_GPA as u32);
    acpi::rsdt_body_len(offsets);
    sdt_is_sound(DSDT_SIGNATURE@, 1, acpi::dsdt_body());
    sdt_is_sound(FADT_SIGNATURE@, 5, acpi::fadt_body(ACPI_TABLES_GPA as u32));
    sdt_is_sound(MADT_SIGNATURE@, 1, acpi::madt_body());
    sdt_is_sound(SPCR_SIGNATURE@, 2, acpi::spcr_body());
    sdt_is_sound(RSDT_SIGNATURE@, 1, acpi::rsdt_body(offsets));
}

/// The fixed description table has revision 5 and its full size, points to the DSDT through both
/// of its pointers, declares a hardware-reduced platform, and names the sleep registers.
#[verifier::rlimit(50)]
pub proof fn fadt_describes_the_platform(dsdt_addr: u32)
    ensures
        ({
            let fadt = acpi::sdt(FADT_SIGNATURE@, 5, acpi::fadt_body(dsdt_addr));
            &&& fadt.len() == FADT_V5_SIZE
            &&& fadt[8] == 5
            &&& bytes::read_le(fadt, FADT_DSDT_OFFSET as int, 4) == dsdt_addr
            &&& bytes::read_le(fadt, FADT_XDSDT_OFFSET as int, 8) == dsdt_addr
            &&& bytes::read_le(fadt, FADT_FLAGS_OFFSET as int, 4) == FADT_FLAG_HW_REDUCED_ACPI
            &&& bytes::read_le(fadt, FADT_SLEEP_CONTROL_OFFSET + 4, 8) == ACPI_SLEEP_REG_GPA
            &&& bytes::read_le(fadt, FADT_SLEEP_STATUS_OFFSET + 4, 8) == ACPI_SLEEP_REG_GPA + 1
        }),
{
    let body = acpi::fadt_body(dsdt_addr);
    let fadt = acpi::sdt(FADT_SIGNATURE@, 5, body);
    let status = (ACPI_SLEEP_REG_GPA + 1) as nat;
    acpi::fadt_body_len(dsdt_addr);
    sdt_is_sound(FADT_SIGNATURE@, 5, body);
    acpi::sdt_len(FADT_SIGNATURE@, 5, body);
    bytes::le_bytes_len(dsdt_addr as nat, 4);
    bytes::le_bytes_len(dsdt_addr as nat, 8);
    bytes::le_bytes_len(1, 2);
    bytes::le_bytes_len(FADT_FLAG_HW_REDUCED_ACPI as nat, 4);
    bytes::le_bytes_len(ACPI_SLEEP_REG_GPA as nat, 8);
    bytes::le_bytes_len(status, 8);
    reveal_with_fuel(bytes::le_limit, 9);
    bytes::le_value_of_le_bytes(dsdt_addr as nat, 4);
    bytes::le_value_of_le_bytes(dsdt_addr as nat, 8);
    bytes::le_value_of_le_bytes(FADT_FLAG_HW_REDUCED_ACPI as nat, 4);
    bytes::le_value_of_le_bytes(ACPI_SLEEP_REG_GPA as nat, 8);
    bytes::le_value_of_le_bytes(status, 8);
    assert(fadt.subrange(40, 44) =~= body.subrange(4, 8));
    assert(body.subrange(4, 8) =~= bytes::le_bytes(dsdt_addr as nat, 4));
    assert(fadt.subrange(140, 148) =~= body.subrange(104, 112));
    assert(body.subrange(104, 112) =~= bytes::le_bytes(dsdt_addr as nat, 8));
    assert(fadt.subrange(112, 116) =~= body.subrange(76, 80));
    assert(body.subrange(76, 80) =~= bytes::le_bytes(FADT_FLAG_HW_REDUCED_ACPI as nat, 4));
    assert(fadt.subrange(248, 256) =~= body.subrange(212, 220));
    assert(body.subrange(212, 220) =~= bytes::le_bytes(ACPI_SLEEP_REG_GPA as nat, 8));
    assert(fadt.subrange(260, 268) =~= body.subrange(224, 232));
    assert(body.subrange(224, 232) =~= bytes::le_bytes(status, 8));
}

/// Entry `i` of the root table is the guest address of the table at the `i`-th offset.
pub proof fn rsdt_entry_points_to_its_table(offsets: Seq<u32>, i: int)
    requires
        0 <= i < offsets.len(),
        ACPI_TABLES_GPA + offsets[i] <= u32::MAX,
    ensures
        bytes::read_le(acpi::rsdt_body(offsets), 4 * i, 4) == ACPI_TABLES_GPA + offsets[i],
    decreases offsets.len(),
{
    let init = offsets.drop_last();
    let last = bytes::le_bytes((ACPI_TABLES_GPA + offsets.last()) as nat, 4);
    let body = acpi::rsdt_body(offsets);
    acpi::rsdt_body_len(init);
    bytes::le_bytes_len((ACPI_TABLES_GPA + offsets.last()) as nat, 4);
    if i == offsets.len() - 1 {
        reveal_with_fuel(bytes::le_limit, 5);
        bytes::le_value_of_le_bytes((ACPI_TABLES_GPA + offsets.last()) as nat, 4);
        assert(body.subrange(4 * i, 4 * i + 4) =~= last);
    } else {
        rsdt_entry_points_to_its_table(init, i);
        assert(body.subrange(4 * i, 4 * i + 4) =~= acpi::rsdt_body(init).subrange(
            4 * i,
            4 * i + 4,
        ));
    }
}

/// The pointers in the image lead where they should: the root pointer to the root table, the
/// root table to the FADT, the MADT and the SPCR, and the FADT to the DSDT.
#[verifier::rlimit(50)]
pub proof fn pointers_lead_to_their_tables()
    ensures
        bytes::read_le(acpi::rsdp((ACPI_TABLES_GPA + acpi::rsdt_offset()) as u32), 16, 4)
            == ACPI_TABLES_GPA + acpi::rsdt_offset(),
        bytes::read_le(acpi::acpi_tables(), acpi::rsdt_offset() + SDT_HEADER_SIZE, 4)
            == ACPI_TABLES_GPA + acpi::fadt_offset(),
        bytes::read_le(acpi::acpi_tables(), acpi::rsdt_offset() + SDT_HEADER_SIZE + 4, 4)
            == ACPI_TABLES_GPA + acpi::madt_offset(),
        bytes::read_le(acpi::acpi_tables(), acpi::rsdt_offset() + SDT_HEADER_SIZE + 8, 4)
            == ACPI_TABLES_GPA + acpi::spcr_offset(),
        bytes::read_le(acpi::acpi_tables(), acpi::fadt_offset() + FADT_DSDT_OFFSET, 4)
            == ACPI_TABLES_GPA,
        bytes::read_le(acpi::acpi_tables(), acpi::fadt_offset() + FADT_XDSDT_OFFSET, 8)
            == ACPI_TABLES_GPA,
{
    let run = acpi::acpi_tables();
    let fadt = acpi::fadt_offset() as int;
    let rsdt = acpi::rsdt_offset() as int;
    let offsets = seq![
        acpi::fadt_offset() as u32,
        acpi::madt_offset() as u32,
        acpi::spcr_offset() as u32,
    ];
    let entries = acpi::rsdt_body(offsets);
    acpi::table_lens();
    rsdp_is_sound((ACPI_TABLES_GPA + acpi::rsdt_offset()) as u32);
    acpi::rsdt_body_len(offsets);
    sdt_is_sound(RSDT_SIGNATURE@, 1, entries);
    assert(run.skip(rsdt) =~= acpi::rsdt_table());
    assert(acpi::rsdt_table().skip(36) == entries);
    rsdt_entry_points_to_its_table(offsets, 0);
    rsdt_entry_points_to_its_table(offsets, 1);
    rsdt_entry_points_to_its_table(offsets, 2);
    assert(run.subrange(rsdt + 36, rsdt + 40) =~= entries.subrange(0, 4));
    assert(run.subrange(rsdt + 40, rsdt + 44) =~= entries.subrange(4, 8));
    assert(run.subrange(rsdt + 44, rsdt + 48) =~= entries.subrange(8, 12));
    fadt_describes_the_platform(ACPI_TABLES_GPA as u32);
    assert(run.subrange(fadt + 40, fadt + 44) =~= acpi::fadt_table().subrange(40, 44));
    assert(run.subrange(fadt + 140, fadt + 148) =~= acpi::fadt_table().subrange(140, 148));
}

/// Whether the bytes of `part` stand somewhere in `whole`.
pub open spec fn occurs_in(part: Seq<u8>, whole: Seq<u8>) -> bool {
    exists|at: int|
        0 <= at <= whole.len() - part.len() && #[trigger] whole.subrange(at, at + part.len())
            == part
}

/// Every sequence occurs in itself.
proof fn occurs_in_itself(part: Seq<u8>)
    ensures
        occurs_in(part, part),
{
    let at: int = 0;
    assert(part.subrange(at, at + part.len()) =~= part);
}

/// What occurs in the middle of a sequence occurs in the sequence.
proof fn occurs_around(part: Seq<u8>, before: Seq<u8>, middle: Seq<u8>, after: Seq<u8>)
    requires
        occurs_in(part, middle),
    ensures
        occurs_in(part, before + middle + after),
{
    let at = choose|at: int|
        0 <= at <= middle.len() - part.len() && #[trigger] middle.subrange(at, at + part.len())
            == part;
    let whole = before + middle + after;
    let start = before.len() + at;
    assert(whole.subrange(start, start + part.len()) =~= middle.subrange(at, at + part.len()));
}

/// What occurs in a value occurs in the object that names it.
proof fn occurs_in_named(part: Seq<u8>, name: Seq<char>, value: Seq<u8>)
    requires
        occurs_in(part, value),
    ensures
        occurs_in(part, aml::name_decl(name, value)),
{
    let before = seq![0x08u8] + encode_utf8(name);
    occurs_around(part, before, value, Seq::empty());
    assert(before + value + Seq::<u8>::empty() =~= aml::name_decl(name, value));
}

/// What occurs in the content of a package occurs in the package.
proof fn occurs_in_package(part: Seq<u8>, opcode: Seq<u8>, head: Seq<u8>, body: Seq<u8>)
    requires
        occurs_in(part, body),
    ensures
        occurs_in(part, aml::pkg_op(opcode, head + body)),
{
    let before = opcode + aml::pkg_length((head + body).len()) + head;
    occurs_around(part, before, body, Seq::empty());
    assert(before + body + Seq::<u8>::empty() =~= aml::pkg_op(opcode, head + body));
}

/// A descriptor occurs in the resources of COM1.
proof fn occurs_in_serial_crs(part: Seq<u8>)
    requires
        part == aml::fixed_io(COM1_PORT, 8) || part == aml::irq_line(COM1_IRQ),
    ensures
        occurs_in(part, acpi::serial_crs()),
{
    let ports = aml::fixed_io(COM1_PORT, 8);
    let line = aml::irq_line(COM1_IRQ);
    let resources = seq![ports, line];
    let end = seq![0x79u8, 0x00u8];
    let content = aml::descriptors(resources) + end;
    occurs_in_itself(part);
    assert(resources.drop_last() =~= seq![ports]);
    assert(seq![ports].drop_last() =~= Seq::empty());
    reveal_with_fuel(aml::descriptors, 3);
    if part == ports {
        occurs_around(part, Seq::empty(), ports, line + end);
        assert(Seq::<u8>::empty() + ports + (line + end) =~= content);
    } else {
        occurs_around(part, ports, line, end);
        assert(ports + line + end =~= content);
    }
    let size = aml::int_const(content.len() as u64);
    occurs_in_package(part, seq![0x11u8], size, content);
}

/// What occurs in the COM1 device occurs in the DSDT.
proof fn occurs_in_dsdt(part: Seq<u8>)
    requires
        occurs_in(part, acpi::com1_aml()),
    ensures
        occurs_in(part, acpi::dsdt_table()),
{
    let device = aml::device("COM1"@, acpi::com1_aml());
    let body = acpi::dsdt_body();
    let table = acpi::dsdt_table();
    occurs_in_package(part, seq![0x5bu8, 0x82u8], encode_utf8("COM1"@), acpi::com1_aml());
    occurs_in_package(part, seq![0x10u8], encode_utf8("_SB_"@), device);
    acpi::dsdt_lens();
    sdt_is_sound(DSDT_SIGNATURE@, 1, body);
    let header = table.take(SDT_HEADER_SIZE as int);
    occurs_around(part, header, body, Seq::empty());
    assert(header + body + Seq::<u8>::empty() =~= table);
}

/// The DSDT describes COM1: it holds the hardware id of a 16550 UART, its eight ports and its
/// interrupt line.
pub proof fn dsdt_describes_com1()
    ensures
        occurs_in(aml::string_const("PNP0501"@), acpi::dsdt_table()),
        occurs_in(aml::fixed_io(COM1_PORT, 8), acpi::dsdt_table()),
        occurs_in(aml::irq_line(COM1_IRQ), acpi::dsdt_table()),
{
    let id = aml::string_const("PNP0501"@);
    let hid = aml::name_decl("_HID"@, id);
    let uid = aml::name_decl("_UID"@, aml::int_const(0));
    let crs = aml::name_decl("_CRS"@, acpi::serial_crs());
    occurs_in_itself(id);
    occurs_in_named(id, "_HID"@, id);
    occurs_around(id, Seq::empty(), hid, uid + crs);
    assert(Seq::<u8>::empty() + hid + (uid + crs) =~= acpi::com1_aml());
    occurs_in_dsdt(id);
    assert((hid + uid) + crs + Seq::<u8>::empty() =~= acpi::com1_aml());
    let ports = aml::fixed_io(COM1_PORT, 8);
    occurs_in_serial_crs(ports);
    occurs_in_named(ports, "_CRS"@, acpi::serial_crs());
    occurs_around(ports, hid + uid, crs, Seq::empty());
    occurs_in_dsdt(ports);
    let line = aml::irq_line(COM1_IRQ);
    occurs_in_serial_crs(line);
    occurs_in_named(line, "_CRS"@, acpi::serial_crs());
    occurs_around(line, hid + uid, crs, Seq::empty());
    occurs_in_dsdt(line);
}

/// The root pointer ends before the tables start, and the tables end inside the reserved range.
pub proof fn image_fits_the_reserved_range()
    ensures
        ACPI_RSDP_GPA + 20 <= ACPI_TABLES_GPA,
        ACPI_TABLES_GPA + acpi::acpi_tables().len() <= ACPI_RSDP_GPA + ACPI_RESERVED_SIZE,
{
    acpi::table_lens();
}

} // verus!
