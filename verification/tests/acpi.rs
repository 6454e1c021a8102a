//! The ACPI image of a guest.

use axvisor_x86::acpi::{
    build, build_rsdp, build_rsdt, reserved_range, ACPI_RESERVED_SIZE, ACPI_RSDP_GPA,
    ACPI_SLEEP_REG_GPA, ACPI_TABLES_GPA, FADT_DSDT_OFFSET, FADT_FLAGS_OFFSET,
    FADT_FLAG_HW_REDUCED_ACPI, FADT_SLEEP_CONTROL_OFFSET, FADT_SLEEP_STATUS_OFFSET, FADT_V5_SIZE,
    FADT_XDSDT_OFFSET,
};
use axvisor_x86::aml::{
    aml_buffer, aml_device, aml_int, aml_name_decl, aml_name_ref, aml_pkg_len, aml_pkg_op,
    aml_resource_template, aml_scope, aml_string, fixed_io_resource, irq_resource,
};
use axvisor_x86::bytes::{
    checksum, push_u16, push_u32, push_u64, write_u16, write_u32, write_u64,
};

fn table_len(tables: &[u8], offset: usize) -> usize {
    u32::from_le_bytes(tables[offset + 4..offset + 8].try_into().unwrap()) as usize
}

fn read_u32(tables: &[u8], offset: usize) -> u32 {
    u32::from_le_bytes(tables[offset..offset + 4].try_into().unwrap())
}

fn read_u64(tables: &[u8], offset: usize) -> u64 {
    u64::from_le_bytes(tables[offset..offset + 8].try_into().unwrap())
}

fn sum(bytes: &[u8]) -> u8 {
    bytes.iter().fold(0u8, |sum, byte| sum.wrapping_add(*byte))
}

fn find_table(tables: &[u8], sig: &[u8; 4]) -> usize {
    let mut offset = 0;
    while offset < tables.len() {
        if &tables[offset..offset + 4] == sig {
            return offset;
        }
        offset += table_len(tables, offset);
    }
    panic!("table not found: {sig:?}");
}

#[test]
fn builds_hardware_reduced_fadt_with_dsdt_pointer() {
    let image = build();
    let dsdt = find_table(&image.tables, b"DSDT");
    let fadt = find_table(&image.tables, b"FACP");
    let dsdt_addr = ACPI_TABLES_GPA as u32 + dsdt as u32;

    assert_eq!(image.tables[fadt + 8], 5);
    assert_eq!(table_len(&image.tables, fadt), FADT_V5_SIZE);
    assert_eq!(read_u32(&image.tables, fadt + FADT_DSDT_OFFSET), dsdt_addr);
    assert_eq!(
        read_u64(&image.tables, fadt + FADT_XDSDT_OFFSET),
        dsdt_addr as u64
    );
    assert_eq!(
        read_u32(&image.tables, fadt + FADT_FLAGS_OFFSET),
        FADT_FLAG_HW_REDUCED_ACPI
    );
    assert_eq!(
        read_u32(&image.tables, fadt + FADT_SLEEP_CONTROL_OFFSET + 4),
        ACPI_SLEEP_REG_GPA as u32
    );
    assert_eq!(
        image.tables[fadt..fadt + FADT_V5_SIZE]
            .iter()
            .fold(0u8, |sum, byte| sum.wrapping_add(*byte)),
        0
    );
}

#[test]
fn dsdt_describes_com1_as_pnp0501_irq4() {
    let image = build();
    let dsdt = find_table(&image.tables, b"DSDT");
    let len = table_len(&image.tables, dsdt);
    let bytes = &image.tables[dsdt..dsdt + len];

    assert!(bytes.windows(8).any(|window| window == b"PNP0501\0"));
    assert!(bytes
        .windows(8)
        .any(|window| window == [0x47, 0x01, 0xf8, 0x03, 0xf8, 0x03, 0x01, 0x08]));
    assert!(bytes.windows(3).any(|window| window == [0x22, 0x10, 0x00]));
}

#[test]
fn rsdp_points_to_rsdt_and_checksums_are_valid() {
    let image = build();
    let rsdt = find_table(&image.tables, b"RSDT");
    assert_eq!(
        u32::from_le_bytes(image.rsdp[16..20].try_into().unwrap()),
        ACPI_TABLES_GPA as u32 + rsdt as u32
    );
    assert_eq!(
        image
            .rsdp
            .iter()
            .fold(0u8, |sum, byte| sum.wrapping_add(*byte)),
        0
    );
}

#[test]
fn length_fields_lead_from_table_to_table() {
    let image = build();
    let mut offset = 0;
    let mut found = Vec::new();
    while offset < image.tables.len() {
        let len = table_len(&image.tables, offset);
        found.push(image.tables[offset..offset + 4].to_vec());
        assert_eq!(sum(&image.tables[offset..offset + len]), 0);
        offset += len;
    }
    assert_eq!(offset, image.tables.len());
    let expected: Vec<Vec<u8>> = [b"DSDT", b"FACP", b"APIC", b"SPCR", b"RSDT"]
        .iter()
        .map(|sig| sig.to_vec())
        .collect();
    assert_eq!(found, expected);
}

#[test]
fn rsdt_entries_lead_to_their_tables() {
    let image = build();
    let rsdt = find_table(&image.tables, b"RSDT");
    let entries: Vec<u32> = (0..3)
        .map(|i| read_u32(&image.tables, rsdt + 36 + 4 * i))
        .collect();
    for (entry, sig) in entries.iter().zip([b"FACP", b"APIC", b"SPCR"]) {
        let offset = *entry as usize - ACPI_TABLES_GPA;
        assert_eq!(&image.tables[offset..offset + 4], sig);
    }
    assert_eq!(table_len(&image.tables, rsdt), 36 + 12);
}

#[test]
fn sleep_registers_are_in_memory() {
    let image = build();
    let fadt = find_table(&image.tables, b"FACP");
    for offset in [FADT_SLEEP_CONTROL_OFFSET, FADT_SLEEP_STATUS_OFFSET] {
        assert_eq!(image.tables[fadt + offset], 0);
        assert_eq!(image.tables[fadt + offset + 1], 8);
    }
}

#[test]
fn image_fits_between_its_addresses() {
    let image = build();
    let range = reserved_range();
    assert_eq!(range.start, ACPI_RSDP_GPA);
    assert_eq!(range.size, ACPI_RESERVED_SIZE);
    assert!(ACPI_RSDP_GPA + image.rsdp.len() <= ACPI_TABLES_GPA);
    assert!(ACPI_TABLES_GPA + image.tables.len() <= range.start + range.size);
}

#[test]
fn root_pointer_holds_the_address() {
    let rsdp = build_rsdp(0x1234_5678);
    assert_eq!(&rsdp[0..8], b"RSD PTR ");
    assert_eq!(&rsdp[9..15], b"AXVIS ");
    assert_eq!(rsdp[16..20], [0x78, 0x56, 0x34, 0x12]);
    assert_eq!(sum(&rsdp), 0);
}

#[test]
fn root_table_lists_what_it_is_given() {
    let mut tables = Vec::new();
    build_rsdt(&mut tables, &[0x0010, 0x0020]);
    assert_eq!(&tables[0..4], b"RSDT");
    assert_eq!(table_len(&tables, 0), 44);
    assert_eq!(read_u32(&tables, 36), ACPI_TABLES_GPA as u32 + 0x10);
    assert_eq!(read_u32(&tables, 40), ACPI_TABLES_GPA as u32 + 0x20);
    assert_eq!(sum(&tables), 0);
}

#[test]
fn package_lengths_count_themselves() {
    assert_eq!(aml_pkg_len(0), vec![1]);
    assert_eq!(aml_pkg_len(14), vec![15]);
    assert_eq!(aml_pkg_len(15), vec![0x41, 0x01]);
    assert_eq!(aml_pkg_len(0xffd), vec![0x4f, 0xff]);
    assert_eq!(aml_pkg_len(0xffe), vec![0x81, 0x00, 0x01]);
    assert_eq!(aml_pkg_len(0xfffc), vec![0x8f, 0xff, 0x0f]);
    assert_eq!(aml_pkg_len(0xf_fffd), vec![0xc1, 0x00, 0x00, 0x01]);
}

#[test]
fn integers_take_the_shortest_form() {
    assert_eq!(aml_int(0), vec![0x00]);
    assert_eq!(aml_int(1), vec![0x01]);
    assert_eq!(aml_int(2), vec![0x0a, 2]);
    assert_eq!(aml_int(0xff), vec![0x0a, 0xff]);
    assert_eq!(aml_int(0x100), vec![0x0b, 0x00, 0x01]);
    assert_eq!(aml_int(0xffff), vec![0x0b, 0xff, 0xff]);
    assert_eq!(aml_int(0x1_0000), vec![0x0c, 0x00, 0x00, 0x01, 0x00]);
    assert_eq!(aml_int(0xffff_ffff), vec![0x0c, 0xff, 0xff, 0xff, 0xff]);
}

#[test]
fn objects_are_framed() {
    assert_eq!(aml_name_ref("COM1"), b"COM1".to_vec());
    assert_eq!(aml_string("AB"), vec![0x0d, b'A', b'B', 0]);
    assert_eq!(
        aml_name_decl("_UID", aml_int(1)),
        vec![0x08, b'_', b'U', b'I', b'D', 1]
    );
    assert_eq!(aml_pkg_op(&[0x10], vec![7, 8]), vec![0x10, 3, 7, 8]);
    assert_eq!(aml_scope("_SB_", vec![9]), vec![0x10, 6, b'_', b'S', b'B', b'_', 9]);
    assert_eq!(
        aml_device("COM1", vec![]),
        vec![0x5b, 0x82, 5, b'C', b'O', b'M', b'1']
    );
    assert_eq!(aml_buffer(&[5, 6]), vec![0x11, 5, 0x0a, 2, 5, 6]);
}

#[test]
fn resources_end_with_an_end_tag() {
    assert_eq!(
        fixed_io_resource(0x3f8, 8),
        vec![0x47, 0x01, 0xf8, 0x03, 0xf8, 0x03, 0x01, 0x08]
    );
    assert_eq!(irq_resource(4), vec![0x22, 0x10, 0x00]);
    assert_eq!(irq_resource(15), vec![0x22, 0x00, 0x80]);
    let template = aml_resource_template(&[irq_resource(4)]);
    assert_eq!(template, vec![0x11, 8, 0x0a, 5, 0x22, 0x10, 0x00, 0x79, 0x00]);
}

#[test]
fn numbers_are_little_endian() {
    let mut out = Vec::new();
    push_u16(&mut out, 0x0102);
    push_u32(&mut out, 0x0304_0506);
    push_u64(&mut out, 0x0708_090a_0b0c_0d0e);
    assert_eq!(out, [2, 1, 6, 5, 4, 3, 0xe, 0xd, 0xc, 0xb, 0xa, 9, 8, 7]);
    write_u16(&mut out, 0, 0xaabb);
    write_u32(&mut out, 2, 0xccdd_eeff);
    write_u64(&mut out, 6, 1);
    assert_eq!(
        out,
        [0xbb, 0xaa, 0xff, 0xee, 0xdd, 0xcc, 1, 0, 0, 0, 0, 0, 0, 0]
    );
}

#[test]
fn checksum_balances_the_bytes() {
    assert_eq!(checksum(&[]), 0);
    assert_eq!(checksum(&[1, 2, 3]), 250);
    assert_eq!(checksum(&[0xff, 0x01]), 0);
}
