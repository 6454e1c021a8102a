//! The names of passed-through devices.

use axvisor_x86::intx::{
    parse_msi_vector_range, parse_pci_intx_bdfs, parse_u8_config_value, parse_x86_pci_intx_spec,
    PciBdf, X86PciIntxSpec,
};
use axvisor_x86::text::is_white_space;

const FULL: &str = "pci-intx:bus=1,dev=2,func=3,pin=4,root_dev=5,root_func=6,root_pin=7";

#[test]
fn white_space_is_that_of_unicode() {
    for code in 0..=0x10_ffffu32 {
        if let Some(c) = char::from_u32(code) {
            assert_eq!(is_white_space(c), c.is_whitespace(), "{code:#x}");
        }
    }
}

#[test]
fn values_are_decimal_or_hexadecimal_bytes() {
    assert_eq!(parse_u8_config_value("0"), Some(0));
    assert_eq!(parse_u8_config_value("255"), Some(255));
    assert_eq!(parse_u8_config_value("256"), None);
    assert_eq!(parse_u8_config_value("000007"), Some(7));
    assert_eq!(parse_u8_config_value("99999999999999999999"), None);
    assert_eq!(parse_u8_config_value("0x1f"), Some(0x1f));
    assert_eq!(parse_u8_config_value("0XfF"), Some(0xff));
    assert_eq!(parse_u8_config_value("0x100"), None);
    assert_eq!(parse_u8_config_value(" \t12\u{a0}"), Some(12));
    assert_eq!(parse_u8_config_value("\u{3000}0x0A\n"), Some(10));
}

#[test]
fn values_that_are_no_bytes_are_refused() {
    for value in ["", " ", "+", "-", "-1", "0x", "0x+", "1 2", "1_0", "ff", "0xg", "++1"] {
        assert_eq!(parse_u8_config_value(value), None, "{value:?}");
    }
}

#[test]
fn values_agree_with_the_standard_parser() {
    let pieces = ["", "0", "1", "9", "a", "F", "+", "-", "25", "255", "256", " ", "_"];
    for first in pieces {
        for second in pieces {
            for third in pieces {
                let text = format!("{first}{second}{third}");
                assert_eq!(
                    parse_u8_config_value(&text),
                    text.trim().parse::<u8>().ok(),
                    "{text:?}"
                );
                let hex = format!("0x{text}");
                assert_eq!(
                    parse_u8_config_value(&hex),
                    u8::from_str_radix(text.trim_end(), 16).ok(),
                    "{hex:?}"
                );
            }
        }
    }
}

#[test]
fn a_full_name_describes_all_pins() {
    assert_eq!(
        parse_x86_pci_intx_spec(FULL),
        Some(X86PciIntxSpec {
            bus: 1,
            dev: 2,
            func: 3,
            pin: 4,
            root_dev: 5,
            root_func: 6,
            root_pin: 7,
        })
    );
    assert_eq!(
        parse_pci_intx_bdfs(FULL),
        Some((PciBdf::new(1, 2, 3), PciBdf::new(0, 5, 6)))
    );
}

#[test]
fn long_keys_and_blanks_are_accepted() {
    let name = "pci-intx: bus = 1 , device=0x2,function=3,pin=4,root_device=5,root_function=6,root_pin=7";
    assert_eq!(parse_x86_pci_intx_spec(name), parse_x86_pci_intx_spec(FULL));
}

#[test]
fn every_pin_is_needed() {
    for missing in ["bus=1,", "dev=2,", "func=3,", "pin=4,", "root_dev=5,", "root_func=6,"] {
        let name = FULL.replacen(missing, "", 1);
        assert_eq!(parse_x86_pci_intx_spec(&name), None, "{name}");
    }
    assert_eq!(parse_x86_pci_intx_spec(&FULL.replace(",root_pin=7", "")), None);
    assert_eq!(parse_x86_pci_intx_spec(&FULL.replace("pci-intx:", "pci-msi:")), None);
    assert_eq!(parse_x86_pci_intx_spec("pci-intx"), None);
    assert_eq!(parse_x86_pci_intx_spec(""), None);
}

#[test]
fn the_root_function_is_zero_by_default() {
    assert_eq!(
        parse_pci_intx_bdfs("pci-intx:bus=0,dev=3,func=1,root_dev=3"),
        Some((PciBdf::new(0, 3, 1), PciBdf::new(0, 3, 0)))
    );
    assert_eq!(parse_pci_intx_bdfs("pci-intx:bus=0,dev=3,func=1"), None);
    assert_eq!(parse_pci_intx_bdfs("pci-msi:bus=0,dev=3,func=1,root_dev=3"), None);
}

#[test]
fn malformed_fields_change_nothing() {
    for field in ["", "bus", "bus=x", "=5", "speed=5", "dev==3", "root_pin=300"] {
        let name = format!("{FULL},{field}");
        assert_eq!(parse_x86_pci_intx_spec(&name), parse_x86_pci_intx_spec(FULL), "{name}");
        assert_eq!(parse_pci_intx_bdfs(&name), parse_pci_intx_bdfs(FULL), "{name}");
    }
}

#[test]
fn the_last_valid_value_counts() {
    let name = format!("{FULL},dev=9,device=0x0b,dev=oops");
    assert_eq!(parse_x86_pci_intx_spec(&name).unwrap().dev, 11);
}

#[test]
fn vectors_come_as_a_range() {
    assert_eq!(
        parse_msi_vector_range("pci-msi:msi_start=0x40,msi_end=0x47"),
        Some((0x40, 0x47))
    );
    assert_eq!(
        parse_msi_vector_range("pci-intx:bus=1,vector_start=64,vector_end=71"),
        Some((64, 71))
    );
    assert_eq!(parse_msi_vector_range("pci-msi:msi_start=64"), Some((64, 64)));
    assert_eq!(parse_msi_vector_range("pci-msi:vector_end=65"), Some((65, 65)));
    assert_eq!(parse_msi_vector_range("pci-msi:msi_end=1,msi_start=2"), Some((2, 1)));
    assert_eq!(parse_msi_vector_range("pci-msi:bus=1"), None);
    assert_eq!(parse_msi_vector_range("msi_start=64"), None);
}

#[test]
fn one_invalid_value_voids_the_vectors() {
    assert_eq!(parse_msi_vector_range("pci-msi:msi_start=64,speed=fast"), None);
    assert_eq!(parse_msi_vector_range("pci-msi:bus=,msi_start=64"), None);
    assert_eq!(parse_msi_vector_range("pci-msi:msi_start=64,fast"), Some((64, 64)));
}
