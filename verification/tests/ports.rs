//! Passed-through I/O ports.

use axvisor_x86::error::VmError;
use axvisor_x86::intx::PciBdf;
use axvisor_x86::pci_config::{
    is_pci_config_port_range, pci_config_address_access, push_unique_bdf,
    HostPciConfigPortPassthrough,
};
use axvisor_x86::port::{
    read_host_port, width_bytes, width_mask, write_host_port, HostPortPassthrough, PortData,
    PortIn, PortOut, PortRange, PortRead, PortWidth,
};
use axvm_types::{AccessWidth, EmulatedDeviceType, PassThroughDeviceConfig, Port};

fn named(name: &str) -> PassThroughDeviceConfig {
    PassThroughDeviceConfig {
        name: name.to_string(),
        ..PassThroughDeviceConfig::default()
    }
}

fn filter() -> HostPciConfigPortPassthrough {
    let devices = [named("pci-intx:bus=1,dev=2,func=3,root_dev=4")];
    HostPciConfigPortPassthrough::new(&devices).ok().unwrap()
}

fn select(device: &mut HostPciConfigPortPassthrough, bdf: PciBdf) {
    let value = 0x8000_0000
        | (bdf.bus as usize) << 16
        | (bdf.device as usize) << 11
        | (bdf.function as usize) << 8;
    assert_eq!(
        device.handle_write(Port::new(0xcf8), AccessWidth::Dword, value),
        Ok(Some(PortOut {
            port: 0xcf8,
            data: PortData::Dword(value as u32),
        }))
    );
}

#[test]
fn passthrough_port_range_is_inclusive() {
    let dev = HostPortPassthrough::new(0x6000, 0x80).unwrap();

    assert_eq!(
        dev.address_range(),
        PortRange::new(Port::new(0x6000), Port::new(0x607f))
    );
}

#[test]
fn passthrough_port_range_rejects_empty_and_overflowing_ranges() {
    assert!(HostPortPassthrough::new(0x6000, 0).is_err());
    assert!(HostPortPassthrough::new(0xfff0, 0x20).is_err());
}

#[test]
fn passthrough_port_rejects_qword_without_touching_hardware() {
    let dev = HostPortPassthrough::new(0x6000, 0x80).unwrap();

    assert!(dev
        .handle_read(Port::new(0x6000), AccessWidth::Qword)
        .is_err());
    assert!(dev
        .handle_write(Port::new(0x6000), AccessWidth::Qword, 0)
        .is_err());
}

#[test]
fn port_errors_say_what_is_wrong() {
    assert_eq!(HostPortPassthrough::new(1, 0).err(), Some(VmError::InvalidInput));
    assert_eq!(HostPortPassthrough::new(2, 0xffff).err(), Some(VmError::InvalidInput));
    assert_eq!(
        read_host_port(Port::new(0), AccessWidth::Qword),
        Err(VmError::Unsupported)
    );
    assert_eq!(
        write_host_port(Port::new(0), AccessWidth::Qword, 5),
        Err(VmError::Unsupported)
    );
}

#[test]
fn ranges_may_reach_the_last_port() {
    let dev = HostPortPassthrough::new(0xfff0, 0x10).ok().unwrap();
    assert_eq!(dev.end(), Port::new(0xffff));
    assert_eq!(dev.emu_type(), EmulatedDeviceType::Dummy);
    let dev = HostPortPassthrough::new(0xffff, 1).ok().unwrap();
    assert_eq!(
        dev.address_range(),
        PortRange::new(Port::new(0xffff), Port::new(0xffff))
    );
}

#[test]
fn accesses_keep_port_and_width() {
    let dev = HostPortPassthrough::new(0x6000, 0x80).unwrap();
    assert_eq!(
        dev.handle_read(Port::new(0x6004), AccessWidth::Word),
        Ok(PortIn {
            port: 0x6004,
            width: PortWidth::Word,
        })
    );
    for (width, data) in [
        (AccessWidth::Byte, PortData::Byte(0x44)),
        (AccessWidth::Word, PortData::Word(0x3344)),
        (AccessWidth::Dword, PortData::Dword(0x1122_3344)),
    ] {
        assert_eq!(
            dev.handle_write(Port::new(0x6001), width, 0x55_1122_3344),
            Ok(PortOut { port: 0x6001, data })
        );
    }
}

#[test]
fn data_is_widened_without_a_sign() {
    assert_eq!(PortData::Byte(0xff).widen(), 0xff);
    assert_eq!(PortData::Word(0x8001).widen(), 0x8001);
    assert_eq!(PortData::Dword(0xffff_fffe).widen(), 0xffff_fffe);
}

#[test]
fn widths_have_sizes_and_masks() {
    assert_eq!(width_bytes(AccessWidth::Byte), 1);
    assert_eq!(width_bytes(AccessWidth::Word), 2);
    assert_eq!(width_bytes(AccessWidth::Dword), 4);
    assert_eq!(width_bytes(AccessWidth::Qword), 8);
    assert_eq!(width_mask(AccessWidth::Byte), 0xff);
    assert_eq!(width_mask(AccessWidth::Word), 0xffff);
    assert_eq!(width_mask(AccessWidth::Dword), 0xffff_ffff);
    assert_eq!(width_mask(AccessWidth::Qword), usize::MAX);
}

#[test]
fn the_configuration_window_is_exact() {
    assert!(is_pci_config_port_range(0xcf8, 8));
    assert!(!is_pci_config_port_range(0xcf8, 4));
    assert!(!is_pci_config_port_range(0xcfc, 8));
    let range = filter().address_range();
    assert_eq!(range, PortRange::new(Port::new(0xcf8), Port::new(0xcff)));
    assert_eq!(filter().emu_type(), EmulatedDeviceType::Dummy);
}

#[test]
fn address_accesses_stay_in_the_register() {
    assert!(pci_config_address_access(0xcf8, AccessWidth::Dword));
    assert!(pci_config_address_access(0xcfa, AccessWidth::Word));
    assert!(pci_config_address_access(0xcfb, AccessWidth::Byte));
    assert!(!pci_config_address_access(0xcfb, AccessWidth::Word));
    assert!(!pci_config_address_access(0xcf9, AccessWidth::Dword));
    assert!(!pci_config_address_access(0xcf8, AccessWidth::Qword));
    assert!(!pci_config_address_access(0xcf7, AccessWidth::Byte));
    assert!(!pci_config_address_access(0xcfc, AccessWidth::Byte));
}

#[test]
fn a_filter_needs_a_device() {
    assert_eq!(
        HostPciConfigPortPassthrough::new(&[]).err(),
        Some(VmError::InvalidInput)
    );
    assert_eq!(
        HostPciConfigPortPassthrough::new(&[named("uart")]).err(),
        Some(VmError::InvalidInput)
    );
}

#[test]
fn functions_are_listed_once() {
    let mut bdfs = Vec::new();
    push_unique_bdf(&mut bdfs, PciBdf::new(0, 1, 0));
    push_unique_bdf(&mut bdfs, PciBdf::new(0, 2, 0));
    push_unique_bdf(&mut bdfs, PciBdf::new(0, 1, 0));
    assert_eq!(bdfs, vec![PciBdf::new(0, 1, 0), PciBdf::new(0, 2, 0)]);
}

#[test]
fn nothing_is_selected_before_it_is_enabled() {
    let mut device = filter();
    assert_eq!(device.selected_bdf(), None);
    let disabled = 0x0001_1300;
    device
        .handle_write(Port::new(0xcf8), AccessWidth::Dword, disabled)
        .unwrap();
    assert_eq!(device.selected_bdf(), None);
    assert!(!device.selected_bdf_allowed());
}

#[test]
fn selected_functions_are_decoded() {
    let mut device = filter();
    for bdf in [
        PciBdf::new(0, 0, 0),
        PciBdf::new(1, 2, 3),
        PciBdf::new(255, 31, 7),
        PciBdf::new(0, 4, 0),
    ] {
        select(&mut device, bdf);
        assert_eq!(device.selected_bdf(), Some(bdf));
        let allowed = bdf == PciBdf::new(1, 2, 3) || bdf == PciBdf::new(0, 4, 0);
        assert_eq!(device.selected_bdf_allowed(), allowed);
    }
}

#[test]
fn address_bytes_are_written_one_by_one() {
    let mut device = filter();
    let mut register = 0u32;
    for (port, width, value) in [
        (0xcf8, AccessWidth::Byte, 0x11usize),
        (0xcf9, AccessWidth::Byte, 0x122),
        (0xcfa, AccessWidth::Byte, 0x33),
        (0xcfb, AccessWidth::Byte, 0x44),
        (0xcf8, AccessWidth::Word, 0x1_5566),
        (0xcf9, AccessWidth::Word, 0x7788),
        (0xcfa, AccessWidth::Word, 0x99aa),
        (0xcf8, AccessWidth::Dword, 0xbbcc_ddee),
    ] {
        let shift = (port - 0xcf8) as u32 * 8;
        let mask = width_mask(width) as u32;
        register = (register & !(mask << shift)) | ((value as u32 & mask) << shift);
        assert_eq!(
            device.handle_write(Port::new(port), width, value),
            Ok(Some(PortOut {
                port: 0xcf8,
                data: PortData::Dword(register),
            }))
        );
        assert_eq!(
            device.handle_read(Port::new(port), width),
            Ok(PortRead::Value(value & width_mask(width)))
        );
        assert_eq!(
            device.handle_read(Port::new(0xcf8), AccessWidth::Dword),
            Ok(PortRead::Value(register as usize))
        );
    }
}

#[test]
fn passed_through_functions_are_reached() {
    let mut device = filter();
    select(&mut device, PciBdf::new(1, 2, 3));
    assert_eq!(
        device.handle_read(Port::new(0xcfe), AccessWidth::Word),
        Ok(PortRead::Host(PortIn {
            port: 0xcfe,
            width: PortWidth::Word,
        }))
    );
    assert_eq!(
        device.handle_write(Port::new(0xcff), AccessWidth::Byte, 0x1234),
        Ok(Some(PortOut {
            port: 0xcff,
            data: PortData::Byte(0x34),
        }))
    );
    assert_eq!(
        device.handle_read(Port::new(0xcfc), AccessWidth::Qword),
        Err(VmError::Unsupported)
    );
    assert_eq!(
        device.handle_write(Port::new(0xcfc), AccessWidth::Qword, 0),
        Err(VmError::Unsupported)
    );
}

#[test]
fn other_functions_look_absent() {
    let mut device = filter();
    select(&mut device, PciBdf::new(1, 2, 4));
    assert_eq!(
        device.handle_read(Port::new(0xcfc), AccessWidth::Dword),
        Ok(PortRead::Value(0xffff_ffff))
    );
    assert_eq!(
        device.handle_read(Port::new(0xcfd), AccessWidth::Byte),
        Ok(PortRead::Value(0xff))
    );
    assert_eq!(
        device.handle_read(Port::new(0xcfc), AccessWidth::Qword),
        Ok(PortRead::Value(usize::MAX))
    );
    assert_eq!(
        device.handle_write(Port::new(0xcfc), AccessWidth::Dword, 1),
        Ok(None)
    );
}

#[test]
fn ports_outside_the_window_are_refused() {
    let mut device = filter();
    for (port, width) in [
        (0xcf7, AccessWidth::Byte),
        (0xd00, AccessWidth::Byte),
        (0xcfb, AccessWidth::Word),
        (0xcf8, AccessWidth::Qword),
    ] {
        assert_eq!(
            device.handle_read(Port::new(port), width),
            Err(VmError::InvalidInput)
        );
        assert_eq!(
            device.handle_write(Port::new(port), width, 0),
            Err(VmError::InvalidInput)
        );
    }
}
