//! From a user configuration to a VM configuration.

use axvisor_x86::error::VmError;
use axvisor_x86::guest::{begin_guest_init, init_guest_vm};
use axvisor_x86::irq::IrqRouteRequest;
use axvisor_x86::vm_config::{
    build_axvm_config, configured_bios_load_gpa, guest_boot_policy,
    sync_axvm_config_from_crate_config, vm_config_needs_host_filesystem_release, GuestBootPolicy,
    RamdiskInfo,
};
use axvm_types::{
    AddressSpacePolicy, EmulatedDeviceType, PassThroughAddressConfig, PassThroughDeviceConfig,
    PassThroughPortConfig, VMBootProtocol, VMInterruptMode, VMType,
};
use axvmconfig::{AxVMCrateConfig, VmMemConfig, VmMemMappingType};

const LINUX: &str = r#"
[base]
id = 7
name = "linux"
vm_type = 2
cpu_num = 2
phys_cpu_ids = [4, 5]
phys_cpu_sets = [1, 2]

[kernel]
entry_point = 0x200000
kernel_path = "/guest/bzImage"
kernel_load_addr = 0x100000
enable_bios = true
ramdisk_load_addr = 0x4000000
dtb_load_addr = 0x5000000
image_location = "fs"
memory_regions = [
    { gpa = 0, size = 0x100000, flags = 7, map_type = 0 },
    { gpa = 0x80000000, size = 0x200000, flags = 3, map_type = 1 },
]

[devices]
address_space_policy = "passthrough"
interrupt_mode = "passthrough"
emu_devices = [
    { name = "ioapic", base_gpa = 0xfec00000, length = 0x1000, irq_id = 1, emu_type = 0x23, cfg_list = [8, 9] },
]
passthrough_devices = [
    { name = "pci-intx:bus=0,dev=3,func=0,pin=1,root_dev=3,root_func=0,root_pin=1,msi_start=0x50", base_gpa = 1, base_hpa = 2, length = 3, irq_id = 11 },
]
excluded_devices = [["a", "b"], ["c"]]
passthrough_addresses = [{ base_gpa = 0xe0000000, length = 0x1000 }]
passthrough_ports = [{ base = 0xcf8, length = 8 }]
"#;

fn memory_region(gpa: usize, size: usize, map_type: VmMemMappingType) -> VmMemConfig {
    VmMemConfig {
        gpa,
        size,
        flags: 0x7,
        map_type,
    }
}

#[test]
fn sync_axvm_config_keeps_fdt_reserved_memory_regions() {
    let mut crate_config = AxVMCrateConfig::default();
    crate_config.kernel.memory_regions.push(memory_region(
        0x8000_0000,
        0x200000,
        VmMemMappingType::MapIdentical,
    ));
    let mut vm_config = build_axvm_config(&crate_config);

    crate_config.kernel.memory_regions.push(memory_region(
        0x110000,
        0x10000,
        VmMemMappingType::MapReserved,
    ));
    assert_eq!(vm_config.memory_regions().len(), 1);

    sync_axvm_config_from_crate_config(&mut vm_config, &crate_config);

    let regions = vm_config.memory_regions();
    assert_eq!(regions.len(), 2);
    assert_eq!(regions[1].gpa, 0x110000);
    assert_eq!(regions[1].size, 0x10000);
    assert_eq!(regions[1].map_type, VmMemMappingType::MapReserved);
}

#[test]
fn a_parsed_configuration_reaches_the_vm() {
    let init = init_guest_vm(LINUX).ok().unwrap();
    assert_eq!(init.crate_config().kernel.kernel_path, "/guest/bzImage");
    assert_eq!(init.crate_config().kernel.configured_memory_region_count, 2);
    let config = init.vm_config(true);

    assert_eq!(config.id, 7);
    assert_eq!(config.name, "linux");
    assert_eq!(config.vm_type, VMType::VMTLinux);
    assert_eq!(config.phys_cpu_ls.cpu_num, 2);
    assert_eq!(config.phys_cpu_ls.phys_cpu_ids, Some(vec![4, 5]));
    assert_eq!(config.phys_cpu_ls.phys_cpu_sets, Some(vec![1, 2]));
    assert_eq!(config.cpu_config.bsp_entry, 0x200000);
    assert_eq!(config.cpu_config.ap_entry, 0x200000);
    assert_eq!(config.image_config.kernel_load_gpa, 0x100000);
    assert!(config.image_config.loaded_from_filesystem);
    assert_eq!(config.image_config.bios_load_gpa, Some(0x8000));
    assert_eq!(config.image_config.dtb_load_gpa, Some(0x5000000));
    assert_eq!(
        config.image_config.ramdisk,
        Some(RamdiskInfo {
            load_gpa: 0x4000000,
            size: None,
        })
    );
    assert_eq!(config.address_space_policy, AddressSpacePolicy::Passthrough);
    assert_eq!(config.interrupt_mode, VMInterruptMode::Passthrough);
    assert_eq!(config.boot_policy, GuestBootPolicy::KeepConfigured);
    assert!(config.reserved_address_ranges.is_empty());
}

#[test]
fn a_parsed_configuration_keeps_its_lists() {
    let init = init_guest_vm(LINUX).ok().unwrap();
    let config = init.vm_config(false);

    assert_eq!(config.memory_regions().len(), 2);
    assert_eq!(config.memory_regions()[0].map_type, VmMemMappingType::MapAlloc);
    assert_eq!(config.memory_regions()[1].gpa, 0x8000_0000);
    assert_eq!(config.memory_regions()[1].flags, 3);
    assert_eq!(config.memory_regions()[1].map_type, VmMemMappingType::MapIdentical);
    assert_eq!(config.emu_devices.len(), 1);
    assert_eq!(config.emu_devices[0].name, "ioapic");
    assert_eq!(config.emu_devices[0].emu_type, EmulatedDeviceType::X86IoApic);
    assert_eq!(config.emu_devices[0].cfg_list, vec![8, 9]);
    assert_eq!(config.pass_through_devices.len(), 1);
    assert_eq!(config.pass_through_devices[0].base_hpa, 2);
    assert_eq!(config.pass_through_devices[0].irq_id, 11);
    assert_eq!(config.excluded_devices, vec![vec!["a", "b"], vec!["c"]]);
    assert_eq!(
        config.pass_through_addresses,
        vec![PassThroughAddressConfig {
            base_gpa: 0xe000_0000,
            length: 0x1000,
        }]
    );
    assert_eq!(
        config.pass_through_ports,
        vec![PassThroughPortConfig {
            base: 0xcf8,
            length: 8,
        }]
    );
    assert_eq!(
        config.boot_policy,
        GuestBootPolicy::AdjustKernelForBootProtocol {
            protocol: VMBootProtocol::Multiboot,
        }
    );
    assert_eq!(init.irq_routes().len(), 2);
    assert_eq!(
        init.irq_routes()[1],
        IrqRouteRequest::Msi {
            start: 0x50,
            end: 0x50,
        }
    );
}

#[test]
fn texts_that_are_no_configuration_are_refused() {
    assert_eq!(init_guest_vm("").err(), Some(VmError::InvalidData));
    assert_eq!(init_guest_vm("[base]\nid = 1").err(), Some(VmError::InvalidData));
    let bad_port = LINUX.replace("length = 8 }", "length = 0 }");
    assert_eq!(init_guest_vm(&bad_port).err(), Some(VmError::InvalidData));
    let direct_with_bios = LINUX.replace("enable_bios = true", "enable_bios = true\nboot_protocol = \"direct\"");
    assert_eq!(init_guest_vm(&direct_with_bios).err(), Some(VmError::InvalidData));
    assert_eq!(
        begin_guest_init(Err(ax_errno::AxError::InvalidInput)).err(),
        Some(VmError::InvalidData)
    );
}

#[test]
fn vm_types_have_numbers() {
    let mut config = AxVMCrateConfig::default();
    for (number, vm_type) in [
        (0, VMType::VMTHostVM),
        (1, VMType::VMTRTOS),
        (2, VMType::VMTLinux),
        (3, VMType::VMTRTOS),
        (usize::MAX, VMType::VMTRTOS),
    ] {
        config.base.vm_type = number;
        assert_eq!(build_axvm_config(&config).vm_type, vm_type);
    }
}

#[test]
fn the_built_in_bios_has_a_default_place() {
    let mut config = AxVMCrateConfig::default();
    config.kernel.bios_load_addr = Some(0x9000);
    assert_eq!(configured_bios_load_gpa(&config), None);
    config.kernel.enable_bios = true;
    assert_eq!(configured_bios_load_gpa(&config), Some(0x9000));
    config.kernel.bios_load_addr = None;
    assert_eq!(configured_bios_load_gpa(&config), Some(0x8000));
    config.kernel.bios_path = Some("bios.bin".to_string());
    assert_eq!(configured_bios_load_gpa(&config), None);
    config.kernel.bios_path = None;
    config.kernel.boot_protocol = Some(VMBootProtocol::Uefi);
    assert_eq!(configured_bios_load_gpa(&config), None);
    config.kernel.boot_protocol = Some(VMBootProtocol::Multiboot);
    config.kernel.uefi_firmware_path = Some("uefi.fd".to_string());
    assert_eq!(configured_bios_load_gpa(&config), Some(0x8000));
}

#[test]
fn the_boot_policy_follows_the_protocol() {
    let mut config = AxVMCrateConfig::default();
    assert_eq!(
        guest_boot_policy(&config, false),
        GuestBootPolicy::AdjustKernelForBootProtocol {
            protocol: VMBootProtocol::Direct,
        }
    );
    assert_eq!(guest_boot_policy(&config, true), GuestBootPolicy::KeepConfigured);
    config.kernel.boot_protocol = Some(VMBootProtocol::Uefi);
    assert_eq!(
        guest_boot_policy(&config, false),
        GuestBootPolicy::AdjustKernelForBootProtocol {
            protocol: VMBootProtocol::Uefi,
        }
    );
}

#[test]
fn the_filesystem_is_released_for_passed_through_hardware() {
    let mut config = AxVMCrateConfig::default();
    config.kernel.image_location = Some("fs".to_string());
    assert!(!vm_config_needs_host_filesystem_release(&config));
    config.devices.passthrough_ports.push(PassThroughPortConfig::default());
    assert!(vm_config_needs_host_filesystem_release(&config));
    config.devices.passthrough_ports.clear();
    config
        .devices
        .passthrough_devices
        .push(PassThroughDeviceConfig::default());
    assert!(vm_config_needs_host_filesystem_release(&config));
    config.kernel.image_location = Some("memory".to_string());
    assert!(!vm_config_needs_host_filesystem_release(&config));
    config.kernel.image_location = None;
    assert!(!vm_config_needs_host_filesystem_release(&config));
    config.devices.passthrough_devices.clear();
    config.kernel.image_location = Some("fs".to_string());
    config
        .devices
        .passthrough_addresses
        .push(PassThroughAddressConfig::default());
    assert!(vm_config_needs_host_filesystem_release(&config));
}

#[test]
fn a_fresh_vm_configuration_is_in_sync() {
    let init = init_guest_vm(LINUX).ok().unwrap();
    let mut config = build_axvm_config(init.crate_config());
    sync_axvm_config_from_crate_config(&mut config, init.crate_config());
    assert_eq!(config.memory_regions().len(), 2);
    assert_eq!(config.id, 7);
    assert_eq!(config.boot_policy, GuestBootPolicy::KeepConfigured);
}
