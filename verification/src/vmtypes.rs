//! What the proofs know of the VM configuration crates.
//!
//! `axvmconfig` and `axvm-types` hold the configuration of a guest as plain structs with public
//! fields. The declarations here make those fields known to Verus as they are. The `*Model`
//! structs are their mathematical counterparts, in which texts and vectors are sequences.
//!
//! The functions of the two crates that the library calls are trusted here, each with what its
//! source shows.

use vstd::prelude::*;

use ax_errno::AxError;
use axvm_types::{
    AccessWidth, AddressSpacePolicy, EmulatedDeviceConfig, EmulatedDeviceType, InterruptTriggerMode,
    PassThroughAddressConfig, PassThroughDeviceConfig, PassThroughPortConfig, Port,
    ReservedAddressConfig, VMBootProtocol, VMInterruptMode, VMType, VmMemConfig, VmMemMappingType,
};
use axvmconfig::{AxVMCrateConfig, VMBaseConfig, VMDevicesConfig, VMKernelConfig};

verus! {

/// The width of a bus access.
#[verifier::external_type_specification]
pub struct ExAccessWidth(AccessWidth);

/// How guest physical address space is populated.
#[verifier::external_type_specification]
pub struct ExAddressSpacePolicy(AddressSpacePolicy);

/// The configuration of an emulated device.
#[verifier::external_type_specification]
pub struct ExEmulatedDeviceConfig(EmulatedDeviceConfig);

/// The type of an emulated device.
#[verifier::external_type_specification]
pub struct ExEmulatedDeviceType(EmulatedDeviceType);

/// How an interrupt is triggered.
#[verifier::external_type_specification]
pub struct ExInterruptTriggerMode(InterruptTriggerMode);

/// A passed-through address range.
#[verifier::external_type_specification]
pub struct ExPassThroughAddressConfig(PassThroughAddressConfig);

/// A passed-through device.
#[verifier::external_type_specification]
pub struct ExPassThroughDeviceConfig(PassThroughDeviceConfig);

/// A passed-through range of I/O ports.
#[verifier::external_type_specification]
pub struct ExPassThroughPortConfig(PassThroughPortConfig);

/// The number of an I/O port.
#[verifier::external_type_specification]
pub struct ExPort(Port);

/// A range of guest addresses that nothing is passed through to.
#[verifier::external_type_specification]
pub struct ExReservedAddressConfig(ReservedAddressConfig);

/// How a guest enters its boot image.
#[verifier::external_type_specification]
pub struct ExVMBootProtocol(VMBootProtocol);

/// How a VM handles interrupts.
#[verifier::external_type_specification]
pub struct ExVMInterruptMode(VMInterruptMode);

/// What a guest is.
#[verifier::external_type_specification]
pub struct ExVMType(VMType);

/// A memory region of a guest.
#[verifier::external_type_specification]
pub struct ExVmMemConfig(VmMemConfig);

/// How a memory region is mapped.
#[verifier::external_type_specification]
pub struct ExVmMemMappingType(VmMemMappingType);

/// The identity and the processors of a guest.
#[verifier::external_type_specification]
pub struct ExVMBaseConfig(VMBaseConfig);

/// The images and the memory of a guest.
#[verifier::external_type_specification]
pub struct ExVMKernelConfig(VMKernelConfig);

/// The devices of a guest.
#[verifier::external_type_specification]
pub struct ExVMDevicesConfig(VMDevicesConfig);

/// The whole configuration of a guest.
#[verifier::external_type_specification]
pub struct ExAxVMCrateConfig(AxVMCrateConfig);

/// An error of the host's kernel, which the library only carries.
#[verifier::external_type_specification]
#[verifier::external_body]
pub struct ExAxError(AxError);

/// The model of an optional text.
pub open spec fn text_model(text: Option<String>) -> Option<Seq<char>> {
    match text {
        Some(text) => Some(text@),
        None => None,
    }
}

/// The model of an optional list of numbers.
pub open spec fn list_model(list: Option<Vec<usize>>) -> Option<Seq<usize>> {
    match list {
        Some(list) => Some(list@),
        None => None,
    }
}

/// The model of a list of lists of names.
pub open spec fn names_model(lists: Seq<Vec<String>>) -> Seq<Seq<Seq<char>>> {
    lists.map_values(|list: Vec<String>| list@.map_values(|name: String| name@))
}

/// The model of [`EmulatedDeviceConfig`].
#[verifier::ext_equal]
pub struct EmulatedDeviceModel {
    pub name: Seq<char>,
    pub base_gpa: usize,
    pub length: usize,
    pub irq_id: usize,
    pub emu_type: EmulatedDeviceType,
    pub cfg_list: Seq<usize>,
}

/// The model of an emulated device.
pub open spec fn emulated_device_model(device: EmulatedDeviceConfig) -> EmulatedDeviceModel {
    EmulatedDeviceModel {
        name: device.name@,
        base_gpa: device.base_gpa,
        length: device.length,
        irq_id: device.irq_id,
        emu_type: device.emu_type,
        cfg_list: device.cfg_list@,
    }
}

/// The model of emulated devices.
pub open spec fn emulated_devices_model(devices: Seq<EmulatedDeviceConfig>) -> Seq<
    EmulatedDeviceModel,
> {
    devices.map_values(|device: EmulatedDeviceConfig| emulated_device_model(device))
}

/// The model of [`PassThroughDeviceConfig`].
#[verifier::ext_equal]
pub struct PassThroughDeviceModel {
    pub name: Seq<char>,
    pub base_gpa: usize,
    pub base_hpa: usize,
    pub length: usize,
    pub irq_id: usize,
}

/// The model of a passed-through device.
pub open spec fn passthrough_device_model(
    device: PassThroughDeviceConfig,
) -> PassThroughDeviceModel {
    PassThroughDeviceModel {
        name: device.name@,
        base_gpa: device.base_gpa,
        base_hpa: device.base_hpa,
        length: device.length,
        irq_id: device.irq_id,
    }
}

/// The model of passed-through devices.
pub open spec fn passthrough_devices_model(devices: Seq<PassThroughDeviceConfig>) -> Seq<
    PassThroughDeviceModel,
> {
    devices.map_values(|device: PassThroughDeviceConfig| passthrough_device_model(device))
}

/// The model of [`VMBaseConfig`].
#[verifier::ext_equal]
pub struct BaseModel {
    pub id: usize,
    pub name: Seq<char>,
    pub vm_type: usize,
    pub cpu_num: usize,
    pub phys_cpu_ids: Option<Seq<usize>>,
    pub phys_cpu_sets: Option<Seq<usize>>,
}

/// The model of [`VMKernelConfig`].
#[verifier::ext_equal]
pub struct KernelModel {
    pub entry_point: usize,
    pub kernel_path: Seq<char>,
    pub kernel_load_addr: usize,
    pub enable_bios: bool,
    pub boot_protocol: Option<VMBootProtocol>,
    pub bios_path: Option<Seq<char>>,
    pub uefi_firmware_path: Option<Seq<char>>,
    pub bios_load_addr: Option<usize>,
    pub dtb_path: Option<Seq<char>>,
    pub dtb_load_addr: Option<usize>,
    pub ramdisk_path: Option<Seq<char>>,
    pub ramdisk_load_addr: Option<usize>,
    pub image_location: Option<Seq<char>>,
    pub cmdline: Option<Seq<char>>,
    pub disk_path: Option<Seq<char>>,
    pub memory_regions: Seq<VmMemConfig>,
    pub configured_memory_region_count: usize,
}

/// The model of [`VMDevicesConfig`].
#[verifier::ext_equal]
pub struct DevicesModel {
    pub address_space_policy: AddressSpacePolicy,
    pub emu_devices: Seq<EmulatedDeviceModel>,
    pub passthrough_devices: Seq<PassThroughDeviceModel>,
    pub interrupt_mode: VMInterruptMode,
    pub excluded_devices: Seq<Seq<Seq<char>>>,
    pub passthrough_addresses: Seq<PassThroughAddressConfig>,
    pub passthrough_ports: Seq<PassThroughPortConfig>,
}

/// The model of [`AxVMCrateConfig`].
#[verifier::ext_equal]
pub struct ConfigModel {
    pub base: BaseModel,
    pub kernel: KernelModel,
    pub devices: DevicesModel,
}

/// The model of the identity and the processors of a guest.
pub open spec fn base_model(base: VMBaseConfig) -> BaseModel {
    BaseModel {
        id: base.id,
        name: base.name@,
        vm_type: base.vm_type,
        cpu_num: base.cpu_num,
        phys_cpu_ids: list_model(base.phys_cpu_ids),
        phys_cpu_sets: list_model(base.phys_cpu_sets),
    }
}

/// The model of the images and the memory of a guest.
pub open spec fn kernel_model(kernel: VMKernelConfig) -> KernelModel {
    KernelModel {
        entry_point: kernel.entry_point,
        kernel_path: kernel.kernel_path@,
        kernel_load_addr: kernel.kernel_load_addr,
        enable_bios: kernel.enable_bios,
        boot_protocol: kernel.boot_protocol,
        bios_path: text_model(kernel.bios_path),
        uefi_firmware_path: text_model(kernel.uefi_firmware_path),
        bios_load_addr: kernel.bios_load_addr,
        dtb_path: text_model(kernel.dtb_path),
        dtb_load_addr: kernel.dtb_load_addr,
        ramdisk_path: text_model(kernel.ramdisk_path),
        ramdisk_load_addr: kernel.ramdisk_load_addr,
        image_location: text_model(kernel.image_location),
        cmdline: text_model(kernel.cmdline),
        disk_path: text_model(kernel.disk_path),
        memory_regions: kernel.memory_regions@,
        configured_memory_region_count: kernel.configured_memory_region_count,
    }
}

/// The model of the devices of a guest.
pub open spec fn devices_model(devices: VMDevicesConfig) -> DevicesModel {
    DevicesModel {
        address_space_policy: devices.address_space_policy,
        emu_devices: emulated_devices_model(devices.emu_devices@),
        passthrough_devices: passthrough_devices_model(devices.passthrough_devices@),
        interrupt_mode: devices.interrupt_mode,
        excluded_devices: names_model(devices.excluded_devices@),
        passthrough_addresses: devices.passthrough_addresses@,
        passthrough_ports: devices.passthrough_ports@,
    }
}

/// The model of the whole configuration of a guest.
pub open spec fn config_model(config: AxVMCrateConfig) -> ConfigModel {
    ConfigModel {
        base: base_model(config.base),
        kernel: kernel_model(config.kernel),
        devices: devices_model(config.devices),
    }
}

/// The boot protocol of a guest: the configured one, else multiboot with a BIOS and direct boot
/// without.
pub open spec fn boot_protocol(kernel: KernelModel) -> VMBootProtocol {
    match kernel.boot_protocol {
        Some(protocol) => protocol,
        None => if kernel.enable_bios {
            VMBootProtocol::Multiboot
        } else {
            VMBootProtocol::Direct
        },
    }
}

/// The firmware image of a guest: the BIOS image, before which a UEFI guest prefers its UEFI image.
pub open spec fn firmware_path(kernel: KernelModel) -> Option<Seq<char>> {
    if boot_protocol(kernel) is Uefi && kernel.uefi_firmware_path is Some {
        kernel.uefi_firmware_path
    } else {
        kernel.bios_path
    }
}

/// What the type number of a guest stands for. Unknown numbers stand for an RTOS.
pub open spec fn vm_type_named(number: usize) -> VMType {
    if number == 0 {
        VMType::VMTHostVM
    } else if number == 2 {
        VMType::VMTLinux
    } else {
        VMType::VMTRTOS
    }
}

/// What a boot configuration has to supply to be accepted.
///
/// Without a BIOS the guest boots directly. With one it boots by multiboot or UEFI; UEFI needs a
/// firmware image and its load address, and a BIOS image given for multiboot needs a load address.
pub open spec fn boot_inputs_complete(kernel: KernelModel) -> bool {
    let protocol = boot_protocol(kernel);
    if kernel.enable_bios {
        &&& !(protocol is Direct)
        &&& protocol is Uefi ==> firmware_path(kernel) is Some && kernel.bios_load_addr is Some
        &&& protocol is Multiboot && kernel.bios_path is Some ==> kernel.bios_load_addr is Some
    } else {
        protocol is Direct
    }
}

/// Whether a range of I/O ports is not empty and stays below the end of the port space.
pub open spec fn port_range_fits(base: u16, length: u16) -> bool {
    length > 0 && base + (length - 1) <= u16::MAX
}

/// Whether every range of I/O ports fits.
pub open spec fn port_ranges_fit(ports: Seq<PassThroughPortConfig>) -> bool {
    forall|i: int| 0 <= i < ports.len() ==> port_range_fits((#[trigger] ports[i]).base, ports[i].length)
}

/// The configuration that [`AxVMCrateConfig::from_toml`] makes of a text, if it accepts the text.
///
/// The function belongs to builds for `x86_64`: other targets accept fewer boot protocols.
pub uninterp spec fn toml_config(text: Seq<char>) -> Option<ConfigModel>;

/// `AxVMCrateConfig::from_toml` parses a TOML text. In a build for `x86_64` the text alone decides
/// whether it is accepted and what configuration comes out.
///
/// Of an accepted configuration the contract also claims what the function checks itself: that
/// the boot inputs are complete, that every passed-through port range fits the port space, and
/// that the configured memory regions have been counted.
///
/// Which error comes with a refused text is left unsaid: an [`AxError`] is opaque here, and no
/// caller looks into it.
pub assume_specification[ AxVMCrateConfig::from_toml ](
    raw_cfg_str: &str,
) -> (config: Result<AxVMCrateConfig, AxError>)
    ensures
        config is Ok <==> toml_config(raw_cfg_str@) is Some,
        config matches Ok(config) ==> Some(config_model(config)) == toml_config(raw_cfg_str@),
        config matches Ok(config) ==> boot_inputs_complete(kernel_model(config.kernel)),
        config matches Ok(config) ==> port_ranges_fit(config.devices.passthrough_ports@),
        config matches Ok(config) ==> config.kernel.configured_memory_region_count
            == config.kernel.memory_regions@.len(),
;

/// `VMKernelConfig::effective_boot_protocol` returns [`boot_protocol`].
pub assume_specification[ VMKernelConfig::effective_boot_protocol ](
    kernel: &VMKernelConfig,
) -> (protocol: VMBootProtocol)
    ensures
        protocol == boot_protocol(kernel_model(*kernel)),
;

/// `VMKernelConfig::boot_firmware_path` returns [`firmware_path`].
pub assume_specification[ VMKernelConfig::boot_firmware_path ](
    kernel: &VMKernelConfig,
) -> (path: Option<&str>)
    ensures
        match (path, firmware_path(kernel_model(*kernel))) {
            (Some(path), Some(expected)) => path@ == expected,
            (None, None) => true,
            _ => false,
        },
;

/// `VMType::from` returns [`vm_type_named`].
#[verifier::external_body]
pub(crate) fn vm_type_of(number: usize) -> (vm_type: VMType)
    ensures
        vm_type == vm_type_named(number),
{
    VMType::from(number)
}

} // verus!
