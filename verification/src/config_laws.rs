//! What holds of VM configurations.

use vstd::prelude::*;

use axvm_types::{EmulatedDeviceConfig, PassThroughDeviceConfig, VMBootProtocol, VMType};
use axvmconfig::{AxVMCrateConfig, VMKernelConfig};

use crate::guest;
use crate::vm_config;
use crate::vm_config::{AxVMConfig, GuestBootPolicy, RamdiskInfo};
use crate::vmtypes;
use crate::vmtypes::{ConfigModel, KernelModel};

verus! {

/// The model of an emulated device keeps each of its fields.
pub proof fn emulated_devices_keep_their_fields(devices: Seq<EmulatedDeviceConfig>, at: int)
    requires
        0 <= at < devices.len(),
    ensures
        vmtypes::emulated_devices_model(devices).len() == devices.len(),
        ({
            let model = vmtypes::emulated_devices_model(devices)[at];
            &&& model.name == devices[at].name@
            &&& model.base_gpa == devices[at].base_gpa
            &&& model.length == devices[at].length
            &&& model.irq_id == devices[at].irq_id
            &&& model.emu_type == devices[at].emu_type
            &&& model.cfg_list == devices[at].cfg_list@
        }),
{
}

/// The model of a passed-through device keeps each of its fields.
pub proof fn passed_through_devices_keep_their_fields(
    devices: Seq<PassThroughDeviceConfig>,
    at: int,
)
    requires
        0 <= at < devices.len(),
    ensures
        vmtypes::passthrough_devices_model(devices).len() == devices.len(),
        ({
            let model = vmtypes::passthrough_devices_model(devices)[at];
            &&& model.name == devices[at].name@
            &&& model.base_gpa == devices[at].base_gpa
            &&& model.base_hpa == devices[at].base_hpa
            &&& model.length == devices[at].length
            &&& model.irq_id == devices[at].irq_id
        }),
{
}

/// The model of lists of names keeps every name at its place.
pub proof fn names_keep_their_places(lists: Seq<Vec<String>>, list: int, name: int)
    requires
        0 <= list < lists.len(),
        0 <= name < lists[list]@.len(),
    ensures
        vmtypes::names_model(lists).len() == lists.len(),
        vmtypes::names_model(lists)[list].len() == lists[list]@.len(),
        vmtypes::names_model(lists)[list][name] == lists[list]@[name]@,
{
}

/// The models of an optional text and of an optional list are there exactly if these are, and have
/// their contents.
pub proof fn optional_models_keep_their_contents(text: Option<String>, list: Option<Vec<usize>>)
    ensures
        vmtypes::text_model(text) is Some <==> text is Some,
        text matches Some(text) ==> vmtypes::text_model(Some(text)) == Some(text@),
        vmtypes::list_model(list) is Some <==> list is Some,
        list matches Some(list) ==> vmtypes::list_model(Some(list)) == Some(list@),
{
}

/// The model of a kernel section keeps each of its fields.
pub proof fn kernels_keep_their_fields(kernel: VMKernelConfig)
    ensures
        ({
            let model = vmtypes::kernel_model(kernel);
            &&& model.entry_point == kernel.entry_point
            &&& model.kernel_path == kernel.kernel_path@
            &&& model.kernel_load_addr == kernel.kernel_load_addr
            &&& model.enable_bios == kernel.enable_bios
            &&& model.boot_protocol == kernel.boot_protocol
            &&& model.bios_path == vmtypes::text_model(kernel.bios_path)
            &&& model.uefi_firmware_path == vmtypes::text_model(kernel.uefi_firmware_path)
            &&& model.bios_load_addr == kernel.bios_load_addr
            &&& model.dtb_path == vmtypes::text_model(kernel.dtb_path)
            &&& model.dtb_load_addr == kernel.dtb_load_addr
            &&& model.ramdisk_path == vmtypes::text_model(kernel.ramdisk_path)
            &&& model.ramdisk_load_addr == kernel.ramdisk_load_addr
            &&& model.image_location == vmtypes::text_model(kernel.image_location)
            &&& model.cmdline == vmtypes::text_model(kernel.cmdline)
            &&& model.disk_path == vmtypes::text_model(kernel.disk_path)
            &&& model.memory_regions == kernel.memory_regions@
            &&& model.configured_memory_region_count == kernel.configured_memory_region_count
        }),
{
}

/// The model of a configuration keeps each field of its base and devices sections.
pub proof fn configurations_keep_their_fields(config: AxVMCrateConfig)
    ensures
        ({
            let model = vmtypes::config_model(config);
            &&& model.base.id == config.base.id
            &&& model.base.name == config.base.name@
            &&& model.base.vm_type == config.base.vm_type
            &&& model.base.cpu_num == config.base.cpu_num
            &&& model.base.phys_cpu_ids == vmtypes::list_model(config.base.phys_cpu_ids)
            &&& model.base.phys_cpu_sets == vmtypes::list_model(config.base.phys_cpu_sets)
            &&& model.kernel == vmtypes::kernel_model(config.kernel)
            &&& model.devices.address_space_policy == config.devices.address_space_policy
            &&& model.devices.emu_devices == vmtypes::emulated_devices_model(
                config.devices.emu_devices@,
            )
            &&& model.devices.passthrough_devices == vmtypes::passthrough_devices_model(
                config.devices.passthrough_devices@,
            )
            &&& model.devices.interrupt_mode == config.devices.interrupt_mode
            &&& model.devices.excluded_devices == vmtypes::names_model(
                config.devices.excluded_devices@,
            )
            &&& model.devices.passthrough_addresses == config.devices.passthrough_addresses@
            &&& model.devices.passthrough_ports == config.devices.passthrough_ports@
        }),
{
}

/// The model of a VM configuration keeps each of its fields.
pub proof fn vm_configurations_keep_their_fields(vm: AxVMConfig)
    ensures
        vm@.id == vm.id,
        vm@.name == vm.name@,
        vm@.vm_type == vm.vm_type,
        vm@.cpu_num == vm.phys_cpu_ls.cpu_num,
        vm@.phys_cpu_ids == vmtypes::list_model(vm.phys_cpu_ls.phys_cpu_ids),
        vm@.phys_cpu_sets == vmtypes::list_model(vm.phys_cpu_ls.phys_cpu_sets),
        vm@.cpu_config == vm.cpu_config,
        vm@.image_config == vm.image_config,
        vm@.emu_devices == vmtypes::emulated_devices_model(vm.emu_devices@),
        vm@.pass_through_devices == vmtypes::passthrough_devices_model(vm.pass_through_devices@),
        vm@.excluded_devices == vmtypes::names_model(vm.excluded_devices@),
        vm@.pass_through_addresses == vm.pass_through_addresses@,
        vm@.reserved_address_ranges == vm.reserved_address_ranges@,
        vm@.pass_through_ports == vm.pass_through_ports@,
        vm@.address_space_policy == vm.address_space_policy,
        vm@.memory_regions == vm.memory_regions@,
        vm@.boot_policy == vm.boot_policy,
        vm@.interrupt_mode == vm.interrupt_mode,
{
}

/// A VM has the identity and the processors that its base section gives it, and starts all of them
/// at the entry point of its kernel.
pub proof fn vms_have_the_configured_processors(config: ConfigModel)
    ensures
        ({
            let vm = vm_config::vm_config_of(config);
            &&& vm.id == config.base.id
            &&& vm.name == config.base.name
            &&& config.base.vm_type == 0 ==> vm.vm_type == VMType::VMTHostVM
            &&& config.base.vm_type == 2 ==> vm.vm_type == VMType::VMTLinux
            &&& config.base.vm_type != 0 && config.base.vm_type != 2 ==> vm.vm_type
                == VMType::VMTRTOS
            &&& vm.cpu_num == config.base.cpu_num
            &&& vm.phys_cpu_ids == config.base.phys_cpu_ids
            &&& vm.phys_cpu_sets == config.base.phys_cpu_sets
            &&& vm.cpu_config.bsp_entry == config.kernel.entry_point
            &&& vm.cpu_config.ap_entry == config.kernel.entry_point
        }),
{
}

/// A VM has the devices, the addresses and the ports that its devices section gives it, and no
/// reserved ranges yet.
pub proof fn vms_have_the_configured_devices(config: ConfigModel)
    ensures
        ({
            let vm = vm_config::vm_config_of(config);
            &&& vm.emu_devices == config.devices.emu_devices
            &&& vm.pass_through_devices == config.devices.passthrough_devices
            &&& vm.excluded_devices == config.devices.excluded_devices
            &&& vm.pass_through_addresses == config.devices.passthrough_addresses
            &&& vm.pass_through_ports == config.devices.passthrough_ports
            &&& vm.address_space_policy == config.devices.address_space_policy
            &&& vm.interrupt_mode == config.devices.interrupt_mode
            &&& vm.reserved_address_ranges.len() == 0
        }),
{
}

/// A VM has the memory that its kernel section gives it, and its images go where that section says.
/// They come from the filesystem exactly if the section places them at `fs`. Until a boot policy is
/// set, nothing is moved.
pub proof fn vms_have_the_configured_images(config: ConfigModel)
    ensures
        ({
            let vm = vm_config::vm_config_of(config);
            let images = vm.image_config;
            &&& vm.memory_regions == config.kernel.memory_regions
            &&& vm.boot_policy == GuestBootPolicy::KeepConfigured
            &&& images.kernel_load_gpa == config.kernel.kernel_load_addr
            &&& images.loaded_from_filesystem <==> config.kernel.image_location == Some(
                seq!['f', 's'],
            )
            &&& images.dtb_load_gpa == config.kernel.dtb_load_addr
            &&& images.ramdisk is Some <==> config.kernel.ramdisk_load_addr is Some
            &&& config.kernel.ramdisk_load_addr matches Some(load_gpa) ==> images.ramdisk == Some(
                RamdiskInfo { load_gpa, size: None },
            )
        }),
{
    reveal_strlit("fs");
    assert("fs"@ =~= seq!['f', 's']);
}

/// What a VM has from its kernel section depends on that section alone, and what it has from its
/// other sections does not depend on it.
pub proof fn sections_do_not_mix(config: ConfigModel, other: ConfigModel)
    ensures
        ({
            let vm = vm_config::vm_config_of(config);
            let mixed = vm_config::vm_config_of(
                ConfigModel { base: other.base, kernel: config.kernel, devices: other.devices },
            );
            let rest = vm_config::vm_config_of(other);
            &&& mixed.image_config == vm.image_config
            &&& mixed.cpu_config == vm.cpu_config
            &&& mixed.memory_regions == vm.memory_regions
            &&& mixed == (vm_config::AxVMConfigModel {
                image_config: vm.image_config,
                cpu_config: vm.cpu_config,
                memory_regions: vm.memory_regions,
                ..rest
            })
        }),
{
}

/// A guest without a BIOS has no place for one, a configured place is taken, and the built-in BIOS
/// goes to 0x8000. That is used exactly if the guest has a BIOS without a place, boots by multiboot,
/// by configuration or by default, and brings no BIOS image.
pub proof fn the_bios_has_its_place(kernel: KernelModel)
    ensures
        ({
            let place = vm_config::bios_load_gpa(kernel);
            let multiboot = kernel.boot_protocol is None || kernel.boot_protocol == Some(
                VMBootProtocol::Multiboot,
            );
            &&& !kernel.enable_bios ==> place is None
            &&& kernel.enable_bios && kernel.bios_load_addr is Some ==> place
                == kernel.bios_load_addr
            &&& kernel.enable_bios && kernel.bios_load_addr is None ==> {
                if multiboot && kernel.bios_path is None {
                    place == Some(0x8000usize)
                } else {
                    place is None
                }
            }
        }),
{
}

/// The VM configuration has the place of the BIOS that its kernel section asks for.
pub proof fn vms_have_the_place_of_the_bios(config: ConfigModel)
    ensures
        vm_config::vm_config_of(config).image_config.bios_load_gpa == vm_config::bios_load_gpa(
            config.kernel,
        ),
{
}

/// Unless the configured place is kept, the kernel is moved for the boot protocol: the configured
/// one, or else multiboot with a BIOS and direct boot without.
pub proof fn the_boot_policy_names_the_protocol(kernel: KernelModel)
    ensures
        vm_config::boot_policy_of(kernel, true) == GuestBootPolicy::KeepConfigured,
        vm_config::boot_policy_of(kernel, false) matches
            GuestBootPolicy::AdjustKernelForBootProtocol { protocol } && match kernel.boot_protocol {
            Some(configured) => protocol == configured,
            None => if kernel.enable_bios {
                protocol == VMBootProtocol::Multiboot
            } else {
                protocol == VMBootProtocol::Direct
            },
        },
{
}

/// The host's filesystem has to be released exactly if the images lie on it and a device, an address
/// range or a port range is passed through, and it is released only by a host that has one.
pub proof fn the_filesystem_is_released_for_hardware(config: ConfigModel, present: bool)
    ensures
        vm_config::needs_filesystem_release(config) <==> {
            &&& config.kernel.image_location == Some(seq!['f', 's'])
            &&& config.devices.passthrough_devices.len() + config.devices.passthrough_addresses.len()
                + config.devices.passthrough_ports.len() >= 1
        },
        guest::releases_filesystem(config, present) <==> {
            &&& present
            &&& config.kernel.image_location == Some(seq!['f', 's'])
            &&& config.devices.passthrough_devices.len() + config.devices.passthrough_addresses.len()
                + config.devices.passthrough_ports.len() >= 1
        },
{
    reveal_strlit("fs");
    assert("fs"@ =~= seq!['f', 's']);
}

} // verus!
