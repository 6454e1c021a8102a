//! The configuration from which a VM is created.
//!
//! [`AxVMConfig`] is made from the configuration that the user wrote. Guest physical addresses are
//! plain numbers here.

use vstd::prelude::*;

use axvm_types::{
    AddressSpacePolicy, EmulatedDeviceConfig, PassThroughAddressConfig, PassThroughDeviceConfig,
    PassThroughPortConfig, ReservedAddressConfig, VMBootProtocol, VMInterruptMode, VMType,
    VmMemConfig, VmMemMappingType,
};
use axvmconfig::AxVMCrateConfig;

use crate::text;
use crate::vmtypes;
use crate::vmtypes::{ConfigModel, EmulatedDeviceModel, KernelModel, PassThroughDeviceModel};

verus! {

/// Where the built-in BIOS is loaded.
pub const DEFAULT_X86_BIOS_LOAD_GPA: usize = 0x8000;

/// The processors of a VM.
pub struct PhysCpuList {
    pub cpu_num: usize,
    pub phys_cpu_ids: Option<Vec<usize>>,
    pub phys_cpu_sets: Option<Vec<usize>>,
}

impl PhysCpuList {
    /// `cpu_num` virtual processors, with what binds them to physical ones.
    pub fn new(
        cpu_num: usize,
        phys_cpu_ids: Option<Vec<usize>>,
        phys_cpu_sets: Option<Vec<usize>>,
    ) -> (list: Self)
        ensures
            list == (PhysCpuList { cpu_num, phys_cpu_ids, phys_cpu_sets }),
    {
        PhysCpuList { cpu_num, phys_cpu_ids, phys_cpu_sets }
    }
}

/// Where the processors of a VM start.
#[derive(Clone, Copy, Debug, PartialEq, Eq, Structural)]
pub struct AxVCpuConfig {
    pub bsp_entry: usize,
    pub ap_entry: usize,
}

/// Where the ramdisk of a VM is loaded.
#[derive(Clone, Copy, Debug, PartialEq, Eq, Structural)]
pub struct RamdiskInfo {
    pub load_gpa: usize,
    pub size: Option<usize>,
}

/// Where the images of a VM come from and go to.
#[derive(Clone, Copy, Debug, PartialEq, Eq, Structural)]
pub struct VMImageConfig {
    pub kernel_load_gpa: usize,
    pub loaded_from_filesystem: bool,
    pub bios_load_gpa: Option<usize>,
    pub dtb_load_gpa: Option<usize>,
    pub ramdisk: Option<RamdiskInfo>,
}

/// Whether the kernel is moved to where the boot protocol wants it.
#[derive(Clone, Copy, Debug, PartialEq, Eq)]
pub enum GuestBootPolicy {
    /// It stays where the configuration puts it.
    KeepConfigured,
    /// It goes where the protocol wants it.
    AdjustKernelForBootProtocol { protocol: VMBootProtocol },
}

/// The configuration of a VM.
pub struct AxVMConfig {
    pub id: usize,
    pub name: String,
    pub vm_type: VMType,
    pub phys_cpu_ls: PhysCpuList,
    pub cpu_config: AxVCpuConfig,
    pub image_config: VMImageConfig,
    pub emu_devices: Vec<EmulatedDeviceConfig>,
    pub pass_through_devices: Vec<PassThroughDeviceConfig>,
    pub excluded_devices: Vec<Vec<String>>,
    pub pass_through_addresses: Vec<PassThroughAddressConfig>,
    pub reserved_address_ranges: Vec<ReservedAddressConfig>,
    pub pass_through_ports: Vec<PassThroughPortConfig>,
    pub address_space_policy: AddressSpacePolicy,
    pub memory_regions: Vec<VmMemConfig>,
    pub boot_policy: GuestBootPolicy,
    pub interrupt_mode: VMInterruptMode,
}

/// The model of [`AxVMConfig`].
#[verifier::ext_equal]
pub struct AxVMConfigModel {
    pub id: usize,
    pub name: Seq<char>,
    pub vm_type: VMType,
    pub cpu_num: usize,
    pub phys_cpu_ids: Option<Seq<usize>>,
    pub phys_cpu_sets: Option<Seq<usize>>,
    pub cpu_config: AxVCpuConfig,
    pub image_config: VMImageConfig,
    pub emu_devices: Seq<EmulatedDeviceModel>,
    pub pass_through_devices: Seq<PassThroughDeviceModel>,
    pub excluded_devices: Seq<Seq<Seq<char>>>,
    pub pass_through_addresses: Seq<PassThroughAddressConfig>,
    pub reserved_address_ranges: Seq<ReservedAddressConfig>,
    pub pass_through_ports: Seq<PassThroughPortConfig>,
    pub address_space_policy: AddressSpacePolicy,
    pub memory_regions: Seq<VmMemConfig>,
    pub boot_policy: GuestBootPolicy,
    pub interrupt_mode: VMInterruptMode,
}

impl View for AxVMConfig {
    type V = AxVMConfigModel;

    open spec fn view(&self) -> AxVMConfigModel {
        AxVMConfigModel {
            id: self.id,
            name: self.name@,
            vm_type: self.vm_type,
            cpu_num: self.phys_cpu_ls.cpu_num,
            phys_cpu_ids: vmtypes::list_model(self.phys_cpu_ls.phys_cpu_ids),
            phys_cpu_sets: vmtypes::list_model(self.phys_cpu_ls.phys_cpu_sets),
            cpu_config: self.cpu_config,
            image_config: self.image_config,
            emu_devices: vmtypes::emulated_devices_model(self.emu_devices@),
            pass_through_devices: vmtypes::passthrough_devices_model(self.pass_through_devices@),
            excluded_devices: vmtypes::names_model(self.excluded_devices@),
            pass_through_addresses: self.pass_through_addresses@,
            reserved_address_ranges: self.reserved_address_ranges@,
            pass_through_ports: self.pass_through_ports@,
            address_space_policy: self.address_space_policy,
            memory_regions: self.memory_regions@,
            boot_policy: self.boot_policy,
            interrupt_mode: self.interrupt_mode,
        }
    }
}

/// Whether the images of a guest come from the host's filesystem.
pub open spec fn from_filesystem(kernel: KernelModel) -> bool {
    kernel.image_location == Some("fs"@)
}

/// Where the BIOS of a guest is loaded: nowhere without a BIOS, else where the configuration says.
/// A guest that boots by multiboot without a BIOS image of its own gets the built-in BIOS.
pub open spec fn bios_load_gpa(kernel: KernelModel) -> Option<usize> {
    if !kernel.enable_bios {
        None
    } else if kernel.bios_load_addr is Some {
        kernel.bios_load_addr
    } else if vmtypes::firmware_path(kernel) is None && vmtypes::boot_protocol(kernel)
        is Multiboot {
        Some(DEFAULT_X86_BIOS_LOAD_GPA)
    } else {
        None
    }
}

/// The VM configuration that a user configuration stands for.
pub open spec fn vm_config_of(config: ConfigModel) -> AxVMConfigModel {
    AxVMConfigModel {
        id: config.base.id,
        name: config.base.name,
        vm_type: vmtypes::vm_type_named(config.base.vm_type),
        cpu_num: config.base.cpu_num,
        phys_cpu_ids: config.base.phys_cpu_ids,
        phys_cpu_sets: config.base.phys_cpu_sets,
        cpu_config: AxVCpuConfig {
            bsp_entry: config.kernel.entry_point,
            ap_entry: config.kernel.entry_point,
        },
        image_config: VMImageConfig {
            kernel_load_gpa: config.kernel.kernel_load_addr,
            loaded_from_filesystem: from_filesystem(config.kernel),
            bios_load_gpa: bios_load_gpa(config.kernel),
            dtb_load_gpa: config.kernel.dtb_load_addr,
            ramdisk: match config.kernel.ramdisk_load_addr {
                Some(load_gpa) => Some(RamdiskInfo { load_gpa, size: None }),
                None => None,
            },
        },
        emu_devices: config.devices.emu_devices,
        pass_through_devices: config.devices.passthrough_devices,
        excluded_devices: config.devices.excluded_devices,
        pass_through_addresses: config.devices.passthrough_addresses,
        reserved_address_ranges: Seq::empty(),
        pass_through_ports: config.devices.passthrough_ports,
        address_space_policy: config.devices.address_space_policy,
        memory_regions: config.kernel.memory_regions,
        boot_policy: GuestBootPolicy::KeepConfigured,
        interrupt_mode: config.devices.interrupt_mode,
    }
}

/// The boot policy of a guest.
pub open spec fn boot_policy_of(kernel: KernelModel, keep_configured: bool) -> GuestBootPolicy {
    if keep_configured {
        GuestBootPolicy::KeepConfigured
    } else {
        GuestBootPolicy::AdjustKernelForBootProtocol { protocol: vmtypes::boot_protocol(kernel) }
    }
}

/// Whether the host has to give up its filesystem for a guest: the images come from there, and
/// host devices, addresses or ports are passed through.
pub open spec fn needs_filesystem_release(config: ConfigModel) -> bool {
    &&& from_filesystem(config.kernel)
    &&& config.devices.passthrough_devices.len() > 0 || config.devices.passthrough_addresses.len()
        > 0 || config.devices.passthrough_ports.len() > 0
}

/// A copy of an optional list of numbers.
fn copy_list(list: &Option<Vec<usize>>) -> (copy: Option<Vec<usize>>)
    ensures
        vmtypes::list_model(copy) == vmtypes::list_model(*list),
{
    match list {
        Some(list) => {
            let copy = list.clone();
            proof {
                assert(copy@ =~= list@);
            }
            Some(copy)
        },
        None => None,
    }
}

/// A copy of how a memory region is mapped.
fn copy_map_type(map_type: &VmMemMappingType) -> (copy: VmMemMappingType)
    ensures
        copy == *map_type,
{
    match map_type {
        VmMemMappingType::MapAlloc => VmMemMappingType::MapAlloc,
        VmMemMappingType::MapIdentical => VmMemMappingType::MapIdentical,
        VmMemMappingType::MapReserved => VmMemMappingType::MapReserved,
    }
}

/// A copy of memory regions.
fn copy_memory_regions(regions: &Vec<VmMemConfig>) -> (copy: Vec<VmMemConfig>)
    ensures
        copy@ == regions@,
{
    let mut copy: Vec<VmMemConfig> = Vec::new();
    let mut i: usize = 0;
    while i < regions.len()
        invariant
            i <= regions@.len(),
            copy@ == regions@.take(i as int),
        decreases regions@.len() - i,
    {
        let region = &regions[i];
        copy.push(
            VmMemConfig {
                gpa: region.gpa,
                size: region.size,
                flags: region.flags,
                map_type: copy_map_type(&region.map_type),
            },
        );
        i = i + 1;
        proof {
            assert(copy@ =~= regions@.take(i as int));
        }
    }
    proof {
        assert(regions@.take(i as int) =~= regions@);
    }
    copy
}

/// A copy of emulated devices.
fn copy_emulated_devices(devices: &Vec<EmulatedDeviceConfig>) -> (copy: Vec<EmulatedDeviceConfig>)
    ensures
        vmtypes::emulated_devices_model(copy@) == vmtypes::emulated_devices_model(devices@),
{
    let mut copy: Vec<EmulatedDeviceConfig> = Vec::new();
    let mut i: usize = 0;
    while i < devices.len()
        invariant
            i <= devices@.len(),
            copy@.len() == i,
            forall|k: int|
                0 <= k < i ==> vmtypes::emulated_device_model(#[trigger] copy@[k])
                    == vmtypes::emulated_device_model(devices@[k]),
        decreases devices@.len() - i,
    {
        let device = &devices[i];
        let cfg_list: Vec<usize> = device.cfg_list.clone();
        proof {
            assert(cfg_list@ =~= device.cfg_list@);
        }
        copy.push(
            EmulatedDeviceConfig {
                name: device.name.clone(),
                base_gpa: device.base_gpa,
                length: device.length,
                irq_id: device.irq_id,
                emu_type: device.emu_type,
                cfg_list,
            },
        );
        i = i + 1;
    }
    proof {
        assert(vmtypes::emulated_devices_model(copy@) =~= vmtypes::emulated_devices_model(
            devices@,
        ));
    }
    copy
}

/// A copy of passed-through devices.
fn copy_passthrough_devices(devices: &Vec<PassThroughDeviceConfig>) -> (copy: Vec<
    PassThroughDeviceConfig,
>)
    ensures
        vmtypes::passthrough_devices_model(copy@) == vmtypes::passthrough_devices_model(devices@),
{
    let mut copy: Vec<PassThroughDeviceConfig> = Vec::new();
    let mut i: usize = 0;
    while i < devices.len()
        invariant
            i <= devices@.len(),
            copy@.len() == i,
            forall|k: int|
                0 <= k < i ==> vmtypes::passthrough_device_model(#[trigger] copy@[k])
                    == vmtypes::passthrough_device_model(devices@[k]),
        decreases devices@.len() - i,
    {
        let device = &devices[i];
        copy.push(
            PassThroughDeviceConfig {
                name: device.name.clone(),
                base_gpa: device.base_gpa,
                base_hpa: device.base_hpa,
                length: device.length,
                irq_id: device.irq_id,
            },
        );
        i = i + 1;
    }
    proof {
        assert(vmtypes::passthrough_devices_model(copy@) =~= vmtypes::passthrough_devices_model(
            devices@,
        ));
    }
    copy
}

/// A copy of passed-through addresses.
fn copy_addresses(addresses: &Vec<PassThroughAddressConfig>) -> (copy: Vec<
    PassThroughAddressConfig,
>)
    ensures
        copy@ == addresses@,
{
    let mut copy: Vec<PassThroughAddressConfig> = Vec::new();
    let mut i: usize = 0;
    while i < addresses.len()
        invariant
            i <= addresses@.len(),
            copy@ == addresses@.take(i as int),
        decreases addresses@.len() - i,
    {
        let address = &addresses[i];
        copy.push(
            PassThroughAddressConfig { base_gpa: address.base_gpa, length: address.length },
        );
        i = i + 1;
        proof {
            assert(copy@ =~= addresses@.take(i as int));
        }
    }
    proof {
        assert(addresses@.take(i as int) =~= addresses@);
    }
    copy
}

/// A copy of passed-through ports.
fn copy_ports(ports: &Vec<PassThroughPortConfig>) -> (copy: Vec<PassThroughPortConfig>)
    ensures
        copy@ == ports@,
{
    let mut copy: Vec<PassThroughPortConfig> = Vec::new();
    let mut i: usize = 0;
    while i < ports.len()
        invariant
            i <= ports@.len(),
            copy@ == ports@.take(i as int),
        decreases ports@.len() - i,
    {
        copy.push(PassThroughPortConfig { base: ports[i].base, length: ports[i].length });
        i = i + 1;
        proof {
            assert(copy@ =~= ports@.take(i as int));
        }
    }
    proof {
        assert(ports@.take(i as int) =~= ports@);
    }
    copy
}

/// A copy of a list of names.
fn copy_name_list(names: &Vec<String>) -> (copy: Vec<String>)
    ensures
        copy@.map_values(|name: String| name@) == names@.map_values(|name: String| name@),
{
    let mut copy: Vec<String> = Vec::new();
    let mut i: usize = 0;
    while i < names.len()
        invariant
            i <= names@.len(),
            copy@.len() == i,
            forall|k: int| 0 <= k < i ==> (#[trigger] copy@[k])@ == names@[k]@,
        decreases names@.len() - i,
    {
        copy.push(names[i].clone());
        i = i + 1;
    }
    proof {
        assert(copy@.map_values(|name: String| name@) =~= names@.map_values(|name: String| name@));
    }
    copy
}

/// A copy of lists of names.
fn copy_names(lists: &Vec<Vec<String>>) -> (copy: Vec<Vec<String>>)
    ensures
        vmtypes::names_model(copy@) == vmtypes::names_model(lists@),
{
    let mut copy: Vec<Vec<String>> = Vec::new();
    let mut i: usize = 0;
    while i < lists.len()
        invariant
            i <= lists@.len(),
            copy@.len() == i,
            forall|k: int|
                0 <= k < i ==> (#[trigger] copy@[k])@.map_values(|name: String| name@)
                    == lists@[k]@.map_values(|name: String| name@),
        decreases lists@.len() - i,
    {
        copy.push(copy_name_list(&lists[i]));
        i = i + 1;
    }
    proof {
        assert(vmtypes::names_model(copy@) =~= vmtypes::names_model(lists@));
    }
    copy
}

/// Whether the images of a guest come from the host's filesystem.
fn loaded_from_filesystem(cfg: &AxVMCrateConfig) -> (from_fs: bool)
    ensures
        from_fs == from_filesystem(vmtypes::kernel_model(cfg.kernel)),
{
    match &cfg.kernel.image_location {
        Some(location) => {
            let chars = text::chars_of(location);
            text::spells(&chars, "fs")
        },
        None => false,
    }
}

/// Where the BIOS of a guest is loaded.
pub fn configured_bios_load_gpa(cfg: &AxVMCrateConfig) -> (gpa: Option<usize>)
    ensures
        gpa == bios_load_gpa(vmtypes::kernel_model(cfg.kernel)),
{
    if !cfg.kernel.enable_bios {
        return None;
    }
    if let Some(addr) = cfg.kernel.bios_load_addr {
        return Some(addr);
    }
    if cfg.kernel.boot_firmware_path().is_none() {
        if let VMBootProtocol::Multiboot = cfg.kernel.effective_boot_protocol() {
            return Some(DEFAULT_X86_BIOS_LOAD_GPA);
        }
    }
    None
}

/// The boot policy of a guest.
pub fn guest_boot_policy(
    cfg: &AxVMCrateConfig,
    skip_guest_address_adjustment: bool,
) -> (policy: GuestBootPolicy)
    ensures
        policy == boot_policy_of(vmtypes::kernel_model(cfg.kernel), skip_guest_address_adjustment),
{
    if skip_guest_address_adjustment {
        GuestBootPolicy::KeepConfigured
    } else {
        GuestBootPolicy::AdjustKernelForBootProtocol {
            protocol: cfg.kernel.effective_boot_protocol(),
        }
    }
}

/// Whether the host has to give up its filesystem for a guest.
pub fn vm_config_needs_host_filesystem_release(config: &AxVMCrateConfig) -> (needed: bool)
    ensures
        needed == needs_filesystem_release(vmtypes::config_model(*config)),
{
    loaded_from_filesystem(config) && (config.devices.passthrough_devices.len() > 0
        || config.devices.passthrough_addresses.len() > 0 || config.devices.passthrough_ports.len()
        > 0)
}

/// Makes a VM configuration from a user configuration.
pub fn build_axvm_config(cfg: &AxVMCrateConfig) -> (vm_config: AxVMConfig)
    ensures
        vm_config@ == vm_config_of(vmtypes::config_model(*cfg)),
{
    let ramdisk: Option<RamdiskInfo> = match cfg.kernel.ramdisk_load_addr {
        Some(load_gpa) => Some(RamdiskInfo { load_gpa, size: None }),
        None => None,
    };
    AxVMConfig {
        id: cfg.base.id,
        name: cfg.base.name.clone(),
        vm_type: vmtypes::vm_type_of(cfg.base.vm_type),
        phys_cpu_ls: PhysCpuList::new(
            cfg.base.cpu_num,
            copy_list(&cfg.base.phys_cpu_ids),
            copy_list(&cfg.base.phys_cpu_sets),
        ),
        cpu_config: AxVCpuConfig {
            bsp_entry: cfg.kernel.entry_point,
            ap_entry: cfg.kernel.entry_point,
        },
        image_config: VMImageConfig {
            kernel_load_gpa: cfg.kernel.kernel_load_addr,
            loaded_from_filesystem: loaded_from_filesystem(cfg),
            bios_load_gpa: configured_bios_load_gpa(cfg),
            dtb_load_gpa: cfg.kernel.dtb_load_addr,
            ramdisk,
        },
        emu_devices: copy_emulated_devices(&cfg.devices.emu_devices),
        pass_through_devices: copy_passthrough_devices(&cfg.devices.passthrough_devices),
        excluded_devices: copy_names(&cfg.devices.excluded_devices),
        pass_through_addresses: copy_addresses(&cfg.devices.passthrough_addresses),
        reserved_address_ranges: Vec::new(),
        pass_through_ports: copy_ports(&cfg.devices.passthrough_ports),
        address_space_policy: cfg.devices.address_space_policy,
        memory_regions: copy_memory_regions(&cfg.kernel.memory_regions),
        boot_policy: GuestBootPolicy::KeepConfigured,
        interrupt_mode: cfg.devices.interrupt_mode,
    }
}

impl AxVMConfig {
    /// The memory regions of the VM.
    pub fn memory_regions(&self) -> (regions: &Vec<VmMemConfig>)
        ensures
            regions@ == self@.memory_regions,
    {
        &self.memory_regions
    }

    /// Replaces the memory regions of the VM.
    pub fn set_memory_regions(&mut self, regions: Vec<VmMemConfig>)
        ensures
            final(self)@ == (AxVMConfigModel { memory_regions: regions@, ..old(self)@ }),
    {
        self.memory_regions = regions;
    }

    /// Replaces the boot policy of the VM.
    pub fn set_boot_policy(&mut self, policy: GuestBootPolicy)
        ensures
            final(self)@ == (AxVMConfigModel { boot_policy: policy, ..old(self)@ }),
    {
        self.boot_policy = policy;
    }
}

/// Takes over the memory regions that were added to the user configuration since the VM
/// configuration was made.
pub fn sync_axvm_config_from_crate_config(vm_config: &mut AxVMConfig, cfg: &AxVMCrateConfig)
    ensures
        final(vm_config)@ == (AxVMConfigModel {
            memory_regions: cfg.kernel.memory_regions@,
            ..old(vm_config)@
        }),
{
    vm_config.set_memory_regions(copy_memory_regions(&cfg.kernel.memory_regions));
}

/// A VM configuration that was just made has nothing to take over.
pub proof fn sync_after_build_changes_nothing(config: ConfigModel)
    ensures
        (AxVMConfigModel {
            memory_regions: config.kernel.memory_regions,
            ..vm_config_of(config)
        }) == vm_config_of(config),
{
}

/// Where the boot inputs are complete, a guest has a place for its BIOS exactly if it has a BIOS,
/// and exactly then it does not boot directly.
pub proof fn complete_boot_inputs_place_the_bios(kernel: KernelModel)
    requires
        vmtypes::boot_inputs_complete(kernel),
    ensures
        bios_load_gpa(kernel) is Some <==> kernel.enable_bios,
        kernel.enable_bios <==> boot_policy_of(kernel, false)
            != (GuestBootPolicy::AdjustKernelForBootProtocol { protocol: VMBootProtocol::Direct }),
{
}

} // verus!
