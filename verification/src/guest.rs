//! Bringing up guests.
//!
//! A guest is brought up in steps, most of which only the host can take: creating the VM, laying out
//! its memory, loading its images. [`GuestInit`] says which step is next and what its outcome leads
//! to. Its owner takes the step and reports the outcome.

use vstd::prelude::*;

use ax_errno::AxError;
use axvmconfig::AxVMCrateConfig;

use crate::error::VmError;
use crate::irq;
use crate::irq::IrqRouteRequest;
use crate::vm_config;
use crate::vm_config::{AxVMConfig, AxVMConfigModel};
use crate::vmcfg;
use crate::vmtypes;
use crate::vmtypes::ConfigModel;

verus! {

/// The step that a guest is at.
#[derive(Clone, Copy, Debug, PartialEq, Eq, Structural)]
pub enum InitStage {
    /// The VM is created. A success gives its number.
    CreateVm,
    /// The memory of the VM is laid out.
    PrepareMemoryLayout,
    /// The interrupt routes of its devices are registered.
    RegisterIrqRoutes,
    /// Its images are loaded.
    LoadImages,
    /// It is made ready to run.
    PrepareVm,
    /// It is registered under its number.
    RegisterVm,
    /// The interrupt route of the device that held the host's filesystem is registered.
    RegisterHostFsRoute,
    /// The guest is up.
    Done,
    /// The guest could not be brought up.
    Failed { error: VmError },
}

/// How far a guest has come.
#[derive(Clone, Copy, Debug, PartialEq, Eq, Structural)]
pub struct InitState {
    pub stage: InitStage,
    /// The number of the VM, once it is created.
    pub vm_id: usize,
}

/// The state of a guest of which only the configuration is known.
pub open spec fn initial_state() -> InitState {
    InitState { stage: InitStage::CreateVm, vm_id: 0 }
}

/// The error that a failed step ends with. A VM that cannot be created or made ready has bad data,
/// and one that cannot be registered exists already. A missing interrupt route is no failure.
pub open spec fn failure_of(stage: InitStage, error: VmError) -> Option<VmError> {
    match stage {
        InitStage::CreateVm => Some(VmError::InvalidData),
        InitStage::PrepareMemoryLayout => Some(error),
        InitStage::LoadImages => Some(error),
        InitStage::PrepareVm => Some(VmError::InvalidData),
        InitStage::RegisterVm => Some(VmError::AlreadyExists),
        _ => None,
    }
}

/// The step behind a step.
pub open spec fn stage_behind(stage: InitStage, release: bool) -> InitStage {
    match stage {
        InitStage::CreateVm => InitStage::PrepareMemoryLayout,
        InitStage::PrepareMemoryLayout => InitStage::RegisterIrqRoutes,
        InitStage::RegisterIrqRoutes => InitStage::LoadImages,
        InitStage::LoadImages => InitStage::PrepareVm,
        InitStage::PrepareVm => InitStage::RegisterVm,
        InitStage::RegisterVm => if release {
            InitStage::RegisterHostFsRoute
        } else {
            InitStage::Done
        },
        InitStage::RegisterHostFsRoute => InitStage::Done,
        InitStage::Done => InitStage::Done,
        InitStage::Failed { error } => InitStage::Failed { error },
    }
}

/// Whether the host gives up its filesystem for a guest: it has one, and the configuration needs it
/// released.
pub open spec fn releases_filesystem(config: ConfigModel, present: bool) -> bool {
    vm_config::needs_filesystem_release(config) && present
}

/// Where the outcome of a step leads. `release` is whether the host gives up its filesystem for the
/// guest.
pub open spec fn state_after(
    state: InitState,
    release: bool,
    outcome: Result<usize, VmError>,
) -> InitState {
    let next = stage_behind(state.stage, release);
    match outcome {
        Ok(number) => InitState {
            stage: next,
            vm_id: if state.stage == InitStage::CreateVm {
                number
            } else {
                state.vm_id
            },
        },
        Err(error) => InitState {
            stage: match failure_of(state.stage, error) {
                Some(error) => InitStage::Failed { error },
                None => next,
            },
            vm_id: state.vm_id,
        },
    }
}

/// The host's filesystem, and whether it has been given up for a guest.
pub struct HostFilesystem {
    present: bool,
    release_required: bool,
}

impl HostFilesystem {
    /// Whether the host has a filesystem.
    pub closed spec fn is_present(self) -> bool {
        self.present
    }

    /// Whether the host must release its filesystem.
    pub closed spec fn release_required(self) -> bool {
        self.release_required
    }

    /// Only a filesystem that is there can be released.
    #[verifier::type_invariant]
    spec fn released_only_if_present(self) -> bool {
        self.release_required ==> self.present
    }

    /// A filesystem that the host still uses.
    pub fn new() -> (host: Self)
        ensures
            host.is_present(),
            !host.release_required(),
    {
        HostFilesystem { present: true, release_required: false }
    }

    /// A host without a filesystem.
    pub fn absent() -> (host: Self)
        ensures
            !host.is_present(),
            !host.release_required(),
    {
        HostFilesystem { present: false, release_required: false }
    }
}

/// Whether the host must release its filesystem.
pub fn host_filesystem_release_required(host: &HostFilesystem) -> (required: bool)
    ensures
        required == host.release_required(),
        required ==> host.is_present(),
{
    proof {
        use_type_invariant(host);
    }
    host.release_required
}

/// A guest that is being brought up.
pub struct GuestInit {
    config: AxVMCrateConfig,
    release: bool,
    state: InitState,
}

impl GuestInit {
    /// The configuration of the guest.
    pub closed spec fn config(self) -> ConfigModel {
        vmtypes::config_model(self.config)
    }

    /// How far the guest has come.
    pub closed spec fn state(self) -> InitState {
        self.state
    }

    /// Whether the host's filesystem has to be released is decided by the configuration.
    #[verifier::type_invariant]
    spec fn release_follows_the_configuration(self) -> bool {
        self.release == vm_config::needs_filesystem_release(vmtypes::config_model(self.config))
    }

    /// The step that is next.
    pub fn stage(&self) -> (stage: InitStage)
        ensures
            stage == self.state().stage,
    {
        self.state.stage
    }

    /// The outcome of bringing the guest up, once it is known: the number of its VM, or an error.
    pub fn outcome(&self) -> (outcome: Option<Result<usize, VmError>>)
        ensures
            outcome == match self.state().stage {
                InitStage::Done => Some(Ok::<usize, VmError>(self.state().vm_id)),
                InitStage::Failed { error } => Some(Err::<usize, VmError>(error)),
                _ => None,
            },
    {
        match self.state.stage {
            InitStage::Done => Some(Ok(self.state.vm_id)),
            InitStage::Failed { error } => Some(Err(error)),
            _ => None,
        }
    }

    /// The configuration that the user wrote.
    pub fn crate_config(&self) -> (config: &AxVMCrateConfig)
        ensures
            vmtypes::config_model(*config) == self.config(),
    {
        &self.config
    }

    /// The configuration to create the VM with. A Linux kernel that boots directly stays where the
    /// configuration puts it.
    pub fn vm_config(&self, linux_direct_boot: bool) -> (vm_config: AxVMConfig)
        ensures
            vm_config@ == (AxVMConfigModel {
                boot_policy: vm_config::boot_policy_of(self.config().kernel, linux_direct_boot),
                ..vm_config::vm_config_of(self.config())
            }),
    {
        let mut vm_config = vm_config::build_axvm_config(&self.config);
        vm_config::sync_axvm_config_from_crate_config(&mut vm_config, &self.config);
        vm_config.set_boot_policy(vm_config::guest_boot_policy(&self.config, linux_direct_boot));
        vm_config
    }

    /// The interrupt routes that the devices of the guest ask for.
    pub fn irq_routes(&self) -> (routes: Vec<IrqRouteRequest>)
        ensures
            routes@ == irq::routes_of(self.config().devices.passthrough_devices),
    {
        irq::register_x86_passthrough_irq_routes(&self.config)
    }

    /// Takes the outcome of the step that was next. Returns the step that is next now.
    pub fn advance(&mut self, outcome: Result<usize, VmError>, host: &mut HostFilesystem) -> (stage:
        InitStage)
        ensures
            final(self).state() == state_after(
                old(self).state(),
                releases_filesystem(old(self).config(), old(host).is_present()),
                outcome,
            ),
            final(self).config() == old(self).config(),
            stage == final(self).state().stage,
            final(host).is_present() == old(host).is_present(),
            final(host).release_required() == (old(host).release_required() || (old(
                self,
            ).state().stage == InitStage::RegisterHostFsRoute && old(host).is_present())),
    {
        proof {
            use_type_invariant(&*self);
        }
        let release: bool = self.release && host.present;
        let state: InitState = self.state;
        let next: InitStage = match state.stage {
            InitStage::CreateVm => match outcome {
                Ok(_) => InitStage::PrepareMemoryLayout,
                Err(_) => InitStage::Failed { error: VmError::InvalidData },
            },
            InitStage::PrepareMemoryLayout => match outcome {
                Ok(_) => InitStage::RegisterIrqRoutes,
                Err(error) => InitStage::Failed { error },
            },
            InitStage::RegisterIrqRoutes => InitStage::LoadImages,
            InitStage::LoadImages => match outcome {
                Ok(_) => InitStage::PrepareVm,
                Err(error) => InitStage::Failed { error },
            },
            InitStage::PrepareVm => match outcome {
                Ok(_) => InitStage::RegisterVm,
                Err(_) => InitStage::Failed { error: VmError::InvalidData },
            },
            InitStage::RegisterVm => match outcome {
                Ok(_) => if release {
                    InitStage::RegisterHostFsRoute
                } else {
                    InitStage::Done
                },
                Err(_) => InitStage::Failed { error: VmError::AlreadyExists },
            },
            InitStage::RegisterHostFsRoute => {
                if host.present {
                    host.release_required = true;
                }
                InitStage::Done
            },
            InitStage::Done => InitStage::Done,
            InitStage::Failed { error } => InitStage::Failed { error },
        };
        let vm_id: usize = match (state.stage, outcome) {
            (InitStage::CreateVm, Ok(number)) => number,
            _ => state.vm_id,
        };
        self.state = InitState { stage: next, vm_id };
        next
    }
}

/// Starts to bring up a guest, given what its configuration was parsed to.
pub fn begin_guest_init(parsed: Result<AxVMCrateConfig, AxError>) -> (init: Result<
    GuestInit,
    VmError,
>)
    ensures
        match (parsed, init) {
            (Ok(config), Ok(init)) => init.config() == vmtypes::config_model(config)
                && init.state() == initial_state(),
            (Err(_), Err(error)) => error == VmError::InvalidData,
            _ => false,
        },
{
    match parsed {
        Ok(config) => {
            let release: bool = vm_config::vm_config_needs_host_filesystem_release(&config);
            let state = InitState { stage: InitStage::CreateVm, vm_id: 0 };
            Ok(GuestInit { config, release, state })
        },
        Err(_) => Err(VmError::InvalidData),
    }
}

/// Starts to bring up a guest from the text of its configuration.
pub fn init_guest_vm(raw_cfg: &str) -> (init: Result<GuestInit, VmError>)
    ensures
        match (vmtypes::toml_config(raw_cfg@), init) {
            (Some(config), Ok(init)) => {
                &&& init.config() == config
                &&& init.state() == initial_state()
                &&& vmtypes::boot_inputs_complete(config.kernel)
                &&& vmtypes::port_ranges_fit(config.devices.passthrough_ports)
                &&& config.kernel.configured_memory_region_count
                    == config.kernel.memory_regions.len()
            },
            (None, Err(error)) => error == VmError::InvalidData,
            _ => false,
        },
{
    begin_guest_init(AxVMCrateConfig::from_toml(raw_cfg))
}

/// The configurations of the guests to bring up: those of the host's filesystem, or else the
/// static ones.
pub fn init_guest_vms(
    filesystem_configs: Vec<String>,
    static_configs: &Vec<&'static str>,
) -> (configs: Vec<String>)
    ensures
        vmcfg::texts(configs@) == if filesystem_configs@.len() > 0 {
            vmcfg::texts(filesystem_configs@)
        } else {
            vmcfg::static_texts(static_configs@)
        },
{
    if filesystem_configs.len() > 0 {
        return filesystem_configs;
    }
    let mut configs: Vec<String> = Vec::new();
    let mut i: usize = 0;
    while i < static_configs.len()
        invariant
            i <= static_configs@.len(),
            configs@.len() == i,
            forall|k: int| 0 <= k < i ==> (#[trigger] configs@[k])@ == static_configs@[k]@,
        decreases static_configs@.len() - i,
    {
        configs.push(static_configs[i].to_owned());
        i = i + 1;
    }
    proof {
        assert(vmcfg::texts(configs@) =~= vmcfg::static_texts(static_configs@));
    }
    configs
}

} // verus!
