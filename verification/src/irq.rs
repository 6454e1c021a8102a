//! Forwarding of host interrupts to a guest.
//!
//! The interrupts of a passed-through device are forwarded from the host's interrupt controller to
//! the guest's. Which host interrupt a PCI interrupt pin leads to is known to the host's firmware
//! only. The functions here decide what to ask and what to do with the answers.

use vstd::prelude::*;

use axvm_types::{InterruptTriggerMode, PassThroughDeviceConfig};
use axvmconfig::AxVMCrateConfig;

use crate::error::VmError;
use crate::intx;
use crate::intx::{PciBdf, X86PciIntxSpec};
use crate::pci_config;
use crate::pci_laws;
use crate::vmtypes;
use crate::vmtypes::PassThroughDeviceModel;

verus! {

/// The address of a PCI function.
#[derive(Clone, Copy, Debug, PartialEq, Eq, Structural)]
pub struct PciAddress {
    pub segment: u16,
    pub bus: u8,
    pub device: u8,
    pub function: u8,
}

/// The interrupt pin on the root bus that an interrupt pin is wired to.
#[derive(Clone, Copy, Debug, PartialEq, Eq, Structural)]
pub struct PciIntxRoute {
    pub root_device: u8,
    pub root_function: u8,
    pub root_pin: u8,
}

/// What identifies the interrupt of a PCI function.
#[derive(Clone, Copy, Debug, PartialEq, Eq, Structural)]
pub struct PciInfo {
    pub address: PciAddress,
    pub interrupt_pin: u8,
    pub interrupt_line: u8,
    pub intx_route: Option<PciIntxRoute>,
}

/// An interrupt of the host: a line of one of its interrupt domains.
#[derive(Clone, Copy, Debug, PartialEq, Eq, Structural)]
pub struct IrqId {
    pub domain: u16,
    pub hwirq: u32,
}

/// How an interrupt that ACPI describes is triggered.
#[derive(Clone, Copy, Debug, PartialEq, Eq, Structural)]
pub enum AcpiIrqTrigger {
    Edge,
    Level,
}

/// The active level of an interrupt that ACPI describes.
#[derive(Clone, Copy, Debug, PartialEq, Eq, Structural)]
pub enum AcpiIrqPolarity {
    ActiveHigh,
    ActiveLow,
}

/// The interrupt controller that an ACPI interrupt arrives at.
#[derive(Clone, Copy, Debug, PartialEq, Eq, Structural)]
pub enum AcpiGsiController {
    IoApic,
    PchPic,
}

/// A global system interrupt and the controller input that it is wired to.
#[derive(Clone, Copy, Debug, PartialEq, Eq, Structural)]
pub struct AcpiGsiRoute {
    pub gsi: u32,
    pub vector: usize,
    pub controller: AcpiGsiController,
    pub controller_id: u16,
    pub controller_address: u64,
    pub controller_input: u8,
    pub trigger: AcpiIrqTrigger,
    pub polarity: AcpiIrqPolarity,
}

/// How the firmware names the interrupt of a device.
#[derive(Clone, Copy, Debug, PartialEq, Eq, Structural)]
pub enum BindingIrqSource {
    AcpiGsi(u32),
    AcpiGsiRoute(AcpiGsiRoute),
    FdtInterrupt,
}

/// The interrupt of a device.
#[derive(Clone, Copy, Debug, PartialEq, Eq, Structural)]
pub enum BindingIrq {
    Id(IrqId),
    Source(BindingIrqSource),
}

/// An interrupt that the host can be asked for.
#[derive(Clone, Copy, Debug, PartialEq, Eq, Structural)]
pub enum IrqSource {
    AcpiGsi(u32),
    AcpiGsiRoute(AcpiGsiRoute),
}

/// How the host interrupt of a device is found.
#[derive(Clone, Copy, Debug, PartialEq, Eq, Structural)]
pub enum IrqResolution {
    /// It is known.
    Known(IrqId),
    /// The host knows it.
    Ask(IrqSource),
    /// It cannot be found.
    Unsupported,
}

/// A host interrupt that is forwarded to a line of the guest's I/O APIC.
#[derive(Clone, Copy, Debug, PartialEq, Eq)]
pub struct IrqForwarding {
    pub guest_gsi: usize,
    pub host_irq: IrqId,
    pub trigger: InterruptTriggerMode,
    /// Whether an activator is registered for the line, which unmasks the device's interrupt once
    /// the guest enables the line.
    pub activator: bool,
}

/// What comes next on the way to forwarding an interrupt.
#[derive(Clone, Copy, Debug, PartialEq, Eq)]
pub enum IntxStep {
    /// Nothing: the interrupt is not forwarded.
    Ignore,
    /// The host is asked for its interrupt.
    Resolve {
        source: IrqSource,
        guest_gsi: usize,
        trigger: InterruptTriggerMode,
        activator: bool,
    },
    /// The interrupt is forwarded, with an activator for the line where the forwarding says so.
    Register(IrqForwarding),
    /// The interrupt could not be found.
    Fail(VmError),
}

/// What the firmware says of the interrupt of a PCI function.
#[derive(Clone, Copy, Debug, PartialEq, Eq, Structural)]
pub enum AcpiLookup {
    /// There is no ACPI.
    Unavailable,
    /// ACPI knows the interrupt.
    Found(AcpiGsiRoute),
    /// ACPI does not know of an interrupt.
    NotFound,
    /// ACPI could not be read.
    Failed,
}

/// What the host's drivers say of the interrupt of a PCI function.
#[derive(Clone, Copy, Debug, PartialEq, Eq, Structural)]
pub enum BindingLookup {
    /// The drivers know the interrupt.
    Found(BindingIrq),
    /// The drivers do not know of an interrupt.
    NotFound,
    /// The drivers could not tell.
    Failed,
}

/// An interrupt route that a guest asks for.
#[derive(Clone, Copy, Debug, PartialEq, Eq, Structural)]
pub enum IrqRouteRequest {
    /// The interrupt pin of a PCI function, forwarded to line `guest_gsi`.
    Intx { info: PciInfo, guest_gsi: usize },
    /// The interrupt vectors from `start` to `end`.
    Msi { start: usize, end: usize },
}

/// The PCI function that the interrupt pins of a device belong to.
pub open spec fn pci_info_of(spec: X86PciIntxSpec) -> PciInfo {
    PciInfo {
        address: PciAddress { segment: 0, bus: spec.bus, device: spec.dev, function: spec.func },
        interrupt_pin: spec.pin,
        interrupt_line: 0,
        intx_route: Some(
            PciIntxRoute {
                root_device: spec.root_dev,
                root_function: spec.root_func,
                root_pin: spec.root_pin,
            },
        ),
    }
}

/// The interrupt pin that a device's name asks to have forwarded.
pub open spec fn intx_route(name: Seq<char>) -> Option<PciInfo> {
    match intx::intx_spec(name) {
        Some(spec) => Some(pci_info_of(spec)),
        None => None,
    }
}

/// The interrupt routes that one device asks for: its pin, and its vectors behind it.
pub open spec fn device_routes(device: PassThroughDeviceModel) -> Seq<IrqRouteRequest> {
    let pin = match intx_route(device.name) {
        Some(info) => seq![IrqRouteRequest::Intx { info, guest_gsi: device.irq_id }],
        None => Seq::empty(),
    };
    let vectors = match intx::msi_vector_range(device.name) {
        Some((start, end)) => seq![
            IrqRouteRequest::Msi { start: start as usize, end: end as usize },
        ],
        None => Seq::empty(),
    };
    pin + vectors
}

/// The interrupt routes that devices ask for, in the order of the devices.
pub open spec fn routes_of(devices: Seq<PassThroughDeviceModel>) -> Seq<IrqRouteRequest>
    decreases devices.len(),
{
    if devices.len() == 0 {
        Seq::empty()
    } else {
        routes_of(devices.drop_last()) + device_routes(devices.last())
    }
}

/// How the host interrupt of a device is found. Interrupts of a device tree have no counterpart
/// here.
pub open spec fn irq_resolution(binding: BindingIrq) -> IrqResolution {
    match binding {
        BindingIrq::Id(irq) => IrqResolution::Known(irq),
        BindingIrq::Source(BindingIrqSource::AcpiGsi(gsi)) => IrqResolution::Ask(
            IrqSource::AcpiGsi(gsi),
        ),
        BindingIrq::Source(BindingIrqSource::AcpiGsiRoute(route)) => IrqResolution::Ask(
            IrqSource::AcpiGsiRoute(route),
        ),
        BindingIrq::Source(BindingIrqSource::FdtInterrupt) => IrqResolution::Unsupported,
    }
}

/// Whether ACPI says of an interrupt that it is triggered by edges.
pub open spec fn is_edge_route(binding: BindingIrq) -> bool {
    match binding {
        BindingIrq::Source(BindingIrqSource::AcpiGsiRoute(route)) => route.trigger
            == AcpiIrqTrigger::Edge,
        _ => false,
    }
}

/// How a forwarded interrupt is triggered: PCI interrupts are level-triggered unless ACPI says
/// otherwise.
pub open spec fn forwarding_trigger(binding: BindingIrq) -> InterruptTriggerMode {
    if is_edge_route(binding) {
        InterruptTriggerMode::EdgeTriggered
    } else {
        InterruptTriggerMode::LevelTriggered
    }
}

/// What comes next once the interrupt of a device is known. `activator` is whether the forwarded
/// line gets an activator.
pub open spec fn binding_step(binding: BindingIrq, guest_gsi: usize, activator: bool) -> IntxStep {
    let trigger = forwarding_trigger(binding);
    match irq_resolution(binding) {
        IrqResolution::Known(host_irq) => IntxStep::Register(
            IrqForwarding { guest_gsi, host_irq, trigger, activator },
        ),
        IrqResolution::Ask(source) => IntxStep::Resolve { source, guest_gsi, trigger, activator },
        IrqResolution::Unsupported => IntxStep::Fail(VmError::Unsupported),
    }
}

/// What comes next once ACPI has been asked for the interrupt of a passed-through device.
pub open spec fn passthrough_step(lookup: AcpiLookup, guest_gsi: usize) -> IntxStep {
    match lookup {
        AcpiLookup::Found(route) => binding_step(
            BindingIrq::Source(BindingIrqSource::AcpiGsiRoute(route)),
            guest_gsi,
            false,
        ),
        _ => IntxStep::Ignore,
    }
}

/// What comes next once the drivers have been asked for the interrupt of the device that held the
/// host's filesystem.
pub open spec fn host_fs_step(lookup: BindingLookup, guest_gsi: usize) -> IntxStep {
    match lookup {
        BindingLookup::Found(binding) => binding_step(binding, guest_gsi, true),
        _ => IntxStep::Ignore,
    }
}

/// What comes next once the host has been asked for its interrupt.
pub open spec fn resolved_step(
    guest_gsi: usize,
    trigger: InterruptTriggerMode,
    activator: bool,
    resolved: Result<IrqId, VmError>,
) -> IntxStep {
    match resolved {
        Ok(host_irq) => IntxStep::Register(
            IrqForwarding { guest_gsi, host_irq, trigger, activator },
        ),
        Err(error) => IntxStep::Fail(error),
    }
}

/// What is registered in the end when a step is followed up, where `answer` is what the host says
/// if it is asked for its interrupt.
pub open spec fn registered(step: IntxStep, answer: Result<IrqId, VmError>) -> Option<
    IrqForwarding,
> {
    match step {
        IntxStep::Register(forwarding) => Some(forwarding),
        IntxStep::Resolve { source, guest_gsi, trigger, activator } => match resolved_step(
            guest_gsi,
            trigger,
            activator,
            answer,
        ) {
            IntxStep::Register(forwarding) => Some(forwarding),
            _ => None,
        },
        _ => None,
    }
}

/// The host interrupt of a device, where `answer` is what the host says if it is asked for it.
pub open spec fn resolved_irq(binding: BindingIrq, answer: Result<IrqId, VmError>) -> Option<
    IrqId,
> {
    match irq_resolution(binding) {
        IrqResolution::Known(irq) => Some(irq),
        IrqResolution::Ask(_) => match answer {
            Ok(irq) => Some(irq),
            Err(_) => None,
        },
        IrqResolution::Unsupported => None,
    }
}

/// Reads from a device's name which interrupt pin it wants forwarded.
pub fn parse_x86_passthrough_intx_route(device: &PassThroughDeviceConfig) -> (info: Option<PciInfo>)
    ensures
        info == intx_route(device.name@),
{
    match intx::parse_x86_pci_intx_spec(&device.name) {
        Some(spec) => Some(
            PciInfo {
                address: PciAddress {
                    segment: 0,
                    bus: spec.bus,
                    device: spec.dev,
                    function: spec.func,
                },
                interrupt_pin: spec.pin,
                interrupt_line: 0,
                intx_route: Some(
                    PciIntxRoute {
                        root_device: spec.root_dev,
                        root_function: spec.root_func,
                        root_pin: spec.root_pin,
                    },
                ),
            },
        ),
        None => None,
    }
}

/// Reads from a device's name which interrupt vectors it wants forwarded.
pub fn parse_x86_passthrough_msi_vector_range(device: &PassThroughDeviceConfig) -> (range: Option<
    (u8, u8),
>)
    ensures
        range == intx::msi_vector_range(device.name@),
{
    intx::parse_msi_vector_range(&device.name)
}

/// The interrupt routes that the passed-through devices of a guest ask for.
pub fn register_x86_passthrough_irq_routes(config: &AxVMCrateConfig) -> (routes: Vec<
    IrqRouteRequest,
>)
    ensures
        routes@ == routes_of(vmtypes::config_model(*config).devices.passthrough_devices),
{
    let devices = &config.devices.passthrough_devices;
    let ghost models = vmtypes::passthrough_devices_model(devices@);
    let mut routes: Vec<IrqRouteRequest> = Vec::new();
    let mut i: usize = 0;
    while i < devices.len()
        invariant
            i <= devices@.len(),
            models == vmtypes::passthrough_devices_model(devices@),
            routes@ == routes_of(models.take(i as int)),
        decreases devices@.len() - i,
    {
        let device = &devices[i];
        let ghost before = routes@;
        if let Some(info) = parse_x86_passthrough_intx_route(device) {
            routes.push(IrqRouteRequest::Intx { info, guest_gsi: device.irq_id });
        }
        if let Some((start, end)) = parse_x86_passthrough_msi_vector_range(device) {
            routes.push(IrqRouteRequest::Msi { start: start as usize, end: end as usize });
        }
        proof {
            assert(routes@ =~= before + device_routes(models[i as int]));
            assert(models.take(i + 1).drop_last() =~= models.take(i as int));
        }
        i = i + 1;
    }
    proof {
        assert(models.take(i as int) =~= models);
    }
    routes
}

/// How the host interrupt of a device is found.
pub fn resolve_binding_irq(binding: BindingIrq) -> (resolution: IrqResolution)
    ensures
        resolution == irq_resolution(binding),
{
    match binding {
        BindingIrq::Id(irq) => IrqResolution::Known(irq),
        BindingIrq::Source(source) => match source {
            BindingIrqSource::AcpiGsi(gsi) => IrqResolution::Ask(IrqSource::AcpiGsi(gsi)),
            BindingIrqSource::AcpiGsiRoute(route) => IrqResolution::Ask(
                IrqSource::AcpiGsiRoute(route),
            ),
            BindingIrqSource::FdtInterrupt => IrqResolution::Unsupported,
        },
    }
}

/// How a forwarded interrupt is triggered.
pub fn x86_intx_forwarding_trigger(binding: &BindingIrq) -> (trigger: InterruptTriggerMode)
    ensures
        trigger == forwarding_trigger(*binding),
{
    match binding {
        BindingIrq::Source(BindingIrqSource::AcpiGsiRoute(route)) => {
            match route.trigger {
                AcpiIrqTrigger::Edge => InterruptTriggerMode::EdgeTriggered,
                AcpiIrqTrigger::Level => InterruptTriggerMode::LevelTriggered,
            }
        },
        _ => InterruptTriggerMode::LevelTriggered,
    }
}

/// What comes next once the interrupt of a device is known.
fn step_for_binding(binding: BindingIrq, guest_gsi: usize, activator: bool) -> (step: IntxStep)
    ensures
        step == binding_step(binding, guest_gsi, activator),
{
    let trigger = x86_intx_forwarding_trigger(&binding);
    match resolve_binding_irq(binding) {
        IrqResolution::Known(host_irq) => IntxStep::Register(
            IrqForwarding { guest_gsi, host_irq, trigger, activator },
        ),
        IrqResolution::Ask(source) => IntxStep::Resolve { source, guest_gsi, trigger, activator },
        IrqResolution::Unsupported => IntxStep::Fail(VmError::Unsupported),
    }
}

/// What comes next once ACPI has been asked for the interrupt of a passed-through device. A device
/// whose interrupt ACPI does not know is passed through without it. No line gets an activator here.
pub fn register_x86_passthrough_intx_route(lookup: AcpiLookup, guest_gsi: usize) -> (step: IntxStep)
    ensures
        step == passthrough_step(lookup, guest_gsi),
{
    match lookup {
        AcpiLookup::Found(route) => step_for_binding(
            BindingIrq::Source(BindingIrqSource::AcpiGsiRoute(route)),
            guest_gsi,
            false,
        ),
        _ => IntxStep::Ignore,
    }
}

/// What comes next once the host's drivers have been asked for the interrupt of the device that
/// held the host's filesystem. Its interrupt is unmasked once the guest enables the line, so the line
/// gets an activator.
pub fn register_x86_host_fs_passthrough_irq_route(lookup: BindingLookup, guest_gsi: usize) -> (step:
    IntxStep)
    ensures
        step == host_fs_step(lookup, guest_gsi),
{
    match lookup {
        BindingLookup::Found(binding) => step_for_binding(binding, guest_gsi, true),
        _ => IntxStep::Ignore,
    }
}

/// What comes next once the host has been asked for its interrupt.
pub fn forward_resolved_irq(
    guest_gsi: usize,
    trigger: InterruptTriggerMode,
    activator: bool,
    resolved: Result<IrqId, VmError>,
) -> (step: IntxStep)
    ensures
        step == resolved_step(guest_gsi, trigger, activator, resolved),
{
    match resolved {
        Ok(host_irq) => IntxStep::Register(
            IrqForwarding { guest_gsi, host_irq, trigger, activator },
        ),
        Err(error) => IntxStep::Fail(error),
    }
}

/// The interrupt of the device that held the host's filesystem. It sits on the root bus, so its pin
/// is wired to itself.
pub fn x86_host_fs_passthrough_pci_info(device: u8, function: u8, pin: u8) -> (info: PciInfo)
    ensures
        info == pci_info_of(
            X86PciIntxSpec {
                bus: 0,
                dev: device,
                func: function,
                pin,
                root_dev: device,
                root_func: function,
                root_pin: pin,
            },
        ),
{
    PciInfo {
        address: PciAddress { segment: 0, bus: 0, device, function },
        interrupt_pin: pin,
        interrupt_line: 0,
        intx_route: Some(
            PciIntxRoute { root_device: device, root_function: function, root_pin: pin },
        ),
    }
}

/// For the device that held the host's filesystem a route and an activator for its line are
/// registered together, exactly if the drivers know its interrupt and that leads to a host
/// interrupt. Otherwise neither is.
pub proof fn host_fs_route_comes_with_its_activator(
    lookup: BindingLookup,
    guest_gsi: usize,
    answer: Result<IrqId, VmError>,
)
    ensures
        registered(host_fs_step(lookup, guest_gsi), answer) == match lookup {
            BindingLookup::Found(binding) => match resolved_irq(binding, answer) {
                Some(host_irq) => Some(
                    IrqForwarding {
                        guest_gsi,
                        host_irq,
                        trigger: match binding {
                            BindingIrq::Source(BindingIrqSource::AcpiGsiRoute(route)) => {
                                match route.trigger {
                                    AcpiIrqTrigger::Edge => InterruptTriggerMode::EdgeTriggered,
                                    AcpiIrqTrigger::Level => InterruptTriggerMode::LevelTriggered,
                                }
                            },
                            _ => InterruptTriggerMode::LevelTriggered,
                        },
                        activator: true,
                    },
                ),
                None => None,
            },
            _ => None,
        },
{
}

/// For any other passed-through device a route without an activator is registered, exactly if ACPI
/// knows its interrupt and the host resolves it.
pub proof fn passthrough_route_comes_without_activator(
    lookup: AcpiLookup,
    guest_gsi: usize,
    answer: Result<IrqId, VmError>,
)
    ensures
        registered(passthrough_step(lookup, guest_gsi), answer) == match (lookup, answer) {
            (AcpiLookup::Found(route), Ok(host_irq)) => Some(
                IrqForwarding {
                    guest_gsi,
                    host_irq,
                    trigger: match route.trigger {
                        AcpiIrqTrigger::Edge => InterruptTriggerMode::EdgeTriggered,
                        AcpiIrqTrigger::Level => InterruptTriggerMode::LevelTriggered,
                    },
                    activator: false,
                },
            ),
            _ => None,
        },
{
}

/// The routes of joined lists of devices are the joined routes.
pub proof fn routes_follow_the_devices(
    first: Seq<PassThroughDeviceModel>,
    second: Seq<PassThroughDeviceModel>,
)
    ensures
        routes_of(first + second) == routes_of(first) + routes_of(second),
    decreases second.len(),
{
    if second.len() == 0 {
        assert(first + second =~= first);
        assert(routes_of(first) + routes_of(second) =~= routes_of(first));
    } else {
        routes_follow_the_devices(first, second.drop_last());
        assert((first + second).drop_last() =~= first + second.drop_last());
        assert(routes_of(first + second) =~= routes_of(first) + routes_of(second));
    }
}

/// A route for an interrupt pin comes from a device whose name describes that pin.
proof fn intx_routes_come_from_devices(devices: Seq<PassThroughDeviceModel>, at: int) -> (from: int)
    requires
        0 <= at < routes_of(devices).len(),
        routes_of(devices)[at] is Intx,
    ensures
        0 <= from < devices.len(),
        intx_route(devices[from].name) == Some(routes_of(devices)[at]->info),
        devices[from].irq_id == routes_of(devices)[at]->guest_gsi,
    decreases devices.len(),
{
    let before = routes_of(devices.drop_last());
    if at < before.len() {
        intx_routes_come_from_devices(devices.drop_last(), at)
    } else {
        let own = device_routes(devices.last());
        assert(routes_of(devices)[at] == own[at - before.len()]);
        devices.len() - 1
    }
}

/// A guest whose devices have an interrupt pin forwarded can configure the PCI function behind the
/// pin, and the root function it is routed through: both pass the filter for those devices.
pub proof fn forwarded_functions_are_reachable(devices: Seq<PassThroughDeviceModel>, at: int)
    requires
        0 <= at < routes_of(devices).len(),
        routes_of(devices)[at] is Intx,
    ensures
        ({
            let info = routes_of(devices)[at]->info;
            let allowed = pci_config::functions_of(devices);
            &&& allowed.contains(
                PciBdf {
                    bus: info.address.bus,
                    device: info.address.device,
                    function: info.address.function,
                },
            )
            &&& info.intx_route matches Some(route) && allowed.contains(
                PciBdf { bus: 0, device: route.root_device, function: route.root_function },
            )
        }),
{
    let from = intx_routes_come_from_devices(devices, at);
    let info = routes_of(devices)[at]->info;
    let endpoint = PciBdf {
        bus: info.address.bus,
        device: info.address.device,
        function: info.address.function,
    };
    let route = info.intx_route->0;
    let root = PciBdf { bus: 0, device: route.root_device, function: route.root_function };
    pci_laws::allowed_functions_are_those_described(devices);
    assert(pci_laws::describes(devices[from], endpoint));
    assert(pci_laws::describes(devices[from], root));
    assert(pci_config::functions_of(devices).contains(endpoint));
    assert(pci_config::functions_of(devices).contains(root));
}

} // verus!
