//! What holds of the forwarding of interrupts.

use vstd::prelude::*;

use axvm_types::InterruptTriggerMode;

use crate::error::VmError;
use crate::intx;
use crate::intx::X86PciIntxSpec;
use crate::irq;
use crate::irq::{
    AcpiGsiRoute, AcpiIrqTrigger, AcpiLookup, BindingIrq, BindingIrqSource, BindingLookup, IntxStep,
    IrqForwarding, IrqId, IrqResolution, IrqRouteRequest, IrqSource,
};
use crate::vmtypes::PassThroughDeviceModel;

verus! {

/// An interrupt is forwarded as edge-triggered exactly if ACPI describes its route and says that it
/// is triggered by edges. Nothing else of the route matters, and every other interrupt is
/// level-triggered.
pub proof fn only_acpi_edges_are_edges(binding: BindingIrq)
    ensures
        irq::forwarding_trigger(binding) == InterruptTriggerMode::EdgeTriggered <==> {
            binding matches BindingIrq::Source(BindingIrqSource::AcpiGsiRoute(route))
                && route.trigger == AcpiIrqTrigger::Edge
        },
        irq::forwarding_trigger(binding) == InterruptTriggerMode::EdgeTriggered
            || irq::forwarding_trigger(binding) == InterruptTriggerMode::LevelTriggered,
{
}

/// Routes that are triggered alike are forwarded alike, however else they differ.
pub proof fn the_trigger_follows_the_route(route: AcpiGsiRoute, other: AcpiGsiRoute)
    ensures
        route.trigger == other.trigger <==> irq::forwarding_trigger(
            BindingIrq::Source(BindingIrqSource::AcpiGsiRoute(route)),
        ) == irq::forwarding_trigger(BindingIrq::Source(BindingIrqSource::AcpiGsiRoute(other))),
{
}

/// A known interrupt is taken as it is, an interrupt that ACPI names is asked for by exactly that
/// name, and one that a device tree names cannot be found.
pub proof fn interrupts_are_asked_for_by_their_names(irq: IrqId, gsi: u32, route: AcpiGsiRoute)
    ensures
        irq::irq_resolution(BindingIrq::Id(irq)) == IrqResolution::Known(irq),
        irq::irq_resolution(BindingIrq::Source(BindingIrqSource::AcpiGsi(gsi)))
            == IrqResolution::Ask(IrqSource::AcpiGsi(gsi)),
        irq::irq_resolution(BindingIrq::Source(BindingIrqSource::AcpiGsiRoute(route)))
            == IrqResolution::Ask(IrqSource::AcpiGsiRoute(route)),
        irq::irq_resolution(BindingIrq::Source(BindingIrqSource::FdtInterrupt))
            == IrqResolution::Unsupported,
{
}

/// The device that held the host's filesystem: where the drivers know nothing, nothing is done.
/// Otherwise its interrupt is forwarded at once, or after the host has been asked for exactly what
/// the drivers named, to the given line and with an activator.
pub proof fn the_filesystem_device_is_forwarded(lookup: BindingLookup, guest_gsi: usize)
    ensures
        match irq::host_fs_step(lookup, guest_gsi) {
            IntxStep::Ignore => !(lookup is Found),
            IntxStep::Register(forwarding) => {
                &&& lookup == BindingLookup::Found(BindingIrq::Id(forwarding.host_irq))
                &&& forwarding.guest_gsi == guest_gsi
                &&& forwarding.trigger == InterruptTriggerMode::LevelTriggered
                &&& forwarding.activator
            },
            IntxStep::Resolve { source, guest_gsi: line, trigger, activator } => {
                &&& line == guest_gsi
                &&& activator
                &&& match source {
                    IrqSource::AcpiGsi(gsi) => {
                        &&& lookup == BindingLookup::Found(
                            BindingIrq::Source(BindingIrqSource::AcpiGsi(gsi)),
                        )
                        &&& trigger == InterruptTriggerMode::LevelTriggered
                    },
                    IrqSource::AcpiGsiRoute(route) => {
                        &&& lookup == BindingLookup::Found(
                            BindingIrq::Source(BindingIrqSource::AcpiGsiRoute(route)),
                        )
                        &&& trigger == InterruptTriggerMode::EdgeTriggered <==> route.trigger
                            == AcpiIrqTrigger::Edge
                    },
                }
            },
            IntxStep::Fail(error) => {
                &&& lookup == BindingLookup::Found(
                    BindingIrq::Source(BindingIrqSource::FdtInterrupt),
                )
                &&& error == VmError::Unsupported
            },
        },
{
}

/// Any other passed-through device: the host is asked for its interrupt exactly if ACPI knows it, by
/// the route that ACPI gave, for the given line and without an activator. Otherwise nothing is done.
pub proof fn passed_through_pins_are_forwarded(lookup: AcpiLookup, guest_gsi: usize)
    ensures
        match irq::passthrough_step(lookup, guest_gsi) {
            IntxStep::Ignore => !(lookup is Found),
            IntxStep::Resolve { source, guest_gsi: line, trigger, activator } => {
                &&& source matches IrqSource::AcpiGsiRoute(route) && lookup == AcpiLookup::Found(
                    route,
                ) && (trigger == InterruptTriggerMode::EdgeTriggered <==> route.trigger
                    == AcpiIrqTrigger::Edge)
                &&& line == guest_gsi
                &&& !activator
            },
            _ => false,
        },
{
}

/// The host's answer decides: its interrupt is forwarded to the line, with the trigger and the
/// activator that were settled before, or its error is reported.
pub proof fn the_answer_decides(
    guest_gsi: usize,
    trigger: InterruptTriggerMode,
    activator: bool,
    host_irq: IrqId,
    error: VmError,
)
    ensures
        irq::resolved_step(guest_gsi, trigger, activator, Ok(host_irq)) == IntxStep::Register(
            IrqForwarding { guest_gsi, host_irq, trigger, activator },
        ),
        irq::resolved_step(guest_gsi, trigger, activator, Err(error)) == IntxStep::Fail(error),
{
}

/// The PCI function of an interrupt pin is on segment 0 at the described place, has the described
/// pin and no line of its own, and is routed as described.
pub proof fn the_pin_is_that_of_the_description(spec: X86PciIntxSpec)
    ensures
        ({
            let info = irq::pci_info_of(spec);
            &&& info.address.segment == 0
            &&& info.address.bus == spec.bus
            &&& info.address.device == spec.dev
            &&& info.address.function == spec.func
            &&& info.interrupt_pin == spec.pin
            &&& info.interrupt_line == 0
            &&& info.intx_route matches Some(route) && route.root_device == spec.root_dev
                && route.root_function == spec.root_func && route.root_pin == spec.root_pin
        }),
{
}

/// A device asks for the forwarding of its pin exactly if its name describes one, to its own line,
/// and behind that for the forwarding of its vectors exactly if its name describes some.
pub proof fn a_device_asks_for_what_its_name_describes(device: PassThroughDeviceModel)
    ensures
        ({
            let routes = irq::routes_of(seq![device]);
            let pin = intx::intx_spec(device.name);
            let vectors = intx::msi_vector_range(device.name);
            let first = if pin is Some {
                1int
            } else {
                0int
            };
            &&& routes.len() == first + if vectors is Some {
                1int
            } else {
                0int
            }
            &&& pin matches Some(spec) ==> routes[0] == (IrqRouteRequest::Intx {
                info: irq::pci_info_of(spec),
                guest_gsi: device.irq_id,
            })
            &&& vectors matches Some((start, end)) ==> (routes[first] matches IrqRouteRequest::Msi {
                start: low,
                end: high,
            } && low == start && high == end)
        }),
        irq::routes_of(Seq::empty()) == Seq::<IrqRouteRequest>::empty(),
{
    assert(seq![device].drop_last() =~= Seq::empty());
    assert(irq::routes_of(Seq::<PassThroughDeviceModel>::empty()) =~= Seq::empty());
    assert(irq::routes_of(seq![device]) =~= irq::device_routes(device));
}

/// A pin is asked for by exactly the names that describe one.
pub proof fn pins_come_from_names(name: Seq<char>)
    ensures
        match (intx::intx_spec(name), irq::intx_route(name)) {
            (Some(spec), Some(info)) => info == irq::pci_info_of(spec),
            (None, None) => true,
            _ => false,
        },
{
}

} // verus!
