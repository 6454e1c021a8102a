//! Forwarding of interrupts.

use axvisor_x86::error::VmError;
use axvisor_x86::irq::{
    forward_resolved_irq, parse_x86_passthrough_intx_route, parse_x86_passthrough_msi_vector_range,
    register_x86_host_fs_passthrough_irq_route, register_x86_passthrough_intx_route,
    register_x86_passthrough_irq_routes, resolve_binding_irq, x86_host_fs_passthrough_pci_info,
    x86_intx_forwarding_trigger, AcpiGsiController, AcpiGsiRoute, AcpiIrqPolarity, AcpiIrqTrigger,
    AcpiLookup, BindingIrq, BindingIrqSource, BindingLookup, IntxStep, IrqForwarding, IrqId,
    IrqResolution, IrqRouteRequest, IrqSource, PciAddress, PciInfo, PciIntxRoute,
};
use axvisor_x86::pci_config::HostPciConfigPortPassthrough;
use axvm_types::{AccessWidth, InterruptTriggerMode, PassThroughDeviceConfig, Port};
use axvmconfig::AxVMCrateConfig;

const FULL: &str = "pci-intx:bus=1,dev=2,func=3,pin=4,root_dev=5,root_func=6,root_pin=7";

fn device(name: &str, irq_id: usize) -> PassThroughDeviceConfig {
    PassThroughDeviceConfig {
        name: name.to_string(),
        irq_id,
        ..PassThroughDeviceConfig::default()
    }
}

fn full_info() -> PciInfo {
    PciInfo {
        address: PciAddress {
            segment: 0,
            bus: 1,
            device: 2,
            function: 3,
        },
        interrupt_pin: 4,
        interrupt_line: 0,
        intx_route: Some(PciIntxRoute {
            root_device: 5,
            root_function: 6,
            root_pin: 7,
        }),
    }
}

fn route(trigger: AcpiIrqTrigger) -> AcpiGsiRoute {
    AcpiGsiRoute {
        gsi: 19,
        vector: 0x33,
        controller: AcpiGsiController::IoApic,
        controller_id: 1,
        controller_address: 0xfec0_0000,
        controller_input: 19,
        trigger,
        polarity: AcpiIrqPolarity::ActiveLow,
    }
}

const IRQ: IrqId = IrqId {
    domain: 2,
    hwirq: 40,
};

#[test]
fn names_ask_for_pins_and_vectors() {
    assert_eq!(
        parse_x86_passthrough_intx_route(&device(FULL, 9)),
        Some(full_info())
    );
    assert_eq!(parse_x86_passthrough_intx_route(&device("pci-intx:bus=1", 9)), None);
    assert_eq!(
        parse_x86_passthrough_msi_vector_range(&device("pci-msi:msi_start=1,msi_end=3", 9)),
        Some((1, 3))
    );
}

#[test]
fn routes_are_listed_in_order() {
    let mut config = AxVMCrateConfig::default();
    config.devices.passthrough_devices.push(device("uart", 4));
    config
        .devices
        .passthrough_devices
        .push(device(&format!("{FULL},msi_start=64,msi_end=66"), 10));
    config
        .devices
        .passthrough_devices
        .push(device("pci-msi:vector_end=80", 11));
    config.devices.passthrough_devices.push(device(FULL, 12));
    assert_eq!(
        register_x86_passthrough_irq_routes(&config),
        vec![
            IrqRouteRequest::Intx {
                info: full_info(),
                guest_gsi: 10,
            },
            IrqRouteRequest::Msi { start: 64, end: 66 },
            IrqRouteRequest::Msi { start: 80, end: 80 },
            IrqRouteRequest::Intx {
                info: full_info(),
                guest_gsi: 12,
            },
        ]
    );
}

#[test]
fn forwarded_devices_pass_the_filter() {
    let devices = [device(FULL, 10)];
    let mut filter = HostPciConfigPortPassthrough::new(&devices).ok().unwrap();
    for select in [0x8001_1300, 0x8000_2e00] {
        filter
            .handle_write(Port::new(0xcf8), AccessWidth::Dword, select)
            .unwrap();
        assert!(filter.selected_bdf_allowed());
    }
}

#[test]
fn interrupts_are_resolved_by_the_host() {
    assert_eq!(resolve_binding_irq(BindingIrq::Id(IRQ)), IrqResolution::Known(IRQ));
    assert_eq!(
        resolve_binding_irq(BindingIrq::Source(BindingIrqSource::AcpiGsi(20))),
        IrqResolution::Ask(IrqSource::AcpiGsi(20))
    );
    let acpi = route(AcpiIrqTrigger::Level);
    assert_eq!(
        resolve_binding_irq(BindingIrq::Source(BindingIrqSource::AcpiGsiRoute(acpi))),
        IrqResolution::Ask(IrqSource::AcpiGsiRoute(acpi))
    );
    assert_eq!(
        resolve_binding_irq(BindingIrq::Source(BindingIrqSource::FdtInterrupt)),
        IrqResolution::Unsupported
    );
}

#[test]
fn only_acpi_routes_are_triggered_by_edges() {
    let edge = BindingIrq::Source(BindingIrqSource::AcpiGsiRoute(route(AcpiIrqTrigger::Edge)));
    let level = BindingIrq::Source(BindingIrqSource::AcpiGsiRoute(route(AcpiIrqTrigger::Level)));
    assert_eq!(
        x86_intx_forwarding_trigger(&edge),
        InterruptTriggerMode::EdgeTriggered
    );
    for binding in [
        level,
        BindingIrq::Id(IRQ),
        BindingIrq::Source(BindingIrqSource::AcpiGsi(1)),
        BindingIrq::Source(BindingIrqSource::FdtInterrupt),
    ] {
        assert_eq!(
            x86_intx_forwarding_trigger(&binding),
            InterruptTriggerMode::LevelTriggered
        );
    }
}

#[test]
fn acpi_decides_on_passed_through_pins() {
    let acpi = route(AcpiIrqTrigger::Edge);
    assert_eq!(
        register_x86_passthrough_intx_route(AcpiLookup::Found(acpi), 10),
        IntxStep::Resolve {
            source: IrqSource::AcpiGsiRoute(acpi),
            guest_gsi: 10,
            trigger: InterruptTriggerMode::EdgeTriggered,
            activator: false,
        }
    );
    for lookup in [AcpiLookup::Unavailable, AcpiLookup::NotFound, AcpiLookup::Failed] {
        assert_eq!(
            register_x86_passthrough_intx_route(lookup, 10),
            IntxStep::Ignore
        );
    }
}

#[test]
fn drivers_decide_on_the_filesystem_device() {
    assert_eq!(
        register_x86_host_fs_passthrough_irq_route(BindingLookup::Found(BindingIrq::Id(IRQ)), 11),
        IntxStep::Register(IrqForwarding {
            guest_gsi: 11,
            host_irq: IRQ,
            trigger: InterruptTriggerMode::LevelTriggered,
            activator: true,
        })
    );
    let fdt = BindingIrq::Source(BindingIrqSource::FdtInterrupt);
    assert_eq!(
        register_x86_host_fs_passthrough_irq_route(BindingLookup::Found(fdt), 11),
        IntxStep::Fail(VmError::Unsupported)
    );
    for lookup in [BindingLookup::NotFound, BindingLookup::Failed] {
        assert_eq!(
            register_x86_host_fs_passthrough_irq_route(lookup, 11),
            IntxStep::Ignore
        );
    }
}

#[test]
fn resolved_interrupts_are_forwarded() {
    for activator in [false, true] {
        assert_eq!(
            forward_resolved_irq(10, InterruptTriggerMode::EdgeTriggered, activator, Ok(IRQ)),
            IntxStep::Register(IrqForwarding {
                guest_gsi: 10,
                host_irq: IRQ,
                trigger: InterruptTriggerMode::EdgeTriggered,
                activator,
            })
        );
        let error = VmError::Host { code: 3 };
        assert_eq!(
            forward_resolved_irq(10, InterruptTriggerMode::EdgeTriggered, activator, Err(error)),
            IntxStep::Fail(error)
        );
    }
}

#[test]
fn only_the_filesystem_device_gets_an_activator() {
    let acpi = route(AcpiIrqTrigger::Level);
    let binding = BindingIrq::Source(BindingIrqSource::AcpiGsiRoute(acpi));
    let resolve = |activator| IntxStep::Resolve {
        source: IrqSource::AcpiGsiRoute(acpi),
        guest_gsi: 11,
        trigger: InterruptTriggerMode::LevelTriggered,
        activator,
    };
    assert_eq!(
        register_x86_host_fs_passthrough_irq_route(BindingLookup::Found(binding), 11),
        resolve(true)
    );
    assert_eq!(
        register_x86_passthrough_intx_route(AcpiLookup::Found(acpi), 11),
        resolve(false)
    );
}

#[test]
fn the_filesystem_device_sits_on_the_root_bus() {
    assert_eq!(
        x86_host_fs_passthrough_pci_info(3, 1, 2),
        PciInfo {
            address: PciAddress {
                segment: 0,
                bus: 0,
                device: 3,
                function: 1,
            },
            interrupt_pin: 2,
            interrupt_line: 0,
            intx_route: Some(PciIntxRoute {
                root_device: 3,
                root_function: 1,
                root_pin: 2,
            }),
        }
    );
}
