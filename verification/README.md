# axvisor_x86

x86 guest support for the axvisor hypervisor, verified with Verus.

The library holds what the hypervisor decides and computes for an x86 guest:

- the ACPI image of a guest (`acpi`, `aml`, `bytes`);
- host I/O ports that are passed through, and the filter before PCI configuration space (`port`,
  `pci_config`);
- the names of passed-through PCI devices and the forwarding of their interrupts (`intx`, `text`,
  `irq`);
- the way from a configuration text to a running guest (`vmcfg`, `vm_config`, `guest`).

Every function states what it returns in its `ensures`. What holds across functions is proved in
the `*_laws` modules and at the end of `irq`, `vm_config`, `vmcfg` and `aml`.

`vmtypes` is the boundary to the `axvmconfig` and `axvm-types` crates: it declares their types and
states what their functions return. Nothing else is trusted.

`app/` is the part that touches the machine: port instructions, the device traits, the host's
drivers and interrupt controllers, and the loop that takes the steps which `guest` asks for.
