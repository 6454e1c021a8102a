//! x86 guest support for a type-1 hypervisor.
//!
//! The library decides and computes; its user touches the machine.
//!
//! - [`acpi`] builds the ACPI image that an x86 guest finds in its memory, with [`aml`] for the
//!   definition blocks and [`bytes`] for the layout of numbers.
//! - [`port`] and [`pci_config`] are devices that pass host I/O ports through to a guest, the latter
//!   behind a filter on PCI functions.
//! - [`intx`] reads the names of passed-through PCI devices, with [`text`] for the scanning, and
//!   [`irq`] decides how their interrupts reach the guest.
//! - [`vmcfg`], [`vm_config`] and [`guest`] lead from configuration texts to running guests.
//! - [`vmtypes`] holds what the proofs know of the configuration crates.
//!
//! The modules whose names end in `_laws` prove what holds across several functions.

pub mod acpi;
pub mod acpi_laws;
pub mod acpi_table_laws;
pub mod aml;
pub mod aml_laws;
pub mod byte_laws;
pub mod bytes;
pub mod config_laws;
pub mod error;
pub mod guest;
pub mod guest_laws;
pub mod intx;
pub mod intx_laws;
pub mod irq;
pub mod irq_laws;
pub mod name_laws;
pub mod pci_config;
pub mod pci_laws;
pub mod port;
pub mod port_laws;
pub mod text;
pub mod text_laws;
pub mod vm_config;
pub mod vmcfg;
pub mod vmtypes;
