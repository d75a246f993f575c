//! MMURTL/RS kernel core: the message-passing scheduler, memory management,
//! file system, device and boot logic of a small SMP operating system, with
//! every function stated by a contract and proved.
//!
//! The hardware is reached by the application crate around this library: the
//! functions here take the values that were read and give back the values to
//! write, so that every decision of the kernel is made in verified code.

pub mod acpi;
pub mod apic;
pub mod arch;
pub mod bits;
pub mod bytes;
pub mod fs;
pub mod gdt;
pub mod inline;
pub mod interrupts;
pub mod io;
pub mod ipc;
pub mod kernel;
pub mod keyboard;
pub mod line;
pub mod memory;
pub mod pci;
pub mod programs;
pub mod scheduler;
pub mod serial;
pub mod smp;
pub mod syscall;
pub mod text;
pub mod usb;
pub mod user_runtime;
pub mod userspace;
pub mod virtio;
