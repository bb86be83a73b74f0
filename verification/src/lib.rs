//! A minimal type-2 hypervisor core for x86_64: kernel image loading and
//! boot-protocol selection, low-memory platform tables, and a port-I/O
//! device model. The host-facing plumbing (KVM ioctls, mmap, threads)
//! lives outside this library; everything here is verified.

use vstd::prelude::*;

pub mod acpi;
pub mod boot;
pub mod bytes;
pub mod device;
pub mod elf;
pub mod linux_boot;
pub mod load;
pub mod memory;
pub mod multiboot;
pub mod params;
pub mod pvh;
pub mod vcpu;

verus! {

/// Failures surfaced by the hypervisor core.
#[derive(Debug, Clone, Copy, PartialEq, Eq, Structural)]
pub enum HvError {
    /// The host's KVM API version differs from the one this crate was built for.
    KvmApiVersionMismatch,
    /// A required KVM extension (IRQ chip, user memory, extended CPUID
    /// or PIT2) is missing.
    KvmExtensionNotSupported,
    /// The VCPU run-structure mapping size reported by the host is too small.
    InvalidVcpuMmapSize,
    /// None of the supported boot protocols accepted the kernel image.
    InvalidKernelImageFormat,
    /// The kernel command line exceeds the protocol's capacity.
    CmdlineTooLong,
    /// The initial ramdisk does not fit below the protocol's address limit.
    InitrdTooLarge,
    /// Two devices on the port-I/O bus would claim overlapping port ranges.
    DeviceRangeOverlap,
    /// A write to guest-physical memory fell outside the memory region.
    OutOfGuestMemory,
}

} // verus!
