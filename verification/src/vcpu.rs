//! Per-VCPU bring-up logic and the exit-dispatch decisions: patching
//! the host's CPUID snapshot for a given CPU, classifying run exits,
//! and validating the host's capabilities at startup.

use vstd::prelude::*;
use crate::HvError;

verus! {

/// The KVM API version this crate is built against.
pub const KVM_API_VERSION: u32 = 12;

pub const KVM_EXIT_IO: u32 = 2;
pub const KVM_EXIT_HLT: u32 = 5;
pub const KVM_EXIT_SHUTDOWN: u32 = 8;
pub const KVM_EXIT_INTERNAL_ERROR: u32 = 17;

/// One CPUID leaf of the host's supported-CPUID snapshot.
#[derive(Debug, Clone, Copy, PartialEq, Eq, Structural)]
pub struct CpuidEntry {
    pub function: u32,
    pub index: u32,
    pub flags: u32,
    pub eax: u32,
    pub ebx: u32,
    pub ecx: u32,
    pub edx: u32,
}

/// How one leaf is rewritten for CPU `id`: the local APIC id moves
/// into the top byte of leaf 1's ebx (with the hypervisor bit set on
/// index 0), leaf 0xb carries the x2APIC id, and a 32-bit guest loses
/// the long-mode feature bit of leaf 0x80000001.
pub open spec fn cpuid_patched(e: CpuidEntry, id: u32, is_32bit: bool) -> CpuidEntry {
    if e.function == 1 {
        let ebx = (e.ebx & !0xff00_0000u32) | (id << 24u32);
        if e.index == 0 {
            CpuidEntry { ebx, ecx: e.ecx | 0x8000_0000u32, ..e }
        } else {
            CpuidEntry { ebx, ..e }
        }
    } else if e.function == 0xb {
        CpuidEntry { edx: id, ..e }
    } else if e.function == 0x8000_0001 && is_32bit {
        CpuidEntry { ecx: e.ecx & !0x2000_0000u32, ..e }
    } else {
        e
    }
}

/// Rewrite the whole CPUID snapshot for CPU `id`.
pub fn configure_cpuid(entries: &mut Vec<CpuidEntry>, id: u32, is_32bit: bool)
    ensures
        final(entries)@.len() == old(entries)@.len(),
        forall|i: int|
            0 <= i < old(entries)@.len() ==> final(entries)@[i] == cpuid_patched(
                old(entries)@[i],
                id,
                is_32bit,
            ),
{
    let n = entries.len();
    let mut i: usize = 0;
    while i < n
        invariant
            i <= n,
            n == entries@.len(),
            entries@.len() == old(entries)@.len(),
            forall|j: int|
                0 <= j < i ==> entries@[j] == cpuid_patched(old(entries)@[j], id, is_32bit),
            forall|j: int| i <= j < n ==> entries@[j] == old(entries)@[j],
        decreases n - i,
    {
        let e = entries[i];
        let mut ne = e;
        if e.function == 1 {
            ne.ebx = (e.ebx & !0xff00_0000u32) | (id << 24u32);
            if e.index == 0 {
                ne.ecx = e.ecx | 0x8000_0000u32;
            }
        } else if e.function == 0xb {
            ne.edx = id;
        } else if e.function == 0x8000_0001 && is_32bit {
            ne.ecx = e.ecx & !0x2000_0000u32;
        }
        entries.set(i, ne);
        i += 1;
    }
}

/// What the run loop does with a VCPU exit.
#[derive(Debug, Clone, Copy, PartialEq, Eq, Structural)]
pub enum ExitAction {
    /// A port access: route it to the bus, then keep running.
    DispatchIo,
    /// Halt, shutdown or an internal error: leave the run loop.
    Stop,
    /// Anything else is only logged; keep running.
    Ignore,
}

/// Classify a VCPU exit reason.
pub fn classify_exit(reason: u32) -> (r: ExitAction)
    ensures
        r == (if reason == KVM_EXIT_IO {
            ExitAction::DispatchIo
        } else if reason == KVM_EXIT_HLT || reason == KVM_EXIT_SHUTDOWN || reason
            == KVM_EXIT_INTERNAL_ERROR {
            ExitAction::Stop
        } else {
            ExitAction::Ignore
        }),
{
    if reason == KVM_EXIT_IO {
        ExitAction::DispatchIo
    } else if reason == KVM_EXIT_HLT || reason == KVM_EXIT_SHUTDOWN || reason
        == KVM_EXIT_INTERNAL_ERROR {
        ExitAction::Stop
    } else {
        ExitAction::Ignore
    }
}

/// The first problem with the host's virtualization support, in the
/// order it is probed: the API version, the four required extensions,
/// then the VCPU run-structure mapping size.
pub open spec fn host_check_err(
    api_version: u32,
    cap_irqchip: i32,
    cap_user_memory: i32,
    cap_ext_cpuid: i32,
    cap_pit2: i32,
    vcpu_mmap_size: i64,
    run_struct_size: usize,
) -> Option<HvError> {
    if api_version != KVM_API_VERSION {
        Some(HvError::KvmApiVersionMismatch)
    } else if cap_irqchip <= 0 || cap_user_memory <= 0 || cap_ext_cpuid <= 0 || cap_pit2 <= 0 {
        Some(HvError::KvmExtensionNotSupported)
    } else if vcpu_mmap_size <= 0 || vcpu_mmap_size as int > usize::MAX as int || (
    vcpu_mmap_size as int) < run_struct_size {
        Some(HvError::InvalidVcpuMmapSize)
    } else {
        None
    }
}

/// Validate the host's capabilities; returns the usable run-structure
/// mapping size.
pub fn validate_host(
    api_version: u32,
    cap_irqchip: i32,
    cap_user_memory: i32,
    cap_ext_cpuid: i32,
    cap_pit2: i32,
    vcpu_mmap_size: i64,
    run_struct_size: usize,
) -> (r: Result<usize, HvError>)
    requires
        run_struct_size < 0x8000_0000_0000_0000,
    ensures
        r is Ok <==> host_check_err(
            api_version,
            cap_irqchip,
            cap_user_memory,
            cap_ext_cpuid,
            cap_pit2,
            vcpu_mmap_size,
            run_struct_size,
        ) is None,
        r is Ok ==> r.unwrap() as int == vcpu_mmap_size,
        r is Err ==> r == Err::<usize, HvError>(
            host_check_err(
                api_version,
                cap_irqchip,
                cap_user_memory,
                cap_ext_cpuid,
                cap_pit2,
                vcpu_mmap_size,
                run_struct_size,
            ).unwrap(),
        ),
{
    if api_version != KVM_API_VERSION {
        return Err(HvError::KvmApiVersionMismatch);
    }
    if cap_irqchip <= 0 || cap_user_memory <= 0 || cap_ext_cpuid <= 0 || cap_pit2 <= 0 {
        return Err(HvError::KvmExtensionNotSupported);
    }
    if vcpu_mmap_size <= 0 || vcpu_mmap_size as u64 > usize::MAX as u64 || vcpu_mmap_size
        < run_struct_size as i64 {
        return Err(HvError::InvalidVcpuMmapSize);
    }
    Ok(vcpu_mmap_size as usize)
}

} // verus!
