//! Boot protocols and VCPU-visible platform state: the protocol tag, the
//! segment templates and their GDT encodings, the segment/control
//! register setup per protocol, and the guest's low-memory descriptor
//! tables and identity-mapping page tables.

use vstd::prelude::*;
use crate::HvError;
use crate::bytes::{le4, le8};
use crate::bytes::{put_u32_le, put_u64_le};
use crate::bytes::{lemma_le4_unchanged, lemma_le8_unchanged, unchanged_outside};

verus! {

pub const GDT_BASE: u64 = 0x0500;
pub const IDT_BASE: u64 = 0x0530;
pub const PAGE_TABLE_ADDR: u64 = 0x8000;
pub const STACK_POINTER: u64 = 0x0008_0000;

pub const EBDA_START: u64 = 0x0009_fc00;
pub const RSDP_ADDR: u64 = 0x000e_0000;
pub const HIGH_MEMORY_START: u64 = 0x0010_0000;

pub const MULTIBOOT_BOOTLOADER_MAGIC: u32 = 0x2BAD_B002;

/// The boot protocol selected for a kernel image. All but `Linux64`
/// enter the guest in 32-bit protected mode.
#[derive(Debug, Clone, Copy, PartialEq, Eq, Structural)]
pub enum BootProtocol {
    Linux32,
    Linux64,
    Pvh,
    Multiboot,
}

/// The immutable result of loading a kernel image: the protocol, the
/// guest-physical entry point, and the address of the parameter block
/// handed to the guest.
#[derive(Debug, Clone, Copy, PartialEq, Eq, Structural)]
pub struct Bootable {
    pub protocol: BootProtocol,
    pub entry_addr: u64,
    pub params_addr: u64,
}

/// A segment register as the VM facility consumes it.
#[derive(Debug, Clone, Copy, PartialEq, Eq, Structural)]
pub struct SegmentRegister {
    pub base: u64,
    pub limit: u32,
    pub selector: u16,
    pub type_: u8,
    pub present: u8,
    pub dpl: u8,
    pub db: u8,
    pub s: u8,
    pub l: u8,
    pub g: u8,
    pub avl: u8,
    pub unusable: u8,
}

/// A descriptor-table register (GDTR/IDTR).
#[derive(Debug, Clone, Copy, PartialEq, Eq, Structural)]
pub struct TableRegister {
    pub base: u64,
    pub limit: u16,
}

/// The special registers the VCPU bring-up configures.
#[derive(Debug, Clone, Copy, PartialEq, Eq, Structural)]
pub struct Sregs {
    pub cs: SegmentRegister,
    pub ds: SegmentRegister,
    pub es: SegmentRegister,
    pub fs: SegmentRegister,
    pub gs: SegmentRegister,
    pub ss: SegmentRegister,
    pub tr: SegmentRegister,
    pub ldt: SegmentRegister,
    pub gdt: TableRegister,
    pub idt: TableRegister,
    pub cr0: u64,
    pub cr2: u64,
    pub cr3: u64,
    pub cr4: u64,
    pub cr8: u64,
    pub efer: u64,
    pub apic_base: u64,
}

/// The general registers the VCPU bring-up configures.
#[derive(Debug, Clone, Copy, PartialEq, Eq, Structural)]
pub struct Regs {
    pub rax: u64,
    pub rbx: u64,
    pub rcx: u64,
    pub rdx: u64,
    pub rsi: u64,
    pub rdi: u64,
    pub rsp: u64,
    pub rbp: u64,
    pub r8: u64,
    pub r9: u64,
    pub r10: u64,
    pub r11: u64,
    pub r12: u64,
    pub r13: u64,
    pub r14: u64,
    pub r15: u64,
    pub rip: u64,
    pub rflags: u64,
}

/// A segment template: selector, base, limit, and the raw access and
/// flag bytes of its descriptor.
#[derive(Debug, Clone, Copy, PartialEq, Eq, Structural)]
pub struct Segment {
    pub selector: u16,
    pub base: u64,
    pub limit: u32,
    pub access: u8,
    pub flags: u8,
}

/// The 8-byte GDT descriptor encoding of a segment template.
pub open spec fn gdt_entry_spec(s: Segment) -> u64 {
    ((s.base & 0xffff) << 16) | ((s.base & 0xff_0000) << 16) | ((s.base & 0xff00_0000) << 32) | (
    s.limit as u64 & 0xffff) | ((s.limit as u64 & 0xf_0000) << 32) | ((s.access as u64) << 40) | ((
    s.flags as u64) << 52)
}

pub open spec fn code_segment32_spec() -> Segment {
    Segment { selector: 0x10, base: 0, limit: 0xffff_ffff, access: 0x9a, flags: 0xc }
}

pub open spec fn code_segment64_spec() -> Segment {
    Segment { selector: 0x10, base: 0, limit: 0xfffff, access: 0x9a, flags: 0xa }
}

pub open spec fn data_segment_spec() -> Segment {
    Segment { selector: 0x18, base: 0, limit: 0xfffff, access: 0x96, flags: 0xc }
}

pub open spec fn tss_segment_spec() -> Segment {
    Segment { selector: 0x20, base: 0, limit: 0xfffff, access: 0x89, flags: 0x8 }
}

pub fn code_segment32() -> (s: Segment)
    ensures
        s == code_segment32_spec(),
{
    Segment { selector: 0x10, base: 0, limit: 0xffff_ffff, access: 0x9a, flags: 0xc }
}

pub fn code_segment64() -> (s: Segment)
    ensures
        s == code_segment64_spec(),
{
    Segment { selector: 0x10, base: 0, limit: 0xfffff, access: 0x9a, flags: 0xa }
}

pub fn data_segment() -> (s: Segment)
    ensures
        s == data_segment_spec(),
{
    Segment { selector: 0x18, base: 0, limit: 0xfffff, access: 0x96, flags: 0xc }
}

pub fn tss_segment() -> (s: Segment)
    ensures
        s == tss_segment_spec(),
{
    Segment { selector: 0x20, base: 0, limit: 0xfffff, access: 0x89, flags: 0x8 }
}

impl Segment {
    /// The 8-byte descriptor this template encodes to in the GDT.
    pub fn gdt_entry(&self) -> (r: u64)
        ensures
            r == gdt_entry_spec(*self),
    {
        ((self.base & 0xffff) << 16) | ((self.base & 0xff_0000) << 16) | ((self.base
            & 0xff00_0000) << 32) | (self.limit as u64 & 0xffff) | ((self.limit as u64
            & 0xf_0000) << 32) | ((self.access as u64) << 40) | ((self.flags as u64) << 52)
    }

    /// The unpacked segment register derived from this template: every
    /// field is the documented bit slice of the access and flag bytes.
    pub fn segment_register(&self) -> (r: SegmentRegister)
        ensures
            r.base == self.base,
            r.limit == self.limit,
            r.selector == self.selector,
            r.type_ == self.access & 0xf,
            r.s == (self.access >> 4) & 1,
            r.dpl == (self.access >> 5) & 3,
            r.present == (self.access >> 7) & 1,
            r.avl == self.flags & 1,
            r.l == (self.flags >> 1) & 1,
            r.db == (self.flags >> 2) & 1,
            r.g == (self.flags >> 3) & 1,
            r.unusable == (!self.access >> 7) & 1,
    {
        SegmentRegister {
            base: self.base,
            limit: self.limit,
            selector: self.selector,
            type_: self.access & 0xf,
            present: (self.access >> 7) & 1,
            dpl: (self.access >> 5) & 3,
            db: (self.flags >> 2) & 1,
            s: (self.access >> 4) & 1,
            l: (self.flags >> 1) & 1,
            g: (self.flags >> 3) & 1,
            avl: self.flags & 1,
            unusable: (!self.access >> 7) & 1,
        }
    }
}

impl BootProtocol {
    /// Whether the guest enters in 32-bit protected mode.
    pub fn is_32bit(self) -> (r: bool)
        ensures
            r == (self != BootProtocol::Linux64),
    {
        match self {
            BootProtocol::Linux32 => true,
            BootProtocol::Linux64 => false,
            BootProtocol::Pvh => true,
            BootProtocol::Multiboot => true,
        }
    }

    /// The protocol's final overrides of the special registers: PVH
    /// requires CR0 with only PE set and CR4 clear; the other protocols
    /// leave the registers as the common setup produced them.
    pub fn configure_sregs(self, sregs: &mut Sregs)
        ensures
            self == BootProtocol::Pvh ==> *final(sregs) == (Sregs {
                cr0: 1,
                cr4: 0,
                ..*old(sregs)
            }),
            self != BootProtocol::Pvh ==> *final(sregs) == *old(sregs),
    {
        match self {
            BootProtocol::Pvh => {
                sregs.cr0 = 1;
                sregs.cr4 = 0;
            },
            _ => {},
        }
    }

    /// How the parameter-block pointer and entry flags are handed to the
    /// guest: Linux passes the block in rsi, PVH and Multiboot in rbx;
    /// Multiboot additionally presents its magic in rax; PVH and
    /// Multiboot clear the flag bits their specifications demand.
    pub fn configure_regs(self, regs: &mut Regs, params_addr: u64)
        ensures
            self == BootProtocol::Linux32 ==> *final(regs) == (Regs {
                rsi: params_addr,
                rbp: 0,
                rdi: 0,
                rbx: 0,
                ..*old(regs)
            }),
            self == BootProtocol::Linux64 ==> *final(regs) == (Regs {
                rsi: params_addr,
                ..*old(regs)
            }),
            self == BootProtocol::Pvh ==> *final(regs) == (Regs {
                rbx: params_addr,
                rflags: old(regs).rflags & !0x2_0300u64,
                ..*old(regs)
            }),
            self == BootProtocol::Multiboot ==> *final(regs) == (Regs {
                rax: MULTIBOOT_BOOTLOADER_MAGIC as u64,
                rbx: params_addr,
                rflags: old(regs).rflags & !0x2_0200u64,
                ..*old(regs)
            }),
    {
        match self {
            BootProtocol::Linux32 => {
                regs.rsi = params_addr;
                regs.rbp = 0;
                regs.rdi = 0;
                regs.rbx = 0;
            },
            BootProtocol::Linux64 => {
                regs.rsi = params_addr;
            },
            BootProtocol::Pvh => {
                regs.rbx = params_addr;
                // clear TF (bit 8), IF (bit 9) and VM (bit 17)
                regs.rflags = regs.rflags & !0x2_0300u64;
            },
            BootProtocol::Multiboot => {
                regs.rax = MULTIBOOT_BOOTLOADER_MAGIC as u64;
                regs.rbx = params_addr;
                // clear IF (bit 9) and VM (bit 17)
                regs.rflags = regs.rflags & !0x2_0200u64;
            },
        }
    }
}

/// The unpacked segment register derived from a template.
pub open spec fn seg_reg_spec(s: Segment) -> SegmentRegister {
    SegmentRegister {
        base: s.base,
        limit: s.limit,
        selector: s.selector,
        type_: s.access & 0xf,
        present: (s.access >> 7) & 1,
        dpl: (s.access >> 5) & 3,
        db: (s.flags >> 2) & 1,
        s: (s.access >> 4) & 1,
        l: (s.flags >> 1) & 1,
        g: (s.flags >> 3) & 1,
        avl: s.flags & 1,
        unusable: (!s.access >> 7) & 1,
    }
}

/// Number of page-directory entries needed to cover `mem_len` bytes
/// with 4 MiB per entry.
pub open spec fn pde_count32(mem_len: int) -> int {
    (mem_len + 0x3f_ffff) / 0x40_0000
}

/// Page-directory entry `i` of the 32-bit table, as guest memory holds it.
pub open spec fn pde32_at(mem: Seq<u8>, i: int) -> int {
    le4(mem, 0x8000 + 4 * i)
}

/// Page-table entry `j` of the 32-bit table.
pub open spec fn pte32_at(mem: Seq<u8>, j: int) -> int {
    le4(mem, 0x9000 + 4 * j)
}

/// Page-directory-pointer entry `i` of the 64-bit table.
pub open spec fn pdpte64_at(mem: Seq<u8>, i: int) -> int {
    le8(mem, 0x9000 + 8 * i)
}

/// Page-directory entry `j` of the 64-bit table.
pub open spec fn pde64_at(mem: Seq<u8>, j: int) -> int {
    le8(mem, 0xa000 + 8 * j)
}

/// The 32-bit page tables identity-map memory with 4 KiB pages:
/// `n` page-directory entries point at consecutive page-table pages,
/// and every page-table entry maps its own frame, present and writable.
pub open spec fn page_tables32_written(mem: Seq<u8>, n: int) -> bool {
    &&& forall|i: int| 0 <= i < n ==> pde32_at(mem, i) == 0x9003 + 0x1000 * i
    &&& forall|j: int| 0 <= j < 1024 * n ==> pte32_at(mem, j) == 0x1000 * j + 3
}

/// The 64-bit page tables identity-map the first 4 GiB with 2 MiB
/// pages: one PML4 entry, four PDPT entries, and 2048 large-page
/// directory entries, all present and writable.
pub open spec fn page_tables64_written(mem: Seq<u8>) -> bool {
    &&& le8(mem, 0x8000) == 0x9003
    &&& forall|i: int| 0 <= i < 4 ==> pdpte64_at(mem, i) == 0xa003 + 0x1000 * i
    &&& forall|j: int| 0 <= j < 2048 ==> pde64_at(mem, j) == 0x20_0000 * j + 0x83
}

/// The 32-bit GDT (null, unused, code, data, TSS) and the one-entry IDT.
pub open spec fn gdt32_written(mem: Seq<u8>) -> bool {
    &&& le8(mem, 0x500) == 0
    &&& le8(mem, 0x508) == 0
    &&& le8(mem, 0x510) == gdt_entry_spec(code_segment32_spec())
    &&& le8(mem, 0x518) == gdt_entry_spec(data_segment_spec())
    &&& le8(mem, 0x520) == gdt_entry_spec(tss_segment_spec())
    &&& le8(mem, 0x530) == 0
}

/// The 64-bit GDT (with the upper-TSS-base entry) and the two-entry IDT.
pub open spec fn gdt64_written(mem: Seq<u8>) -> bool {
    &&& le8(mem, 0x500) == 0
    &&& le8(mem, 0x508) == 0
    &&& le8(mem, 0x510) == gdt_entry_spec(code_segment64_spec())
    &&& le8(mem, 0x518) == gdt_entry_spec(data_segment_spec())
    &&& le8(mem, 0x520) == gdt_entry_spec(tss_segment_spec())
    &&& le8(mem, 0x528) == 0
    &&& le8(mem, 0x530) == 0
    &&& le8(mem, 0x538) == 0
}

/// A byte the 32-bit table writer leaves alone.
pub open spec fn cm32_untouched(i: int, n: int) -> bool {
    &&& !(0x500 <= i < 0x528)
    &&& !(0x530 <= i < 0x538)
    &&& !(0x8000 <= i < 0x8000 + 4 * n)
    &&& !(0x9000 <= i < 0x9000 + 0x1000 * n)
}

/// A byte the 64-bit table writer leaves alone.
pub open spec fn cm64_untouched(i: int) -> bool {
    &&& !(0x500 <= i < 0x540)
    &&& !(0x8000 <= i < 0x8008)
    &&& !(0x9000 <= i < 0x9020)
    &&& !(0xa000 <= i < 0xe000)
}

/// Write the 32-bit identity-mapping page tables (`n` directory
/// entries, `n` page-table pages).
#[verifier::rlimit(60)]
fn write_page_tables32(memory: &mut Vec<u8>, n: u32)
    requires
        n <= 1024,
        0x9000 + 0x1000 * (n as int) <= old(memory).len(),
    ensures
        final(memory)@.len() == old(memory)@.len(),
        page_tables32_written(final(memory)@, n as int),
        forall|i: int|
            0 <= i < old(memory)@.len() && !(0x8000 <= i < 0x8000 + 4 * (n as int)) && !(0x9000
                <= i < 0x9000 + 0x1000 * (n as int)) ==> final(memory)@[i] == old(memory)@[i],
{
    let ghost entry_mem: Seq<u8> = memory@;
    let mut i: u32 = 0;
    while i < n
        invariant
            i <= n,
            n <= 1024,
            0x9000 + 0x1000 * (n as int) <= memory@.len(),
            memory@.len() == entry_mem.len(),
            forall|k: int| 0 <= k < i ==> pde32_at(memory@, k) == 0x9003 + 0x1000 * k,
            forall|b: int|
                0 <= b < entry_mem.len() && !(0x8000 <= b < 0x8000 + 4 * (i as int)) ==> memory@[b]
                    == entry_mem[b],
        decreases n - i,
    {
        let ghost pre: Seq<u8> = memory@;
        put_u32_le(memory, 0x8000 + 4 * i as usize, 0x9003 + 0x1000 * i);
        proof {
            let w: int = 0x8000 + 4 * (i as int);
            assert forall|k: int| 0 <= k < i + 1 implies pde32_at(memory@, k) == 0x9003 + 0x1000
                * k by {
                if k < i as int {
                    assert(pde32_at(pre, k) == 0x9003 + 0x1000 * k);
                    lemma_le4_unchanged(pre, memory@, 0x8000 + 4 * k, w, w + 4);
                }
            }
        }
        i += 1;
    }
    let total: u32 = 1024 * n;
    let mut j: u32 = 0;
    while j < total
        invariant
            j <= total,
            total == 1024 * n,
            n <= 1024,
            0x9000 + 0x1000 * (n as int) <= memory@.len(),
            memory@.len() == entry_mem.len(),
            forall|k: int| 0 <= k < n ==> pde32_at(memory@, k) == 0x9003 + 0x1000 * k,
            forall|k: int| 0 <= k < j ==> pte32_at(memory@, k) == 0x1000 * k + 3,
            forall|b: int|
                0 <= b < entry_mem.len() && !(0x8000 <= b < 0x8000 + 4 * (n as int)) && !(0x9000
                    <= b < 0x9000 + 4 * (j as int)) ==> memory@[b] == entry_mem[b],
        decreases total - j,
    {
        let ghost pre: Seq<u8> = memory@;
        put_u32_le(memory, 0x9000 + 4 * j as usize, 0x1000 * j + 3);
        proof {
            let w: int = 0x9000 + 4 * (j as int);
            assert forall|k: int| 0 <= k < n implies pde32_at(memory@, k) == 0x9003 + 0x1000
                * k by {
                assert(pde32_at(pre, k) == 0x9003 + 0x1000 * k);
                lemma_le4_unchanged(pre, memory@, 0x8000 + 4 * k, w, w + 4);
            }
            assert forall|k: int| 0 <= k < j + 1 implies pte32_at(memory@, k) == 0x1000 * k
                + 3 by {
                if k < j as int {
                    assert(pte32_at(pre, k) == 0x1000 * k + 3);
                    lemma_le4_unchanged(pre, memory@, 0x9000 + 4 * k, w, w + 4);
                }
            }
        }
        j += 1;
    }
}

/// Write the 64-bit identity-mapping page tables for the first 4 GiB.
#[verifier::rlimit(60)]
fn write_page_tables64(memory: &mut Vec<u8>)
    requires
        0xe000 <= old(memory).len(),
    ensures
        final(memory)@.len() == old(memory)@.len(),
        page_tables64_written(final(memory)@),
        forall|i: int|
            0 <= i < old(memory)@.len() && !(0x8000 <= i < 0x8008) && !(0x9000 <= i < 0x9020)
                && !(0xa000 <= i < 0xe000) ==> final(memory)@[i] == old(memory)@[i],
{
    let ghost entry_mem: Seq<u8> = memory@;
    put_u64_le(memory, 0x8000, 0x9003);
    let mut i: u32 = 0;
    while i < 4
        invariant
            i <= 4,
            0xe000 <= memory@.len(),
            memory@.len() == entry_mem.len(),
            le8(memory@, 0x8000) == 0x9003,
            forall|k: int| 0 <= k < i ==> pdpte64_at(memory@, k) == 0xa003 + 0x1000 * k,
            forall|b: int|
                0 <= b < entry_mem.len() && !(0x8000 <= b < 0x8008) && !(0x9000 <= b < 0x9000 + 8
                    * (i as int)) ==> memory@[b] == entry_mem[b],
        decreases 4 - i,
    {
        let ghost pre: Seq<u8> = memory@;
        put_u64_le(memory, 0x9000 + 8 * i as usize, 0xa003 + 0x1000 * i as u64);
        proof {
            let w: int = 0x9000 + 8 * (i as int);
            lemma_le8_unchanged(pre, memory@, 0x8000, w, w + 8);
            assert forall|k: int| 0 <= k < i + 1 implies pdpte64_at(memory@, k) == 0xa003 + 0x1000
                * k by {
                if k < i as int {
                    assert(pdpte64_at(pre, k) == 0xa003 + 0x1000 * k);
                    lemma_le8_unchanged(pre, memory@, 0x9000 + 8 * k, w, w + 8);
                }
            }
        }
        i += 1;
    }
    let mut j: u32 = 0;
    while j < 2048
        invariant
            j <= 2048,
            0xe000 <= memory@.len(),
            memory@.len() == entry_mem.len(),
            le8(memory@, 0x8000) == 0x9003,
            forall|k: int| 0 <= k < 4 ==> pdpte64_at(memory@, k) == 0xa003 + 0x1000 * k,
            forall|k: int| 0 <= k < j ==> pde64_at(memory@, k) == 0x20_0000 * k + 0x83,
            forall|b: int|
                0 <= b < entry_mem.len() && !(0x8000 <= b < 0x8008) && !(0x9000 <= b < 0x9020)
                    && !(0xa000 <= b < 0xa000 + 8 * (j as int)) ==> memory@[b] == entry_mem[b],
        decreases 2048 - j,
    {
        let ghost pre: Seq<u8> = memory@;
        put_u64_le(memory, 0xa000 + 8 * j as usize, 0x20_0000 * j as u64 + 0x83);
        proof {
            let w: int = 0xa000 + 8 * (j as int);
            lemma_le8_unchanged(pre, memory@, 0x8000, w, w + 8);
            assert forall|k: int| 0 <= k < 4 implies pdpte64_at(memory@, k) == 0xa003 + 0x1000
                * k by {
                assert(pdpte64_at(pre, k) == 0xa003 + 0x1000 * k);
                lemma_le8_unchanged(pre, memory@, 0x9000 + 8 * k, w, w + 8);
            }
            assert forall|k: int| 0 <= k < j + 1 implies pde64_at(memory@, k) == 0x20_0000 * k
                + 0x83 by {
                if k < j as int {
                    assert(pde64_at(pre, k) == 0x20_0000 * k + 0x83);
                    lemma_le8_unchanged(pre, memory@, 0xa000 + 8 * k, w, w + 8);
                }
            }
        }
        j += 1;
    }
}

impl Bootable {
    /// Write the descriptor tables and identity-mapping page tables the
    /// selected protocol needs into guest low memory. Succeeds exactly
    /// when the tables fit inside guest memory; on failure the memory
    /// is untouched.
    #[verifier::rlimit(60)]
    pub fn configure_memory(&self, memory: &mut Vec<u8>) -> (r: Result<(), HvError>)
        requires
            self.protocol != BootProtocol::Linux64 ==> old(memory).len() <= 0x1_0000_0000,
        ensures
            final(memory)@.len() == old(memory)@.len(),
            self.protocol != BootProtocol::Linux64 ==> {
                let n = pde_count32(old(memory)@.len() as int);
                &&& (r is Ok <==> 0x9000 + 0x1000 * n <= old(memory)@.len())
                &&& r is Ok ==> {
                    &&& gdt32_written(final(memory)@)
                    &&& page_tables32_written(final(memory)@, n)
                    &&& forall|i: int|
                        0 <= i < old(memory)@.len() && cm32_untouched(i, n) ==> final(memory)@[i]
                            == old(memory)@[i]
                }
            },
            self.protocol == BootProtocol::Linux64 ==> {
                &&& (r is Ok <==> 0xe000 <= old(memory)@.len())
                &&& r is Ok ==> {
                    &&& gdt64_written(final(memory)@)
                    &&& page_tables64_written(final(memory)@)
                    &&& forall|i: int|
                        0 <= i < old(memory)@.len() && cm64_untouched(i) ==> final(memory)@[i]
                            == old(memory)@[i]
                }
            },
            r is Err ==> final(memory)@ == old(memory)@ && r == Err::<(), HvError>(
                HvError::OutOfGuestMemory,
            ),
    {
        let mem_len: usize = memory.len();
        if self.protocol.is_32bit() {
            let n64: u64 = (mem_len as u64 + 0x3f_ffff) / 0x40_0000;
            assert(n64 as int == pde_count32(mem_len as int));
            if 0x1000 * n64 > mem_len as u64 || 0x9000 > mem_len as u64 - 0x1000 * n64 {
                return Err(HvError::OutOfGuestMemory);
            }
            let n: u32 = n64 as u32;
            let e = code_segment32().gdt_entry();
            put_u64_le(memory, 0x500, 0);
            put_u64_le(memory, 0x508, 0);
            put_u64_le(memory, 0x510, e);
            put_u64_le(memory, 0x518, data_segment().gdt_entry());
            put_u64_le(memory, 0x520, tss_segment().gdt_entry());
            put_u64_le(memory, 0x530, 0);
            write_page_tables32(memory, n);
            Ok(())
        } else {
            if mem_len < 0xe000 {
                return Err(HvError::OutOfGuestMemory);
            }
            put_u64_le(memory, 0x500, 0);
            put_u64_le(memory, 0x508, 0);
            put_u64_le(memory, 0x510, code_segment64().gdt_entry());
            put_u64_le(memory, 0x518, data_segment().gdt_entry());
            put_u64_le(memory, 0x520, tss_segment().gdt_entry());
            put_u64_le(memory, 0x528, 0);
            put_u64_le(memory, 0x530, 0);
            put_u64_le(memory, 0x538, 0);
            write_page_tables64(memory);
            Ok(())
        }
    }

    /// Configure the special registers for this boot target: flat data
    /// and TSS segments, the code segment for the protocol's bitness,
    /// descriptor-table bases and limits, the page-table root, and the
    /// protection/paging control bits, with the protocol's final
    /// overrides applied last.
    pub fn configure_sregs(&self, sregs: &mut Sregs)
        ensures
            final(sregs).ds == seg_reg_spec(data_segment_spec()),
            final(sregs).es == seg_reg_spec(data_segment_spec()),
            final(sregs).fs == seg_reg_spec(data_segment_spec()),
            final(sregs).gs == seg_reg_spec(data_segment_spec()),
            final(sregs).ss == seg_reg_spec(data_segment_spec()),
            final(sregs).tr == seg_reg_spec(tss_segment_spec()),
            final(sregs).gdt.base == GDT_BASE,
            final(sregs).idt.base == IDT_BASE,
            final(sregs).cr3 == PAGE_TABLE_ADDR,
            final(sregs).ldt == old(sregs).ldt,
            final(sregs).cr2 == old(sregs).cr2,
            final(sregs).cr8 == old(sregs).cr8,
            final(sregs).apic_base == old(sregs).apic_base,
            self.protocol != BootProtocol::Linux64 ==> {
                &&& final(sregs).cs == seg_reg_spec(code_segment32_spec())
                &&& final(sregs).gdt.limit == 39
                &&& final(sregs).idt.limit == 7
                &&& final(sregs).efer == old(sregs).efer & !0x500u64
            },
            self.protocol == BootProtocol::Linux64 ==> {
                &&& final(sregs).cs == seg_reg_spec(code_segment64_spec())
                &&& final(sregs).gdt.limit == 47
                &&& final(sregs).idt.limit == 15
                &&& final(sregs).cr0 == old(sregs).cr0 | 0x8000_0001u64
                &&& final(sregs).cr4 == old(sregs).cr4 | 0x20u64
                &&& final(sregs).efer == old(sregs).efer | 0x500u64
            },
            self.protocol == BootProtocol::Pvh ==> final(sregs).cr0 == 1 && final(sregs).cr4 == 0,
            self.protocol == BootProtocol::Linux32 || self.protocol == BootProtocol::Multiboot
                ==> {
                &&& final(sregs).cr0 == (old(sregs).cr0 | 0x1u64) & !0x8000_0000u64
                &&& final(sregs).cr4 == old(sregs).cr4 & !0x20u64
            },
    {
        let data = data_segment().segment_register();
        sregs.ds = data;
        sregs.es = data;
        sregs.fs = data;
        sregs.gs = data;
        sregs.ss = data;
        sregs.tr = tss_segment().segment_register();
        sregs.gdt.base = GDT_BASE;
        sregs.idt.base = IDT_BASE;
        sregs.cr3 = PAGE_TABLE_ADDR;

        if self.protocol.is_32bit() {
            sregs.cs = code_segment32().segment_register();
            sregs.gdt.limit = 39;
            sregs.idt.limit = 7;
            sregs.cr0 = (sregs.cr0 | 0x1) & !0x8000_0000u64;  // PE set, PG clear
            sregs.cr4 = sregs.cr4 & !0x20u64;  // PAE clear
            sregs.efer = sregs.efer & !0x500u64;  // LME | LMA clear
        } else {
            sregs.cs = code_segment64().segment_register();
            sregs.gdt.limit = 47;
            sregs.idt.limit = 15;
            sregs.cr0 = sregs.cr0 | 0x8000_0001u64;  // PE | PG
            sregs.cr4 = sregs.cr4 | 0x20u64;  // PAE
            sregs.efer = sregs.efer | 0x500u64;  // LME | LMA
        }
        self.protocol.configure_sregs(sregs);
    }

    /// Configure the general registers at entry: flags with only the
    /// reserved bit, the instruction pointer at the entry address, the
    /// stack below the EBDA, and the protocol's parameter registers.
    pub fn configure_regs(&self, regs: &mut Regs)
        ensures
            self.protocol == BootProtocol::Linux32 ==> *final(regs) == (Regs {
                rflags: 2,
                rip: self.entry_addr,
                rsp: STACK_POINTER,
                rsi: self.params_addr,
                rbp: 0,
                rdi: 0,
                rbx: 0,
                ..*old(regs)
            }),
            self.protocol == BootProtocol::Linux64 ==> *final(regs) == (Regs {
                rflags: 2,
                rip: self.entry_addr,
                rsp: STACK_POINTER,
                rsi: self.params_addr,
                ..*old(regs)
            }),
            self.protocol == BootProtocol::Pvh ==> *final(regs) == (Regs {
                rflags: 2,
                rip: self.entry_addr,
                rsp: STACK_POINTER,
                rbx: self.params_addr,
                ..*old(regs)
            }),
            self.protocol == BootProtocol::Multiboot ==> *final(regs) == (Regs {
                rflags: 2,
                rip: self.entry_addr,
                rsp: STACK_POINTER,
                rax: MULTIBOOT_BOOTLOADER_MAGIC as u64,
                rbx: self.params_addr,
                ..*old(regs)
            }),
    {
        proof {
            assert(2u64 & !0x2_0300u64 == 2u64 && 2u64 & !0x2_0200u64 == 2u64) by (bit_vector);
        }
        regs.rflags = 0x2;
        regs.rip = self.entry_addr;
        regs.rsp = STACK_POINTER;
        self.protocol.configure_regs(regs, self.params_addr);
    }
}

/// The four segment templates encode to their reference descriptors:
/// flat 32-bit code and data with 4 KiB granularity, 64-bit code, and
/// the busy-TSS descriptor.
pub proof fn lemma_gdt_reference_encodings()
    ensures
        gdt_entry_spec(code_segment32_spec()) == 0x00cf_9a00_0000_ffffu64,
        gdt_entry_spec(code_segment64_spec()) == 0x00af_9a00_0000_ffffu64,
        gdt_entry_spec(data_segment_spec()) == 0x00cf_9600_0000_ffffu64,
        gdt_entry_spec(tss_segment_spec()) == 0x008f_8900_0000_ffffu64,
{
    assert(((0u64 & 0xffff) << 16) | ((0u64 & 0xff_0000) << 16) | ((0u64 & 0xff00_0000) << 32) | (
    0xffff_ffffu32 as u64 & 0xffff) | ((0xffff_ffffu32 as u64 & 0xf_0000) << 32) | ((
    0x9au8 as u64) << 40) | ((0xcu8 as u64) << 52) == 0x00cf_9a00_0000_ffffu64) by (bit_vector);
    assert(((0u64 & 0xffff) << 16) | ((0u64 & 0xff_0000) << 16) | ((0u64 & 0xff00_0000) << 32) | (
    0xfffffu32 as u64 & 0xffff) | ((0xfffffu32 as u64 & 0xf_0000) << 32) | ((0x9au8 as u64) << 40)
        | ((0xau8 as u64) << 52) == 0x00af_9a00_0000_ffffu64) by (bit_vector);
    assert(((0u64 & 0xffff) << 16) | ((0u64 & 0xff_0000) << 16) | ((0u64 & 0xff00_0000) << 32) | (
    0xfffffu32 as u64 & 0xffff) | ((0xfffffu32 as u64 & 0xf_0000) << 32) | ((0x96u8 as u64) << 40)
        | ((0xcu8 as u64) << 52) == 0x00cf_9600_0000_ffffu64) by (bit_vector);
    assert(((0u64 & 0xffff) << 16) | ((0u64 & 0xff_0000) << 16) | ((0u64 & 0xff00_0000) << 32) | (
    0xfffffu32 as u64 & 0xffff) | ((0xfffffu32 as u64 & 0xf_0000) << 32) | ((0x89u8 as u64) << 40)
        | ((0x8u8 as u64) << 52) == 0x008f_8900_0000_ffffu64) by (bit_vector);
}

} // verus!
