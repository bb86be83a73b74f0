//! Platform-table checks: the range allocator's determinism, the GDT
//! encodings against their reference values, the page tables, and the
//! ACPI checksums.

use microcosm::acpi::configure_acpi;
use microcosm::boot::{code_segment32, code_segment64, data_segment, tss_segment, BootProtocol,
    Bootable, Sregs, SegmentRegister, TableRegister};
use microcosm::memory::RangeAllocator;

fn get32(v: &[u8], off: usize) -> u32 {
    u32::from_le_bytes(v[off..off + 4].try_into().unwrap())
}

fn get64(v: &[u8], off: usize) -> u64 {
    u64::from_le_bytes(v[off..off + 8].try_into().unwrap())
}

#[test]
fn allocator_addresses_are_monotone_and_aligned() {
    let mut a = RangeAllocator::new(0x1234);
    let sizes_aligns = [(100u64, 1u64), (64, 16), (1, 4096), (3, 8), (0x1000, 0x10_0000)];
    let mut prev_end = 0x1234u64;
    for &(size, align) in sizes_aligns.iter() {
        let addr = a.raw_alloc(size, align);
        assert_eq!(addr % align, 0);
        assert!(addr >= prev_end);
        prev_end = addr + size;
    }
}

#[test]
fn allocator_unaligned_start_rounds_up() {
    let mut a = RangeAllocator::new(0x1001);
    assert_eq!(a.raw_alloc(16, 0x1000), 0x2000);
    assert_eq!(a.raw_alloc(1, 1), 0x2010);
}

#[test]
fn gdt_entries_match_reference_encoding() {
    assert_eq!(code_segment32().gdt_entry(), 0x00cf_9a00_0000_ffff);
    assert_eq!(code_segment64().gdt_entry(), 0x00af_9a00_0000_ffff);
    assert_eq!(data_segment().gdt_entry(), 0x00cf_9600_0000_ffff);
    assert_eq!(tss_segment().gdt_entry(), 0x008f_8900_0000_ffff);
}

#[test]
fn segment_register_bit_slices() {
    let segs = [code_segment32(), code_segment64(), data_segment(), tss_segment()];
    for s in segs.iter() {
        let r = s.segment_register();
        assert_eq!(r.type_, s.access & 0xf);
        assert_eq!(r.s, (s.access >> 4) & 1);
        assert_eq!(r.dpl, (s.access >> 5) & 3);
        assert_eq!(r.present, (s.access >> 7) & 1);
        assert_eq!(r.avl, s.flags & 1);
        assert_eq!(r.l, (s.flags >> 1) & 1);
        assert_eq!(r.db, (s.flags >> 2) & 1);
        assert_eq!(r.g, (s.flags >> 3) & 1);
        assert_eq!(r.unusable, (!s.access >> 7) & 1);
    }
}

#[test]
fn acpi_tables_have_zero_checksums() {
    let mut memory = vec![0u8; 1024 * 1024];
    configure_acpi(&mut memory, 2).unwrap();
    // RSDP: short and extended checksums.
    let rsdp = &memory[0xe_0000..0xe_0000 + 36];
    assert_eq!(&rsdp[0..8], b"RSD PTR ");
    assert_eq!(rsdp[15], 2);
    let short_sum: u32 = rsdp[..20].iter().map(|&b| b as u32).sum();
    assert_eq!(short_sum % 256, 0);
    let full_sum: u32 = rsdp.iter().map(|&b| b as u32).sum();
    assert_eq!(full_sum % 256, 0);
    // XSDT.
    let xsdt = &memory[0xe_0024..0xe_0024 + 44];
    assert_eq!(&xsdt[0..4], b"XSDT");
    let xsdt_sum: u32 = xsdt.iter().map(|&b| b as u32).sum();
    assert_eq!(xsdt_sum % 256, 0);
    assert_eq!(get64(&memory, 0xe_0024 + 36), 0xe_0050);
    // MADT with one I/O APIC and two local APICs.
    let madt_len = get32(&memory, 0xe_0050 + 4) as usize;
    assert_eq!(madt_len, 56 + 16);
    let madt = &memory[0xe_0050..0xe_0050 + madt_len];
    assert_eq!(&madt[0..4], b"APIC");
    let madt_sum: u32 = madt.iter().map(|&b| b as u32).sum();
    assert_eq!(madt_sum % 256, 0);
    assert_eq!(get32(&memory, 0xe_0050 + 36), 0xfee0_0000);
    assert_eq!(get32(&memory, 0xe_0050 + 48), 0xfec0_0000);
    // Local APIC entries are enabled and numbered.
    assert_eq!(madt[56 + 2], 0);
    assert_eq!(madt[56 + 8 + 2], 1);
    assert_eq!(get32(&memory, 0xe_0050 + 60), 1);
}

#[test]
fn acpi_rejected_when_memory_too_small() {
    let mut memory = vec![0u8; 0xe_0000];
    let err = configure_acpi(&mut memory, 1).unwrap_err();
    assert_eq!(err, microcosm::HvError::OutOfGuestMemory);
    assert!(memory.iter().all(|&b| b == 0));
}

fn bootable(protocol: BootProtocol) -> Bootable {
    Bootable { protocol, entry_addr: 0x10_0000, params_addr: 0x20_0000 }
}

#[test]
fn page_tables_32bit_identity_map() {
    let mut memory = vec![0u8; 8 * 1024 * 1024];
    bootable(BootProtocol::Linux32).configure_memory(&mut memory).unwrap();
    // Two page-directory entries cover 8 MiB.
    assert_eq!(get32(&memory, 0x8000), 0x9003);
    assert_eq!(get32(&memory, 0x8004), 0xa003);
    // The page tables map each frame onto itself.
    assert_eq!(get32(&memory, 0x9000), 0x3);
    assert_eq!(get32(&memory, 0x9004), 0x1003);
    assert_eq!(get32(&memory, 0x9000 + 4 * 2047), (2047 << 12) | 3);
    // The 32-bit GDT is at its base.
    assert_eq!(get64(&memory, 0x510), 0x00cf_9a00_0000_ffff);
    assert_eq!(get64(&memory, 0x518), 0x00cf_9600_0000_ffff);
    assert_eq!(get64(&memory, 0x530), 0);
}

#[test]
fn page_tables_64bit_identity_map() {
    let mut memory = vec![0u8; 8 * 1024 * 1024];
    bootable(BootProtocol::Linux64).configure_memory(&mut memory).unwrap();
    assert_eq!(get64(&memory, 0x8000), 0x9003);
    assert_eq!(get64(&memory, 0x9000), 0xa003);
    assert_eq!(get64(&memory, 0x9018), 0xd003);
    assert_eq!(get64(&memory, 0xa000), 0x83);
    assert_eq!(get64(&memory, 0xa008), 0x20_0083);
    assert_eq!(get64(&memory, 0xa000 + 8 * 2047), (2047u64 << 21) | 0x83);
    assert_eq!(get64(&memory, 0x510), 0x00af_9a00_0000_ffff);
    assert_eq!(get64(&memory, 0x528), 0);
}

fn zero_segment() -> SegmentRegister {
    SegmentRegister {
        base: 0,
        limit: 0,
        selector: 0,
        type_: 0,
        present: 0,
        dpl: 0,
        db: 0,
        s: 0,
        l: 0,
        g: 0,
        avl: 0,
        unusable: 0,
    }
}

fn zero_sregs() -> Sregs {
    Sregs {
        cs: zero_segment(),
        ds: zero_segment(),
        es: zero_segment(),
        fs: zero_segment(),
        gs: zero_segment(),
        ss: zero_segment(),
        tr: zero_segment(),
        ldt: zero_segment(),
        gdt: TableRegister { base: 0, limit: 0 },
        idt: TableRegister { base: 0, limit: 0 },
        cr0: 0x10,
        cr2: 0,
        cr3: 0,
        cr4: 0,
        cr8: 0,
        efer: 0,
        apic_base: 0,
    }
}

#[test]
fn sregs_for_64bit_linux() {
    let mut sregs = zero_sregs();
    bootable(BootProtocol::Linux64).configure_sregs(&mut sregs);
    assert_eq!(sregs.cs.selector, 0x10);
    assert_eq!(sregs.cs.l, 1);
    assert_eq!(sregs.ds.selector, 0x18);
    assert_eq!(sregs.gdt.base, 0x500);
    assert_eq!(sregs.gdt.limit, 47);
    assert_eq!(sregs.idt.base, 0x530);
    assert_eq!(sregs.idt.limit, 15);
    assert_eq!(sregs.cr3, 0x8000);
    assert_eq!(sregs.cr0 & 0x8000_0001, 0x8000_0001);
    assert_eq!(sregs.cr4 & 0x20, 0x20);
    assert_eq!(sregs.efer & 0x500, 0x500);
}

#[test]
fn sregs_for_pvh() {
    let mut sregs = zero_sregs();
    sregs.cr4 = 0xff;
    bootable(BootProtocol::Pvh).configure_sregs(&mut sregs);
    assert_eq!(sregs.cr0, 1);
    assert_eq!(sregs.cr4, 0);
    assert_eq!(sregs.gdt.limit, 39);
    assert_eq!(sregs.idt.limit, 7);
}
