//! End-to-end loader scenarios: ELF64 Linux, PVH, Multiboot and
//! bzImage kernels built byte by byte and loaded into guest memory.

use microcosm::boot::{BootProtocol, Bootable, Regs};
use microcosm::params::{KernelParams, ModuleImage};

const MIB: usize = 1024 * 1024;

fn put16(v: &mut Vec<u8>, off: usize, x: u16) {
    v[off..off + 2].copy_from_slice(&x.to_le_bytes());
}

fn put32(v: &mut Vec<u8>, off: usize, x: u32) {
    v[off..off + 4].copy_from_slice(&x.to_le_bytes());
}

fn put64(v: &mut Vec<u8>, off: usize, x: u64) {
    v[off..off + 8].copy_from_slice(&x.to_le_bytes());
}

fn get16(v: &[u8], off: usize) -> u16 {
    u16::from_le_bytes(v[off..off + 2].try_into().unwrap())
}

fn get32(v: &[u8], off: usize) -> u32 {
    u32::from_le_bytes(v[off..off + 4].try_into().unwrap())
}

fn get64(v: &[u8], off: usize) -> u64 {
    u64::from_le_bytes(v[off..off + 8].try_into().unwrap())
}

fn empty_params() -> KernelParams {
    KernelParams { cmdline: None, initrd: None, modules: Vec::new() }
}

/// An ELF64 with one PT_LOAD of `filesz` bytes at `paddr`, its file
/// data a counting pattern, and optionally one PT_NOTE segment.
fn build_elf64(paddr: u64, filesz: u64, note: Option<Vec<u8>>) -> Vec<u8> {
    let phnum = if note.is_some() { 2 } else { 1 };
    let note_off: usize = 0x1000;
    let load_off: usize = 0x2000;
    let mut img = vec![0u8; load_off + filesz as usize];
    img[0] = 0x7f;
    img[1] = b'E';
    img[2] = b'L';
    img[3] = b'F';
    img[4] = 2; // 64-bit
    img[5] = 1; // little-endian
    put64(&mut img, 24, 0x10_0000); // e_entry
    put64(&mut img, 32, 64); // e_phoff
    put16(&mut img, 54, 56); // e_phentsize
    put16(&mut img, 56, phnum); // e_phnum

    // PT_LOAD
    put32(&mut img, 64, 1);
    put64(&mut img, 64 + 8, load_off as u64);
    put64(&mut img, 64 + 24, paddr);
    put64(&mut img, 64 + 32, filesz);
    put64(&mut img, 64 + 40, filesz);
    for i in 0..filesz as usize {
        img[load_off + i] = (i % 251) as u8;
    }

    if let Some(note_bytes) = note {
        put32(&mut img, 64 + 56, 4); // PT_NOTE
        put64(&mut img, 64 + 56 + 8, note_off as u64);
        put64(&mut img, 64 + 56 + 32, note_bytes.len() as u64);
        img[note_off..note_off + note_bytes.len()].copy_from_slice(&note_bytes);
    }
    img
}

/// The note record carrying the Xen 32-bit entry address.
fn xen_entry_note(entry: u32) -> Vec<u8> {
    let mut n = vec![0u8; 12 + 4 + 4];
    put32(&mut n, 0, 4); // namesz
    put32(&mut n, 4, 4); // descsz
    put32(&mut n, 8, 0x12); // XEN_ELFNOTE_PHYS32_ENTRY
    n[12..16].copy_from_slice(b"Xen\0");
    put32(&mut n, 16, entry);
    n
}

#[test]
fn elf64_linux_boot() {
    let mut memory = vec![0u8; 64 * MIB];
    let kernel = build_elf64(0x10_0000, 0x1000, None);
    let bootable = Bootable::load(&mut memory, &kernel, &empty_params()).unwrap();
    assert_eq!(bootable.protocol, BootProtocol::Linux64);
    assert_eq!(bootable.entry_addr, 0x10_0000);
    let pa = bootable.params_addr as usize;
    assert!(pa >= 0x10_1000);
    // The loaded segment is in place.
    for i in 0..0x1000usize {
        assert_eq!(memory[0x10_0000 + i], (i % 251) as u8);
    }
    // setup_sects of the fabricated header is untouched.
    assert_eq!(memory[pa + 0x1f1], 0);
    // Two E820 RAM entries: low memory and everything above 1 MiB.
    assert_eq!(memory[pa + 0x1e8], 2);
    assert_eq!(get64(&memory, pa + 0x2d0), 0);
    assert_eq!(get64(&memory, pa + 0x2d8), 0x9_fc00);
    assert_eq!(get32(&memory, pa + 0x2e0), 1);
    assert_eq!(get64(&memory, pa + 0x2e4), 0x10_0000);
    assert_eq!(get64(&memory, pa + 0x2ec), (64 * MIB - 0x10_0000) as u64);
    assert_eq!(get32(&memory, pa + 0x2f4), 1);
}

#[test]
fn elf64_linux_cmdline_round_trip() {
    let mut memory = vec![0u8; 64 * MIB];
    let kernel = build_elf64(0x10_0000, 0x1000, None);
    let params = KernelParams {
        cmdline: Some(b"panic=1 console=ttyS0".to_vec()),
        initrd: None,
        modules: Vec::new(),
    };
    let bootable = Bootable::load(&mut memory, &kernel, &params).unwrap();
    assert_eq!(bootable.protocol, BootProtocol::Linux64);
    let pa = bootable.params_addr as usize;
    // cmd_line_ptr decodes to the command line's address; the bytes and
    // the NUL terminator are in place.
    let cl_ptr = get32(&memory, pa + 0x228) as usize;
    assert_eq!(&memory[cl_ptr..cl_ptr + 21], b"panic=1 console=ttyS0");
    assert_eq!(memory[cl_ptr + 21], 0);
    // The loader's type and heap fields are set as the protocol demands.
    assert_eq!(memory[pa + 0x210], 0xff);
    assert_eq!(memory[pa + 0x211] & 0x80, 0x80);
    assert_eq!(get16(&memory, pa + 0x224), 0xfe00);
}

#[test]
fn pvh_boot() {
    let mut memory = vec![0u8; 64 * MIB];
    let kernel = build_elf64(0x10_0000, 0x1000, Some(xen_entry_note(0x0120_0000)));
    let bootable = Bootable::load(&mut memory, &kernel, &empty_params()).unwrap();
    assert_eq!(bootable.protocol, BootProtocol::Pvh);
    assert_eq!(bootable.entry_addr, 0x0120_0000);
    let pa = bootable.params_addr as usize;
    assert_eq!(get32(&memory, pa), 0x336e_c578);
    assert_eq!(get32(&memory, pa + 4), 1); // version
    assert_eq!(get32(&memory, pa + 48), 2); // memmap_entries
    let mm = get64(&memory, pa + 40) as usize;
    assert_eq!(get64(&memory, mm), 0);
    assert_eq!(get64(&memory, mm + 8), 0x9_fc00);
    assert_eq!(get32(&memory, mm + 16), 1);
    assert_eq!(get64(&memory, mm + 24), 0x10_0000);
    assert_eq!(get64(&memory, mm + 32), (64 * MIB - 0x10_0000) as u64);
}

/// An ELF32 with one PT_LOAD and the Multiboot magic in its first page.
fn build_elf32(with_magic: bool) -> Vec<u8> {
    let load_off: usize = 0x1000;
    let filesz: usize = 0x200;
    let mut img = vec![0u8; load_off + filesz];
    img[0] = 0x7f;
    img[1] = b'E';
    img[2] = b'L';
    img[3] = b'F';
    img[4] = 1; // 32-bit
    img[5] = 1;
    put32(&mut img, 24, 0x10_0000); // e_entry
    put32(&mut img, 28, 52); // e_phoff
    put16(&mut img, 42, 32); // e_phentsize
    put16(&mut img, 44, 1); // e_phnum
    put32(&mut img, 52, 1); // PT_LOAD
    put32(&mut img, 52 + 4, load_off as u32);
    put32(&mut img, 52 + 12, 0x10_0000); // p_paddr
    put32(&mut img, 52 + 16, filesz as u32);
    put32(&mut img, 52 + 20, filesz as u32);
    if with_magic {
        put32(&mut img, 0x100, 0x1BAD_B002);
    }
    img
}

#[test]
fn multiboot_boot() {
    let mut memory = vec![0u8; 64 * MIB];
    let kernel = build_elf32(true);
    let bootable = Bootable::load(&mut memory, &kernel, &empty_params()).unwrap();
    assert_eq!(bootable.protocol, BootProtocol::Multiboot);
    assert_eq!(bootable.entry_addr, 0x10_0000);
    let ia = bootable.params_addr as usize;
    // MODS | MEM_MAP set, no CMDLINE.
    assert_eq!(get32(&memory, ia), 0x48);
    assert_eq!(get32(&memory, ia + 20), 0); // mods_count
    assert_eq!(get32(&memory, ia + 44), 24); // mmap_length
    let ma = get32(&memory, ia + 48) as usize;
    assert_eq!(get32(&memory, ma), 24);
    assert_eq!(get64(&memory, ma + 4), 0x10_0000);
    assert_eq!(get64(&memory, ma + 12), (64 * MIB - 0x10_0000) as u64);
    assert_eq!(get32(&memory, ma + 20), 1);
    // The entry registers present the Multiboot magic and the info address.
    let mut regs = Regs {
        rax: 0,
        rbx: 0,
        rcx: 0,
        rdx: 0,
        rsi: 0,
        rdi: 0,
        rsp: 0,
        rbp: 0,
        r8: 0,
        r9: 0,
        r10: 0,
        r11: 0,
        r12: 0,
        r13: 0,
        r14: 0,
        r15: 0,
        rip: 0,
        rflags: 0,
    };
    bootable.configure_regs(&mut regs);
    assert_eq!(regs.rax, 0x2BAD_B002);
    assert_eq!(regs.rbx, bootable.params_addr);
    assert_eq!(regs.rip, 0x10_0000);
    assert_eq!(regs.rflags, 2);
}

#[test]
fn multiboot_modules_round_trip() {
    let mut memory = vec![0u8; 64 * MIB];
    let kernel = build_elf32(true);
    let params = KernelParams {
        cmdline: Some(b"root=/dev/ram0".to_vec()),
        initrd: None,
        modules: vec![ModuleImage { path: b"/boot/mod0".to_vec(), data: vec![0xabu8; 600] }],
    };
    let bootable = Bootable::load(&mut memory, &kernel, &params).unwrap();
    assert_eq!(bootable.protocol, BootProtocol::Multiboot);
    let ia = bootable.params_addr as usize;
    // MODS | MEM_MAP | CMDLINE.
    assert_eq!(get32(&memory, ia), 0x4c);
    assert_eq!(get32(&memory, ia + 20), 1); // mods_count
    let mods = get32(&memory, ia + 24) as usize;
    let mod_start = get32(&memory, mods) as usize;
    let mod_end = get32(&memory, mods + 4) as usize;
    let mod_cl = get32(&memory, mods + 8) as usize;
    assert_eq!(mod_start % 0x1000, 0);
    assert_eq!(mod_end - mod_start, 600);
    assert!(memory[mod_start..mod_end].iter().all(|&b| b == 0xab));
    assert_eq!(&memory[mod_cl..mod_cl + 11], b"/boot/mod0\0");
    // The command line is NUL-terminated where the info structure says.
    let cl = get32(&memory, ia + 16) as usize;
    assert_eq!(&memory[cl..cl + 15], b"root=/dev/ram0\0");
}

/// A bzImage whose first sector carries the boot-protocol header.
fn build_bzimage(setup_sects: u8, payload: &[u8]) -> Vec<u8> {
    let setup_size = (setup_sects as usize + 1) * 512;
    let mut img = vec![0u8; 4096.max(setup_size) + payload.len()];
    img[0x1f1] = setup_sects;
    put32(&mut img, 0x202, 0x5372_6448); // "HdrS"
    put16(&mut img, 0x206, 0x020d); // version
    img[0x211] = 0x01; // loadflags: LOADED_HIGH
    put32(&mut img, 0x214, 0x10_0000); // code32_start
    put32(&mut img, 0x238, 255); // cmdline_size
    put32(&mut img, 0x22c, 0x37ff_ffff); // initrd_addr_max
    img[setup_size..setup_size + payload.len()].copy_from_slice(payload);
    img.truncate(setup_size + payload.len());
    img
}

#[test]
fn bzimage_boot() {
    let mut memory = vec![0u8; 64 * MIB];
    let payload: Vec<u8> = (0..2048u32).map(|i| (i % 249) as u8).collect();
    let kernel = build_bzimage(4, &payload);
    assert_eq!(kernel.len(), 5 * 512 + 2048);
    let bootable = Bootable::load(&mut memory, &kernel, &empty_params()).unwrap();
    assert_eq!(bootable.protocol, BootProtocol::Linux32);
    assert_eq!(bootable.entry_addr, 0x10_0000);
    // The image bytes starting at file offset 5*512 sit at 1 MiB.
    assert_eq!(&memory[0x10_0000..0x10_0000 + 2048], &payload[..]);
    // The carried-over header keeps its fields in the written page.
    let pa = bootable.params_addr as usize;
    assert_eq!(get32(&memory, pa + 0x202), 0x5372_6448);
    assert_eq!(get16(&memory, pa + 0x206), 0x020d);
    assert_eq!(memory[pa + 0x1f1], 4);
}

#[test]
fn invalid_image_rejected() {
    let mut memory = vec![0u8; 2 * MIB];
    let kernel = vec![0u8; 8192];
    let err = Bootable::load(&mut memory, &kernel, &empty_params()).unwrap_err();
    assert_eq!(err, microcosm::HvError::InvalidKernelImageFormat);
    assert!(memory.iter().all(|&b| b == 0));
}

#[test]
fn cmdline_too_long_rejected() {
    let mut memory = vec![0u8; 64 * MIB];
    let kernel = build_elf64(0x10_0000, 0x1000, None);
    let params = KernelParams {
        cmdline: Some(vec![b'x'; 300]),
        initrd: None,
        modules: Vec::new(),
    };
    let err = Bootable::load(&mut memory, &kernel, &params).unwrap_err();
    assert_eq!(err, microcosm::HvError::CmdlineTooLong);
}

#[test]
fn initrd_too_large_rejected() {
    let mut memory = vec![0u8; 64 * MIB];
    let payload = vec![0u8; 1024];
    let mut kernel = build_bzimage(4, &payload);
    // An initrd ceiling below 1 MiB can never hold the aligned ramdisk.
    put32(&mut kernel, 0x22c, 0x1000);
    let params = KernelParams {
        cmdline: None,
        initrd: Some(vec![1u8; 4096]),
        modules: Vec::new(),
    };
    let err = Bootable::load(&mut memory, &kernel, &params).unwrap_err();
    // The loader masks the bzImage path's failure as an invalid image.
    assert_eq!(err, microcosm::HvError::InvalidKernelImageFormat);
}

#[test]
fn initrd_placed_at_aligned_address() {
    let mut memory = vec![0u8; 64 * MIB];
    let kernel = build_elf64(0x10_0000, 0x1000, None);
    let params = KernelParams {
        cmdline: None,
        initrd: Some(vec![0x5au8; 8192]),
        modules: Vec::new(),
    };
    let bootable = Bootable::load(&mut memory, &kernel, &params).unwrap();
    let pa = bootable.params_addr as usize;
    let ird = get32(&memory, pa + 0x218) as usize;
    let ird_size = get32(&memory, pa + 0x21c) as usize;
    assert_eq!(ird % 0x10_0000, 0);
    assert_eq!(ird_size, 8192);
    assert!(memory[ird..ird + 8192].iter().all(|&b| b == 0x5a));
}
