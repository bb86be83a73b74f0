//! The PVH direct-boot protocol: scanning an ELF64 kernel's note
//! segments for the Xen 32-bit entry note, and writing the
//! `hvm_start_info` block with its two-entry memory map.

use vstd::prelude::*;
use crate::HvError;
use crate::boot::{Bootable, BootProtocol};
use crate::bytes::{lbyte, le4, le8, lemma_le4_recompose, lemma_le8_recompose, put_u32_le, put_u64_le, zero_vec};
use crate::elf::{elf64_filesz, elf64_phnum, elf64_phoff, elf64_poffset, elf64_ptype, PT_NOTE};
use crate::linux_boot::{bp_byte, opt_len};
use crate::memory::{copy_slice_to_guest, round_up, zero_guest_range, RangeAllocator};
use crate::params::KernelParams;

verus! {

/// The note type carrying the PVH 32-bit entry point.
pub const XEN_ELFNOTE_PHYS32_ENTRY: u32 = 0x12;

/// The `hvm_start_info` magic ("xEn3" little-endian).
pub const XEN_HVM_START_MAGIC: u32 = 0x336e_c578;

/// Scan outcome encoding used by the note-scan functions: a value in
/// `[0, 2^32)` is the entry address from the note's descriptor, `-1`
/// means no matching note, `-2` a malformed note stream.
pub const SCAN_NOT_FOUND: i64 = -1;
pub const SCAN_BAD: i64 = -2;

/// Scan the note records in `[off, end)` of the image for a note named
/// `"Xen\0"` of type `XEN_ELFNOTE_PHYS32_ENTRY`; name and descriptor
/// are each padded to four bytes.
pub open spec fn scan_notes(img: Seq<u8>, off: int, end: int) -> int
    decreases end - off,
{
    if off >= end {
        -1
    } else if off + 12 > img.len() {
        -2
    } else {
        let namesz = le4(img, off);
        let descsz = le4(img, off + 4);
        let ntype = le4(img, off + 8);
        let name_off = off + 12;
        let desc_off = name_off + round_up(namesz, 4);
        let next = desc_off + round_up(descsz, 4);
        if name_off + namesz > img.len() {
            -2
        } else if desc_off + descsz > img.len() {
            -2
        } else if namesz == 4 && img[name_off] == 0x58u8 && img[name_off + 1] == 0x65u8 && img[
            name_off + 2] == 0x6eu8 && img[name_off + 3] == 0u8 && ntype
            == XEN_ELFNOTE_PHYS32_ENTRY {
            if descsz >= 4 {
                le4(img, desc_off)
            } else {
                -2
            }
        } else if next >= end {
            -1
        } else {
            scan_notes(img, next, end)
        }
    }
}

/// Scan the program headers from index `i` on, taking the first result
/// of any `PT_NOTE` segment's scan that is not "no matching note".
pub open spec fn pvh_scan_from(img: Seq<u8>, i: int, n: int) -> int
    decreases n - i,
{
    if i >= n {
        -1
    } else if elf64_ptype(img, i) == PT_NOTE {
        let r = scan_notes(
            img,
            elf64_poffset(img, i),
            elf64_poffset(img, i) + elf64_filesz(img, i),
        );
        if r == -1 {
            pvh_scan_from(img, i + 1, n)
        } else {
            r
        }
    } else {
        pvh_scan_from(img, i + 1, n)
    }
}

/// Whether the image carries enough of an ELF64 shape for the note scan
/// (the caller has already loaded it as ELF64).
pub open spec fn pvh_parse_ok(img: Seq<u8>) -> bool {
    &&& img.len() >= 64
    &&& elf64_phoff(img) + 56 * elf64_phnum(img) <= img.len()
}

/// The PVH entry point of the image: the value of the Xen entry note.
pub open spec fn pvh_entry(img: Seq<u8>) -> int {
    pvh_scan_from(img, 0, elf64_phnum(img))
}

/// Where the `hvm_start_info` block is placed.
pub open spec fn pvh_si_addr(exe_end: int) -> int {
    round_up(exe_end, 8)
}

/// Guest-physical address of the command line, zero when there is none.
pub open spec fn pvh_cl_addr(exe_end: int, p: KernelParams) -> int {
    if p.cmdline is Some {
        pvh_si_addr(exe_end) + 56
    } else {
        0
    }
}

/// Where the memory-map entries are placed.
pub open spec fn pvh_memmap_addr(exe_end: int, p: KernelParams) -> int {
    if p.cmdline is Some {
        round_up(pvh_si_addr(exe_end) + 56 + opt_len(p.cmdline) + 1, 8)
    } else {
        pvh_si_addr(exe_end) + 56
    }
}

/// First guest-physical address past everything the PVH writer places.
pub open spec fn pvh_end(exe_end: int, p: KernelParams) -> int {
    pvh_memmap_addr(exe_end, p) + 48
}

/// The `hvm_start_info` block at `s` and the two RAM map entries at
/// `m`: low memory up to the EBDA and everything from 1 MiB up.
pub open spec fn pvh_written(
    mem: Seq<u8>,
    exe_end: int,
    p: KernelParams,
    mem_len: int,
) -> bool {
    let s = pvh_si_addr(exe_end);
    let m = pvh_memmap_addr(exe_end, p);
    &&& forall|j: int| 0 <= j < 4 ==> bp_byte(mem, s, j) == lbyte(XEN_HVM_START_MAGIC as int, j)
    &&& forall|j: int| 4 <= j < 8 ==> bp_byte(mem, s, j) == lbyte(1, j - 4)
    &&& forall|j: int| 8 <= j < 24 ==> bp_byte(mem, s, j) == 0u8
    &&& forall|j: int| 24 <= j < 32 ==> bp_byte(mem, s, j) == lbyte(pvh_cl_addr(exe_end, p), j - 24)
    &&& forall|j: int| 32 <= j < 40 ==> bp_byte(mem, s, j) == 0u8
    &&& forall|j: int| 40 <= j < 48 ==> bp_byte(mem, s, j) == lbyte(m, j - 40)
    &&& forall|j: int| 48 <= j < 52 ==> bp_byte(mem, s, j) == lbyte(2, j - 48)
    &&& forall|j: int| 52 <= j < 56 ==> bp_byte(mem, s, j) == 0u8
    &&& forall|j: int| 0 <= j < 8 ==> bp_byte(mem, m, j) == 0u8
    &&& forall|j: int| 8 <= j < 16 ==> bp_byte(mem, m, j) == lbyte(0x9_fc00, j - 8)
    &&& forall|j: int| 16 <= j < 20 ==> bp_byte(mem, m, j) == lbyte(1, j - 16)
    &&& forall|j: int| 20 <= j < 24 ==> bp_byte(mem, m, j) == 0u8
    &&& forall|j: int| 24 <= j < 32 ==> bp_byte(mem, m, j) == lbyte(0x10_0000, j - 24)
    &&& forall|j: int| 32 <= j < 40 ==> bp_byte(mem, m, j) == lbyte(mem_len - 0x10_0000, j - 32)
    &&& forall|j: int| 40 <= j < 44 ==> bp_byte(mem, m, j) == lbyte(1, j - 40)
    &&& forall|j: int| 44 <= j < 48 ==> bp_byte(mem, m, j) == 0u8
    &&& (p.cmdline is Some ==> mem.subrange(
        pvh_cl_addr(exe_end, p),
        pvh_cl_addr(exe_end, p) + opt_len(p.cmdline),
    ) == p.cmdline.unwrap()@ && mem[pvh_cl_addr(exe_end, p) + opt_len(p.cmdline)] == 0u8)
}

/// Whether the PVH writer may have changed byte `i` of guest memory.
pub open spec fn pvh_touched(i: int, exe_end: int, p: KernelParams) -> bool {
    ||| (pvh_si_addr(exe_end) <= i < pvh_si_addr(exe_end) + 56)
    ||| (p.cmdline is Some && pvh_cl_addr(exe_end, p) <= i < pvh_cl_addr(exe_end, p) + opt_len(
        p.cmdline,
    ) + 1)
    ||| (pvh_memmap_addr(exe_end, p) <= i < pvh_memmap_addr(exe_end, p) + 48)
}

/// Run the note scan on the image. Returns the entry value, or the
/// negative scan sentinels.
#[verifier::rlimit(100)]
fn scan_pvh_entry(image: &[u8]) -> (r: i64)
    requires
        pvh_parse_ok(image@),
        image@.len() <= 0x10_0000_0000_0000,
    ensures
        r as int == pvh_entry(image@),
{
    let img_len: usize = image.len();
    let phoff: u64 = crate::bytes::get_u64_le(image, 32);
    let phnum: u16 = crate::bytes::get_u16_le(image, 56);
    let mut i: usize = 0;
    while i < phnum as usize
        invariant
            i <= phnum as usize,
            pvh_parse_ok(image@),
            img_len == image@.len(),
            img_len <= 0x10_0000_0000_0000,
            phoff as int == elf64_phoff(image@),
            phnum as int == elf64_phnum(image@),
            phoff + 56 * phnum as u64 <= img_len as u64,
            pvh_scan_from(image@, 0, phnum as int) == pvh_scan_from(image@, i as int, phnum as int),
        decreases phnum as usize - i,
    {
        let ph: usize = phoff as usize + 56 * i;
        let ptype = crate::bytes::get_u32_le(image, ph);
        if ptype == PT_NOTE {
            let poffset: u64 = crate::bytes::get_u64_le(image, ph + 8);
            let filesz: u64 = crate::bytes::get_u64_le(image, ph + 32);
            let r = scan_note_segment(image, poffset, filesz);
            if r != SCAN_NOT_FOUND {
                return r;
            }
        }
        i += 1;
    }
    SCAN_NOT_FOUND
}

/// Scan one `PT_NOTE` segment's records.
#[verifier::rlimit(100)]
fn scan_note_segment(image: &[u8], poffset: u64, filesz: u64) -> (r: i64)
    requires
        image@.len() <= 0x10_0000_0000_0000,
    ensures
        r as int == scan_notes(image@, poffset as int, poffset + filesz),
{
    let img_us: usize = image.len();
    let img_len: u64 = img_us as u64;
    let ghost end: int = poffset + filesz;
    let mut off: u64 = poffset;
    while off - poffset < filesz
        invariant
            poffset <= off,
            img_len == img_us as u64,
            img_us == image@.len(),
            img_len == image@.len(),
            img_len <= 0x10_0000_0000_0000,
            end == poffset + filesz,
            scan_notes(image@, poffset as int, end) == scan_notes(image@, off as int, end),
        decreases end - off,
    {
        if off > img_len || 12 > img_len - off {
            return SCAN_BAD;
        }
        let namesz: u32 = crate::bytes::get_u32_le(image, off as usize);
        let descsz: u32 = crate::bytes::get_u32_le(image, off as usize + 4);
        let ntype: u32 = crate::bytes::get_u32_le(image, off as usize + 8);
        let name_off: u64 = off + 12;
        let desc_off: u64 = name_off + next_mul4(namesz as u64);
        let next: u64 = desc_off + next_mul4(descsz as u64);
        if namesz as u64 > img_len || name_off > img_len - namesz as u64 {
            return SCAN_BAD;
        }
        if descsz as u64 > img_len || desc_off > img_len - descsz as u64 {
            return SCAN_BAD;
        }
        if namesz == 4 && crate::bytes::get_u8(image, name_off as usize) == 0x58
            && crate::bytes::get_u8(image, name_off as usize + 1) == 0x65 && crate::bytes::get_u8(
            image,
            name_off as usize + 2,
        ) == 0x6e && crate::bytes::get_u8(image, name_off as usize + 3) == 0 && ntype
            == XEN_ELFNOTE_PHYS32_ENTRY {
            if descsz >= 4 {
                let v: u32 = crate::bytes::get_u32_le(image, desc_off as usize);
                return v as i64;
            } else {
                return SCAN_BAD;
            }
        }
        if next - poffset >= filesz {
            return SCAN_NOT_FOUND;
        }
        off = next;
    }
    SCAN_NOT_FOUND
}

/// The next multiple of four.
fn next_mul4(x: u64) -> (r: u64)
    requires
        x <= 0xffff_ffff,
    ensures
        r as int == round_up(x as int, 4),
        x <= r <= x + 3,
{
    proof {
        crate::memory::lemma_round_up(x as int, 4);
    }
    let rem: u64 = x % 4;
    if rem == 0 {
        x
    } else {
        x + (4 - rem)
    }
}

/// Build the 56-byte `hvm_start_info` block.
fn build_start_info(cl_addr: u64, memmap_addr: u64) -> (v: Vec<u8>)
    ensures
        v@.len() == 56,
        forall|j: int| 0 <= j < 4 ==> v@[j] == lbyte(XEN_HVM_START_MAGIC as int, j),
        forall|j: int| 4 <= j < 8 ==> v@[j] == lbyte(1, j - 4),
        forall|j: int| 8 <= j < 24 ==> v@[j] == 0u8,
        forall|j: int| 24 <= j < 32 ==> v@[j] == lbyte(cl_addr as int, j - 24),
        forall|j: int| 32 <= j < 40 ==> v@[j] == 0u8,
        forall|j: int| 40 <= j < 48 ==> v@[j] == lbyte(memmap_addr as int, j - 40),
        forall|j: int| 48 <= j < 52 ==> v@[j] == lbyte(2, j - 48),
        forall|j: int| 52 <= j < 56 ==> v@[j] == 0u8,
{
    let mut v = zero_vec(56);
    put_u32_le(&mut v, 0, XEN_HVM_START_MAGIC);
    put_u32_le(&mut v, 4, 1);
    put_u64_le(&mut v, 24, cl_addr);
    put_u64_le(&mut v, 40, memmap_addr);
    put_u32_le(&mut v, 48, 2);
    v
}

/// Build the two 24-byte RAM map entries.
fn build_memmap(mem_len: u64) -> (v: Vec<u8>)
    requires
        0x10_0000 <= mem_len,
    ensures
        v@.len() == 48,
        forall|j: int| 0 <= j < 8 ==> v@[j] == 0u8,
        forall|j: int| 8 <= j < 16 ==> v@[j] == lbyte(0x9_fc00, j - 8),
        forall|j: int| 16 <= j < 20 ==> v@[j] == lbyte(1, j - 16),
        forall|j: int| 20 <= j < 24 ==> v@[j] == 0u8,
        forall|j: int| 24 <= j < 32 ==> v@[j] == lbyte(0x10_0000, j - 24),
        forall|j: int| 32 <= j < 40 ==> v@[j] == lbyte(mem_len - 0x10_0000, j - 32),
        forall|j: int| 40 <= j < 44 ==> v@[j] == lbyte(1, j - 40),
        forall|j: int| 44 <= j < 48 ==> v@[j] == 0u8,
{
    let mut v = zero_vec(48);
    put_u64_le(&mut v, 8, 0x9_fc00);
    put_u32_le(&mut v, 16, 1);
    put_u64_le(&mut v, 24, 0x10_0000);
    put_u64_le(&mut v, 32, mem_len - 0x10_0000);
    put_u32_le(&mut v, 40, 1);
    v
}

/// Load an ELF64 kernel as a PVH guest: find the Xen entry note and
/// write the start-info block, command line and memory map above the
/// loaded image. Fails with `InvalidKernelImageFormat` when the image
/// carries no usable entry note, and with `OutOfGuestMemory` when the
/// blocks do not fit; on failure the memory is untouched.
#[verifier::rlimit(100)]
pub fn load_pvh(memory: &mut Vec<u8>, image: &[u8], exe_end: u64, params: &KernelParams) -> (r:
    Result<Bootable, HvError>)
    requires
        exe_end <= old(memory).len(),
        0x10_0000 <= old(memory).len() <= 0x10_0000_0000_0000,
        image@.len() <= 0x10_0000_0000_0000,
    ensures
        final(memory)@.len() == old(memory)@.len(),
        r is Ok <==> pvh_parse_ok(image@) && pvh_entry(image@) >= 0 && pvh_end(
            exe_end as int,
            *params,
        ) <= old(memory)@.len(),
        !(pvh_parse_ok(image@) && pvh_entry(image@) >= 0) ==> r == Err::<Bootable, HvError>(
            HvError::InvalidKernelImageFormat,
        ),
        pvh_parse_ok(image@) && pvh_entry(image@) >= 0 && pvh_end(exe_end as int, *params) > old(
            memory,
        )@.len() ==> r == Err::<Bootable, HvError>(HvError::OutOfGuestMemory),
        r is Err ==> final(memory)@ == old(memory)@,
        r is Ok ==> {
            &&& r.unwrap().protocol == BootProtocol::Pvh
            &&& r.unwrap().entry_addr as int == pvh_entry(image@)
            &&& r.unwrap().params_addr as int == pvh_si_addr(exe_end as int)
            &&& pvh_written(final(memory)@, exe_end as int, *params, old(memory)@.len() as int)
            &&& forall|i: int|
                0 <= i < old(memory)@.len() && !pvh_touched(i, exe_end as int, *params)
                    ==> final(memory)@[i] == old(memory)@[i]
        },
{
    let img_len: usize = image.len();
    if img_len < 64 {
        return Err(HvError::InvalidKernelImageFormat);
    }
    let phoff: u64 = crate::bytes::get_u64_le(image, 32);
    let phnum: u16 = crate::bytes::get_u16_le(image, 56);
    if phoff > img_len as u64 || 56 * phnum as u64 > img_len as u64 - phoff {
        return Err(HvError::InvalidKernelImageFormat);
    }
    let entry: i64 = scan_pvh_entry(image);
    if entry < 0 {
        return Err(HvError::InvalidKernelImageFormat);
    }

    let mem_len: u64 = memory.len() as u64;
    let mut allocator = RangeAllocator::new(exe_end);
    let si_addr: u64 = allocator.alloc_one(56, 8);
    let mut cl_addr: u64 = 0;
    if params.cmdline.is_some() {
        let cl_len: u64 = params.cmdline.as_ref().unwrap().len() as u64;
        if cl_len > mem_len {
            return Err(HvError::OutOfGuestMemory);
        }
        cl_addr = allocator.alloc_array(1, 1, cl_len + 1);
    }
    let memmap_addr: u64 = allocator.alloc_array(24, 8, 2);
    if allocator.addr > mem_len {
        return Err(HvError::OutOfGuestMemory);
    }

    let ghost m0: Seq<u8> = memory@;
    if params.cmdline.is_some() {
        let cl = params.cmdline.as_ref().unwrap();
        let c1 = copy_slice_to_guest(cl.as_slice(), memory, cl_addr);
        proof {
            assert(c1 is Ok);
        }
        let c2 = zero_guest_range(memory, cl_addr + cl.len() as u64, 1);
        proof {
            assert(c2 is Ok);
        }
    }
    let ghost m1: Seq<u8> = memory@;
    let memmap = build_memmap(mem_len);
    let c3 = copy_slice_to_guest(memmap.as_slice(), memory, memmap_addr);
    proof {
        assert(c3 is Ok);
    }
    let ghost m2: Seq<u8> = memory@;
    let si = build_start_info(cl_addr, memmap_addr);
    let c4 = copy_slice_to_guest(si.as_slice(), memory, si_addr);
    proof {
        assert(c4 is Ok);
    }

    proof {
        let e = exe_end as int;
        let p = *params;
        let m3 = memory@;
        let s = pvh_si_addr(e);
        let m = pvh_memmap_addr(e, p);
        assert forall|j: int| 0 <= j < 56 implies bp_byte(m3, s, j) == si@[j] by {
            assert(m3[s + j] == si@[j]);
        }
        assert forall|j: int| 0 <= j < 48 implies bp_byte(m3, m, j) == memmap@[j] by {
            assert(m2[m + j] == memmap@[j]);
            assert(m3[m + j] == m2[m + j]);
        }
        if p.cmdline is Some {
            let ca = pvh_cl_addr(e, p);
            let cl = opt_len(p.cmdline);
            assert forall|j: int| 0 <= j < cl implies m3[ca + j] == p.cmdline.unwrap()@[j] by {
                assert(m1[ca + j] == p.cmdline.unwrap()@[j]);
                assert(m2[ca + j] == m1[ca + j]);
                assert(m3[ca + j] == m2[ca + j]);
            }
            assert(m3.subrange(ca, ca + cl) =~= p.cmdline.unwrap()@);
            assert(m1[ca + cl] == 0u8);
            assert(m3[ca + cl] == 0u8);
        }
        assert forall|i: int|
            0 <= i < m0.len() && !pvh_touched(i, e, p) implies m3[i] == m0[i] by {
            assert(m1[i] == m0[i]);
            assert(m2[i] == m1[i]);
            assert(m3[i] == m2[i]);
        }
    }
    Ok(
        Bootable {
            protocol: BootProtocol::Pvh,
            entry_addr: entry as u64,
            params_addr: si_addr,
        },
    )
}

/// Decoding the written `hvm_start_info` yields the values that went
/// in: the magic, the two-entry memory map, and the command-line and
/// memory-map addresses.
pub proof fn lemma_pvh_decode(mem: Seq<u8>, exe_end: int, p: KernelParams, mem_len: int)
    requires
        pvh_written(mem, exe_end, p, mem_len),
        0 <= exe_end,
        pvh_end(exe_end, p) <= mem.len(),
        0x10_0000 <= mem_len <= 0xffff_ffff_ffff_ffff,
        pvh_end(exe_end, p) <= 0xffff_ffff_ffff_ffff,
    ensures
        le4(mem, pvh_si_addr(exe_end)) == XEN_HVM_START_MAGIC,
        le4(mem, pvh_si_addr(exe_end) + 4) == 1,
        le8(mem, pvh_si_addr(exe_end) + 24) == pvh_cl_addr(exe_end, p),
        le8(mem, pvh_si_addr(exe_end) + 40) == pvh_memmap_addr(exe_end, p),
        le4(mem, pvh_si_addr(exe_end) + 48) == 2,
        le8(mem, pvh_memmap_addr(exe_end, p) + 8) == 0x9_fc00,
        le4(mem, pvh_memmap_addr(exe_end, p) + 16) == 1,
        le8(mem, pvh_memmap_addr(exe_end, p) + 24) == 0x10_0000,
        le8(mem, pvh_memmap_addr(exe_end, p) + 32) == mem_len - 0x10_0000,
        le4(mem, pvh_memmap_addr(exe_end, p) + 40) == 1,
{
    let s = pvh_si_addr(exe_end);
    let m = pvh_memmap_addr(exe_end, p);
    crate::memory::lemma_round_up(exe_end, 8);
    if p.cmdline is Some {
        crate::memory::lemma_round_up(pvh_si_addr(exe_end) + 56 + opt_len(p.cmdline) + 1, 8);
    }
    assert forall|k: int|
        0 <= k < 4 implies mem[s + k] == #[trigger] lbyte(XEN_HVM_START_MAGIC as int, k) by {
        assert(bp_byte(mem, s, 0 + k) == lbyte(XEN_HVM_START_MAGIC as int, (0 + k) - 0));
    }
    lemma_le4_recompose(mem, s, XEN_HVM_START_MAGIC as u64);
    assert forall|k: int| 0 <= k < 4 implies mem[s + 4 + k] == #[trigger] lbyte(1, k) by {
        assert(bp_byte(mem, s, 4 + k) == lbyte(1, (4 + k) - 4));
    }
    lemma_le4_recompose(mem, s + 4, 1u64);
    assert forall|k: int|
        0 <= k < 8 implies mem[s + 24 + k] == #[trigger] lbyte(pvh_cl_addr(exe_end, p), k) by {
        assert(bp_byte(mem, s, 24 + k) == lbyte(pvh_cl_addr(exe_end, p), (24 + k) - 24));
    }
    lemma_le8_recompose(mem, s + 24, pvh_cl_addr(exe_end, p) as u64);
    assert forall|k: int| 0 <= k < 8 implies mem[s + 40 + k] == #[trigger] lbyte(m, k) by {
        assert(bp_byte(mem, s, 40 + k) == lbyte(m, (40 + k) - 40));
    }
    lemma_le8_recompose(mem, s + 40, m as u64);
    assert forall|k: int| 0 <= k < 4 implies mem[s + 48 + k] == #[trigger] lbyte(2, k) by {
        assert(bp_byte(mem, s, 48 + k) == lbyte(2, (48 + k) - 48));
    }
    lemma_le4_recompose(mem, s + 48, 2u64);
    assert forall|k: int| 0 <= k < 8 implies mem[m + 8 + k] == #[trigger] lbyte(0x9_fc00, k) by {
        assert(bp_byte(mem, m, 8 + k) == lbyte(0x9_fc00, (8 + k) - 8));
    }
    lemma_le8_recompose(mem, m + 8, 0x9_fc00u64);
    assert forall|k: int| 0 <= k < 4 implies mem[m + 16 + k] == #[trigger] lbyte(1, k) by {
        assert(bp_byte(mem, m, 16 + k) == lbyte(1, (16 + k) - 16));
    }
    lemma_le4_recompose(mem, m + 16, 1u64);
    assert forall|k: int| 0 <= k < 8 implies mem[m + 24 + k] == #[trigger] lbyte(0x10_0000, k) by {
        assert(bp_byte(mem, m, 24 + k) == lbyte(0x10_0000, (24 + k) - 24));
    }
    lemma_le8_recompose(mem, m + 24, 0x10_0000u64);
    assert forall|k: int|
        0 <= k < 8 implies mem[m + 32 + k] == #[trigger] lbyte(mem_len - 0x10_0000, k) by {
        assert(bp_byte(mem, m, 32 + k) == lbyte(mem_len - 0x10_0000, (32 + k) - 32));
    }
    lemma_le8_recompose(mem, m + 32, (mem_len - 0x10_0000) as u64);
    assert forall|k: int| 0 <= k < 4 implies mem[m + 40 + k] == #[trigger] lbyte(1, k) by {
        assert(bp_byte(mem, m, 40 + k) == lbyte(1, (40 + k) - 40));
    }
    lemma_le4_recompose(mem, m + 40, 1u64);
}

} // verus!
