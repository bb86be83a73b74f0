//! ELF32 and ELF64 loading: validating the header and program-header
//! table, copying every `PT_LOAD` segment into guest-physical memory at
//! its physical address, and zero-filling each segment's tail up to its
//! memory size. Loading is atomic: an invalid or unloadable image
//! leaves guest memory untouched.

use vstd::prelude::*;
use crate::HvError;
use crate::bytes::{le2, le4, le8, splice, zero_bytes};
use crate::memory::{copy_slice_to_guest, zero_guest_range};

verus! {

pub const PT_LOAD: u32 = 1;
pub const PT_NOTE: u32 = 4;

/// The loader's result: the guest-physical entry point and the highest
/// guest-physical address occupied by any loaded segment.
pub struct LoadedExecutable {
    pub entry_addr: u64,
    pub max_addr: u64,
}

// --- ELF64 structure ---

pub open spec fn elf64_header_ok(img: Seq<u8>) -> bool {
    &&& img.len() >= 64
    &&& img[0] == 0x7f
    &&& img[1] == 0x45
    &&& img[2] == 0x4c
    &&& img[3] == 0x46
    &&& img[4] == 2
    &&& img[5] == 1
    &&& le2(img, 54) == 56
    &&& le8(img, 32) >= 64
}

pub open spec fn elf64_entry(img: Seq<u8>) -> int {
    le8(img, 24)
}

pub open spec fn elf64_phoff(img: Seq<u8>) -> int {
    le8(img, 32)
}

pub open spec fn elf64_phnum(img: Seq<u8>) -> int {
    le2(img, 56)
}

/// The program-header table lies entirely inside the image.
pub open spec fn elf64_phdrs_fit(img: Seq<u8>) -> bool {
    elf64_phoff(img) + 56 * elf64_phnum(img) <= img.len()
}

pub open spec fn elf64_ph(img: Seq<u8>, i: int) -> int {
    elf64_phoff(img) + 56 * i
}

pub open spec fn elf64_ptype(img: Seq<u8>, i: int) -> int {
    le4(img, elf64_ph(img, i))
}

pub open spec fn elf64_poffset(img: Seq<u8>, i: int) -> int {
    le8(img, elf64_ph(img, i) + 8)
}

pub open spec fn elf64_paddr(img: Seq<u8>, i: int) -> int {
    le8(img, elf64_ph(img, i) + 24)
}

pub open spec fn elf64_filesz(img: Seq<u8>, i: int) -> int {
    le8(img, elf64_ph(img, i) + 32)
}

pub open spec fn elf64_memsz(img: Seq<u8>, i: int) -> int {
    le8(img, elf64_ph(img, i) + 40)
}

/// Segment `i` is either not loaded or its file-backed part lies inside
/// the image and does not exceed its memory size.
pub open spec fn elf64_seg_image_ok(img: Seq<u8>, i: int) -> bool {
    elf64_ptype(img, i) == PT_LOAD ==> {
        &&& elf64_filesz(img, i) <= elf64_memsz(img, i)
        &&& elf64_poffset(img, i) + elf64_filesz(img, i) <= img.len()
    }
}

/// The image parses as a loadable ELF64: valid header, program headers
/// in range, and every `PT_LOAD` segment well-formed.
pub open spec fn elf64_image_ok(img: Seq<u8>) -> bool {
    &&& elf64_header_ok(img)
    &&& elf64_phdrs_fit(img)
    &&& forall|i: int| 0 <= i < elf64_phnum(img) ==> elf64_seg_image_ok(img, i)
}

pub open spec fn elf64_seg_fits(img: Seq<u8>, i: int, mem_len: int) -> bool {
    elf64_ptype(img, i) == PT_LOAD ==> elf64_paddr(img, i) + elf64_memsz(img, i) <= mem_len
}

/// Every loaded segment lies inside guest memory.
pub open spec fn elf64_fits(img: Seq<u8>, mem_len: int) -> bool {
    forall|i: int| 0 <= i < elf64_phnum(img) ==> elf64_seg_fits(img, i, mem_len)
}

/// Guest memory after loading segment `i`: the file-backed bytes are
/// copied to the segment's physical address and the rest of the segment
/// is zero-filled.
pub open spec fn elf64_apply_seg(mem: Seq<u8>, img: Seq<u8>, i: int) -> Seq<u8> {
    let off = elf64_poffset(img, i);
    let paddr = elf64_paddr(img, i);
    let filesz = elf64_filesz(img, i);
    let memsz = elf64_memsz(img, i);
    splice(
        splice(mem, paddr, img.subrange(off, off + filesz)),
        paddr + filesz,
        zero_bytes(memsz - filesz),
    )
}

/// Guest memory after loading the first `k` program headers in order.
pub open spec fn elf64_load_upto(mem: Seq<u8>, img: Seq<u8>, k: int) -> Seq<u8>
    decreases k,
{
    if k <= 0 {
        mem
    } else {
        let prev = elf64_load_upto(mem, img, k - 1);
        if elf64_ptype(img, k - 1) == PT_LOAD {
            elf64_apply_seg(prev, img, k - 1)
        } else {
            prev
        }
    }
}

/// Highest `p_paddr + p_memsz` over the first `k` loaded segments.
pub open spec fn elf64_max_upto(img: Seq<u8>, k: int) -> int
    decreases k,
{
    if k <= 0 {
        0
    } else {
        let prev = elf64_max_upto(img, k - 1);
        if elf64_ptype(img, k - 1) == PT_LOAD && elf64_paddr(img, k - 1) + elf64_memsz(img, k - 1)
            > prev {
            elf64_paddr(img, k - 1) + elf64_memsz(img, k - 1)
        } else {
            prev
        }
    }
}

pub proof fn lemma_elf64_load_upto_len(mem: Seq<u8>, img: Seq<u8>, k: int)
    ensures
        elf64_load_upto(mem, img, k).len() == mem.len(),
    decreases k,
{
    if k > 0 {
        lemma_elf64_load_upto_len(mem, img, k - 1);
    }
}

/// Load an ELF64 image into guest memory. Succeeds exactly when the
/// image is a well-formed loadable ELF64 whose segments all fit inside
/// guest memory; on failure the memory is untouched.
#[verifier::rlimit(100)]
pub fn load_elf64(memory: &mut Vec<u8>, image: &[u8]) -> (r: Result<LoadedExecutable, HvError>)
    ensures
        final(memory)@.len() == old(memory)@.len(),
        r is Ok <==> elf64_image_ok(image@) && elf64_fits(image@, old(memory)@.len() as int),
        r is Ok ==> {
            &&& final(memory)@ == elf64_load_upto(old(memory)@, image@, elf64_phnum(image@))
            &&& r.unwrap().entry_addr as int == elf64_entry(image@)
            &&& r.unwrap().max_addr as int == elf64_max_upto(image@, elf64_phnum(image@))
        },
        r is Err ==> final(memory)@ == old(memory)@,
        !(elf64_image_ok(image@)) ==> r == Err::<LoadedExecutable, HvError>(
            HvError::InvalidKernelImageFormat,
        ),
        elf64_image_ok(image@) && !elf64_fits(image@, old(memory)@.len() as int) ==> r
            == Err::<LoadedExecutable, HvError>(HvError::OutOfGuestMemory),
{
    let img_len: usize = image.len();
    if img_len < 64 {
        return Err(HvError::InvalidKernelImageFormat);
    }
    let magic_ok = crate::bytes::get_u8(image, 0) == 0x7f && crate::bytes::get_u8(image, 1) == 0x45
        && crate::bytes::get_u8(image, 2) == 0x4c && crate::bytes::get_u8(image, 3) == 0x46
        && crate::bytes::get_u8(image, 4) == 2 && crate::bytes::get_u8(image, 5) == 1;
    let phentsize = crate::bytes::get_u16_le(image, 54);
    let phoff = crate::bytes::get_u64_le(image, 32);
    if !magic_ok || phentsize != 56 || phoff < 64 {
        return Err(HvError::InvalidKernelImageFormat);
    }
    let phnum = crate::bytes::get_u16_le(image, 56);
    if phoff > img_len as u64 || 56 * phnum as u64 > img_len as u64 - phoff {
        return Err(HvError::InvalidKernelImageFormat);
    }
    let entry_addr = crate::bytes::get_u64_le(image, 24);
    let mem_len: usize = memory.len();

    // First pass: validate every loaded segment against the image, so
    // that an invalid image is rejected before anything is written.
    let mut i: usize = 0;
    while i < phnum as usize
        invariant
            i <= phnum as usize,
            phnum as int == elf64_phnum(image@),
            phoff as int == elf64_phoff(image@),
            phoff + 56 * phnum as u64 <= img_len as u64,
            img_len == image@.len(),
            elf64_header_ok(image@),
            elf64_phdrs_fit(image@),
            forall|j: int| 0 <= j < i ==> elf64_seg_image_ok(image@, j),
        decreases phnum as usize - i,
    {
        let ph: usize = phoff as usize + 56 * i;
        let ptype = crate::bytes::get_u32_le(image, ph);
        if ptype == PT_LOAD {
            let poffset = crate::bytes::get_u64_le(image, ph + 8);
            let filesz = crate::bytes::get_u64_le(image, ph + 32);
            let memsz = crate::bytes::get_u64_le(image, ph + 40);
            if filesz > memsz || poffset > img_len as u64 || filesz > img_len as u64 - poffset {
                proof {
                    assert(!elf64_seg_image_ok(image@, i as int));
                    assert(!elf64_image_ok(image@));
                }
                return Err(HvError::InvalidKernelImageFormat);
            }
        }
        i += 1;
    }

    // Second pass: check that every loaded segment fits in guest memory
    // and compute the highest occupied address, so that the copying pass
    // cannot fail half-way.
    let mut max_addr: u64 = 0;
    let mut i2: usize = 0;
    while i2 < phnum as usize
        invariant
            i2 <= phnum as usize,
            phnum as int == elf64_phnum(image@),
            phoff as int == elf64_phoff(image@),
            phoff + 56 * phnum as u64 <= img_len as u64,
            img_len == image@.len(),
            mem_len == memory@.len(),
            elf64_image_ok(image@),
            forall|j: int| 0 <= j < i2 ==> elf64_seg_fits(image@, j, mem_len as int),
            max_addr as int == elf64_max_upto(image@, i2 as int),
            max_addr <= mem_len as u64,
        decreases phnum as usize - i2,
    {
        let ph: usize = phoff as usize + 56 * i2;
        let ptype = crate::bytes::get_u32_le(image, ph);
        if ptype == PT_LOAD {
            let paddr = crate::bytes::get_u64_le(image, ph + 24);
            let memsz = crate::bytes::get_u64_le(image, ph + 40);
            if paddr > mem_len as u64 || memsz > mem_len as u64 - paddr {
                proof {
                    assert(!elf64_seg_fits(image@, i2 as int, mem_len as int));
                    assert(!elf64_fits(image@, mem_len as int));
                }
                return Err(HvError::OutOfGuestMemory);
            }
            if paddr + memsz > max_addr {
                max_addr = paddr + memsz;
            }
        }
        i2 += 1;
    }

    // Second pass: copy and zero-fill each loaded segment.
    let ghost entry_mem: Seq<u8> = memory@;
    let mut k: usize = 0;
    while k < phnum as usize
        invariant
            k <= phnum as usize,
            phnum as int == elf64_phnum(image@),
            phoff as int == elf64_phoff(image@),
            phoff + 56 * phnum as u64 <= img_len as u64,
            img_len == image@.len(),
            mem_len == entry_mem.len(),
            elf64_image_ok(image@),
            elf64_fits(image@, mem_len as int),
            memory@ == elf64_load_upto(entry_mem, image@, k as int),
        decreases phnum as usize - k,
    {
        proof {
            lemma_elf64_load_upto_len(entry_mem, image@, k as int);
        }
        let ph: usize = phoff as usize + 56 * k;
        let ptype = crate::bytes::get_u32_le(image, ph);
        if ptype == PT_LOAD {
            let poffset = crate::bytes::get_u64_le(image, ph + 8);
            let paddr = crate::bytes::get_u64_le(image, ph + 24);
            let filesz = crate::bytes::get_u64_le(image, ph + 32);
            let memsz = crate::bytes::get_u64_le(image, ph + 40);
            assert(elf64_seg_image_ok(image@, k as int));
            assert(elf64_seg_fits(image@, k as int, mem_len as int));
            let seg = vstd::slice::slice_subrange(
                image,
                poffset as usize,
                (poffset + filesz) as usize,
            );
            let copied = copy_slice_to_guest(seg, memory, paddr);
            proof {
                assert(copied is Ok);
            }
            if copied.is_err() {
                return Err(HvError::OutOfGuestMemory);
            }
            let zeroed = zero_guest_range(memory, paddr + filesz, memsz - filesz);
            proof {
                assert(zeroed is Ok);
            }
            if zeroed.is_err() {
                return Err(HvError::OutOfGuestMemory);
            }
            proof {
                assert(memory@ =~= elf64_load_upto(entry_mem, image@, k + 1));
            }
        }
        k += 1;
    }

    proof {
        lemma_elf64_load_upto_len(entry_mem, image@, elf64_phnum(image@));
    }
    Ok(LoadedExecutable { entry_addr, max_addr })
}

// --- ELF32 structure ---

pub open spec fn elf32_header_ok(img: Seq<u8>) -> bool {
    &&& img.len() >= 52
    &&& img[0] == 0x7f
    &&& img[1] == 0x45
    &&& img[2] == 0x4c
    &&& img[3] == 0x46
    &&& img[4] == 1
    &&& img[5] == 1
    &&& le2(img, 42) == 32
    &&& le4(img, 28) >= 52
}

pub open spec fn elf32_entry(img: Seq<u8>) -> int {
    le4(img, 24)
}

pub open spec fn elf32_phoff(img: Seq<u8>) -> int {
    le4(img, 28)
}

pub open spec fn elf32_phnum(img: Seq<u8>) -> int {
    le2(img, 44)
}

/// The program-header table lies entirely inside the image.
pub open spec fn elf32_phdrs_fit(img: Seq<u8>) -> bool {
    elf32_phoff(img) + 32 * elf32_phnum(img) <= img.len()
}

pub open spec fn elf32_ph(img: Seq<u8>, i: int) -> int {
    elf32_phoff(img) + 32 * i
}

pub open spec fn elf32_ptype(img: Seq<u8>, i: int) -> int {
    le4(img, elf32_ph(img, i))
}

pub open spec fn elf32_poffset(img: Seq<u8>, i: int) -> int {
    le4(img, elf32_ph(img, i) + 4)
}

pub open spec fn elf32_paddr(img: Seq<u8>, i: int) -> int {
    le4(img, elf32_ph(img, i) + 12)
}

pub open spec fn elf32_filesz(img: Seq<u8>, i: int) -> int {
    le4(img, elf32_ph(img, i) + 16)
}

pub open spec fn elf32_memsz(img: Seq<u8>, i: int) -> int {
    le4(img, elf32_ph(img, i) + 20)
}

/// Segment `i` is either not loaded or its file-backed part lies inside
/// the image and does not exceed its memory size.
pub open spec fn elf32_seg_image_ok(img: Seq<u8>, i: int) -> bool {
    elf32_ptype(img, i) == PT_LOAD ==> {
        &&& elf32_filesz(img, i) <= elf32_memsz(img, i)
        &&& elf32_poffset(img, i) + elf32_filesz(img, i) <= img.len()
    }
}

/// The image parses as a loadable ELF32: valid header, program headers
/// in range, and every `PT_LOAD` segment well-formed.
pub open spec fn elf32_image_ok(img: Seq<u8>) -> bool {
    &&& elf32_header_ok(img)
    &&& elf32_phdrs_fit(img)
    &&& forall|i: int| 0 <= i < elf32_phnum(img) ==> elf32_seg_image_ok(img, i)
}

pub open spec fn elf32_seg_fits(img: Seq<u8>, i: int, mem_len: int) -> bool {
    elf32_ptype(img, i) == PT_LOAD ==> elf32_paddr(img, i) + elf32_memsz(img, i) <= mem_len
}

/// Every loaded segment lies inside guest memory.
pub open spec fn elf32_fits(img: Seq<u8>, mem_len: int) -> bool {
    forall|i: int| 0 <= i < elf32_phnum(img) ==> elf32_seg_fits(img, i, mem_len)
}

/// Guest memory after loading segment `i`.
pub open spec fn elf32_apply_seg(mem: Seq<u8>, img: Seq<u8>, i: int) -> Seq<u8> {
    let off = elf32_poffset(img, i);
    let paddr = elf32_paddr(img, i);
    let filesz = elf32_filesz(img, i);
    let memsz = elf32_memsz(img, i);
    splice(
        splice(mem, paddr, img.subrange(off, off + filesz)),
        paddr + filesz,
        zero_bytes(memsz - filesz),
    )
}

/// Guest memory after loading the first `k` program headers in order.
pub open spec fn elf32_load_upto(mem: Seq<u8>, img: Seq<u8>, k: int) -> Seq<u8>
    decreases k,
{
    if k <= 0 {
        mem
    } else {
        let prev = elf32_load_upto(mem, img, k - 1);
        if elf32_ptype(img, k - 1) == PT_LOAD {
            elf32_apply_seg(prev, img, k - 1)
        } else {
            prev
        }
    }
}

/// Highest `p_paddr + p_memsz` over the first `k` loaded segments.
pub open spec fn elf32_max_upto(img: Seq<u8>, k: int) -> int
    decreases k,
{
    if k <= 0 {
        0
    } else {
        let prev = elf32_max_upto(img, k - 1);
        if elf32_ptype(img, k - 1) == PT_LOAD && elf32_paddr(img, k - 1) + elf32_memsz(img, k - 1)
            > prev {
            elf32_paddr(img, k - 1) + elf32_memsz(img, k - 1)
        } else {
            prev
        }
    }
}

pub proof fn lemma_elf32_load_upto_len(mem: Seq<u8>, img: Seq<u8>, k: int)
    ensures
        elf32_load_upto(mem, img, k).len() == mem.len(),
    decreases k,
{
    if k > 0 {
        lemma_elf32_load_upto_len(mem, img, k - 1);
    }
}

/// Load an ELF32 image into guest memory. Succeeds exactly when the
/// image is a well-formed loadable ELF32 whose segments all fit inside
/// guest memory; on failure the memory is untouched.
#[verifier::rlimit(100)]
pub fn load_elf32(memory: &mut Vec<u8>, image: &[u8]) -> (r: Result<LoadedExecutable, HvError>)
    ensures
        final(memory)@.len() == old(memory)@.len(),
        r is Ok <==> elf32_image_ok(image@) && elf32_fits(image@, old(memory)@.len() as int),
        r is Ok ==> {
            &&& final(memory)@ == elf32_load_upto(old(memory)@, image@, elf32_phnum(image@))
            &&& r.unwrap().entry_addr as int == elf32_entry(image@)
            &&& r.unwrap().max_addr as int == elf32_max_upto(image@, elf32_phnum(image@))
        },
        r is Err ==> final(memory)@ == old(memory)@,
        !(elf32_image_ok(image@)) ==> r == Err::<LoadedExecutable, HvError>(
            HvError::InvalidKernelImageFormat,
        ),
        elf32_image_ok(image@) && !elf32_fits(image@, old(memory)@.len() as int) ==> r
            == Err::<LoadedExecutable, HvError>(HvError::OutOfGuestMemory),
{
    let img_len: usize = image.len();
    if img_len < 52 {
        return Err(HvError::InvalidKernelImageFormat);
    }
    let magic_ok = crate::bytes::get_u8(image, 0) == 0x7f && crate::bytes::get_u8(image, 1) == 0x45
        && crate::bytes::get_u8(image, 2) == 0x4c && crate::bytes::get_u8(image, 3) == 0x46
        && crate::bytes::get_u8(image, 4) == 1 && crate::bytes::get_u8(image, 5) == 1;
    let phentsize = crate::bytes::get_u16_le(image, 42);
    let phoff = crate::bytes::get_u32_le(image, 28);
    if !magic_ok || phentsize != 32 || phoff < 52 {
        return Err(HvError::InvalidKernelImageFormat);
    }
    let phnum = crate::bytes::get_u16_le(image, 44);
    if phoff as u64 > img_len as u64 || 32 * phnum as u64 > img_len as u64 - phoff as u64 {
        return Err(HvError::InvalidKernelImageFormat);
    }
    let entry_addr = crate::bytes::get_u32_le(image, 24);
    let mem_len: usize = memory.len();

    // First pass: validate every loaded segment against the image, so
    // that an invalid image is rejected before anything is written.
    let mut i: usize = 0;
    while i < phnum as usize
        invariant
            i <= phnum as usize,
            phnum as int == elf32_phnum(image@),
            phoff as int == elf32_phoff(image@),
            phoff as u64 + 32 * phnum as u64 <= img_len as u64,
            img_len == image@.len(),
            elf32_header_ok(image@),
            elf32_phdrs_fit(image@),
            forall|j: int| 0 <= j < i ==> elf32_seg_image_ok(image@, j),
        decreases phnum as usize - i,
    {
        let ph: usize = phoff as usize + 32 * i;
        let ptype = crate::bytes::get_u32_le(image, ph);
        if ptype == PT_LOAD {
            let poffset = crate::bytes::get_u32_le(image, ph + 4);
            let filesz = crate::bytes::get_u32_le(image, ph + 16);
            let memsz = crate::bytes::get_u32_le(image, ph + 20);
            if filesz > memsz || poffset as u64 > img_len as u64 || filesz as u64 > img_len as u64
                - poffset as u64 {
                proof {
                    assert(!elf32_seg_image_ok(image@, i as int));
                    assert(!elf32_image_ok(image@));
                }
                return Err(HvError::InvalidKernelImageFormat);
            }
        }
        i += 1;
    }

    // Second pass: check that every loaded segment fits in guest memory
    // and compute the highest occupied address.
    let mut max_addr: u64 = 0;
    let mut i2: usize = 0;
    while i2 < phnum as usize
        invariant
            i2 <= phnum as usize,
            phnum as int == elf32_phnum(image@),
            phoff as int == elf32_phoff(image@),
            phoff as u64 + 32 * phnum as u64 <= img_len as u64,
            img_len == image@.len(),
            mem_len == memory@.len(),
            elf32_image_ok(image@),
            forall|j: int| 0 <= j < i2 ==> elf32_seg_fits(image@, j, mem_len as int),
            max_addr as int == elf32_max_upto(image@, i2 as int),
            max_addr <= mem_len as u64,
        decreases phnum as usize - i2,
    {
        let ph: usize = phoff as usize + 32 * i2;
        let ptype = crate::bytes::get_u32_le(image, ph);
        if ptype == PT_LOAD {
            let paddr = crate::bytes::get_u32_le(image, ph + 12);
            let memsz = crate::bytes::get_u32_le(image, ph + 20);
            if paddr as u64 > mem_len as u64 || memsz as u64 > mem_len as u64 - paddr as u64 {
                proof {
                    assert(!elf32_seg_fits(image@, i2 as int, mem_len as int));
                    assert(!elf32_fits(image@, mem_len as int));
                }
                return Err(HvError::OutOfGuestMemory);
            }
            if paddr as u64 + memsz as u64 > max_addr {
                max_addr = paddr as u64 + memsz as u64;
            }
        }
        i2 += 1;
    }

    // Third pass: copy and zero-fill each loaded segment.
    let ghost entry_mem: Seq<u8> = memory@;
    let mut k: usize = 0;
    while k < phnum as usize
        invariant
            k <= phnum as usize,
            phnum as int == elf32_phnum(image@),
            phoff as int == elf32_phoff(image@),
            phoff as u64 + 32 * phnum as u64 <= img_len as u64,
            img_len == image@.len(),
            mem_len == entry_mem.len(),
            elf32_image_ok(image@),
            elf32_fits(image@, mem_len as int),
            memory@ == elf32_load_upto(entry_mem, image@, k as int),
        decreases phnum as usize - k,
    {
        proof {
            lemma_elf32_load_upto_len(entry_mem, image@, k as int);
        }
        let ph: usize = phoff as usize + 32 * k;
        let ptype = crate::bytes::get_u32_le(image, ph);
        if ptype == PT_LOAD {
            let poffset = crate::bytes::get_u32_le(image, ph + 4);
            let paddr = crate::bytes::get_u32_le(image, ph + 12);
            let filesz = crate::bytes::get_u32_le(image, ph + 16);
            let memsz = crate::bytes::get_u32_le(image, ph + 20);
            assert(elf32_seg_image_ok(image@, k as int));
            assert(elf32_seg_fits(image@, k as int, mem_len as int));
            let seg = vstd::slice::slice_subrange(
                image,
                poffset as usize,
                poffset as usize + filesz as usize,
            );
            let copied = copy_slice_to_guest(seg, memory, paddr as u64);
            proof {
                assert(copied is Ok);
            }
            if copied.is_err() {
                return Err(HvError::OutOfGuestMemory);
            }
            let zeroed = zero_guest_range(
                memory,
                paddr as u64 + filesz as u64,
                memsz as u64 - filesz as u64,
            );
            proof {
                assert(zeroed is Ok);
            }
            if zeroed.is_err() {
                return Err(HvError::OutOfGuestMemory);
            }
            proof {
                assert(memory@ =~= elf32_load_upto(entry_mem, image@, k + 1));
            }
        }
        k += 1;
    }

    proof {
        lemma_elf32_load_upto_len(entry_mem, image@, elf32_phnum(image@));
    }
    Ok(LoadedExecutable { entry_addr: entry_addr as u64, max_addr })
}

/// The highest loaded address stays within guest memory when every
/// segment fits.
pub proof fn lemma_elf64_max_le(img: Seq<u8>, k: int, mem_len: int)
    requires
        mem_len >= 0,
        forall|i: int| 0 <= i < elf64_phnum(img) ==> elf64_seg_fits(img, i, mem_len),
        k <= elf64_phnum(img),
    ensures
        elf64_max_upto(img, k) <= mem_len,
    decreases k,
{
    if k > 0 {
        lemma_elf64_max_le(img, k - 1, mem_len);
        assert(elf64_seg_fits(img, k - 1, mem_len));
    }
}

/// The highest loaded address stays within guest memory when every
/// segment fits.
pub proof fn lemma_elf32_max_le(img: Seq<u8>, k: int, mem_len: int)
    requires
        mem_len >= 0,
        forall|i: int| 0 <= i < elf32_phnum(img) ==> elf32_seg_fits(img, i, mem_len),
        k <= elf32_phnum(img),
    ensures
        elf32_max_upto(img, k) <= mem_len,
    decreases k,
{
    if k > 0 {
        lemma_elf32_max_le(img, k - 1, mem_len);
        assert(elf32_seg_fits(img, k - 1, mem_len));
    }
}

} // verus!
