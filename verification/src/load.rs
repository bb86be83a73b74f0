//! Boot-protocol selection: try the kernel image as an ELF64 (with a
//! PVH entry note taking precedence over plain 64-bit Linux), then as
//! an ELF32 (with a Multiboot header taking precedence over 32-bit
//! Linux), then as a bzImage, and reject it otherwise.

use vstd::prelude::*;
use crate::HvError;
use crate::boot::{Bootable, BootProtocol};
use crate::bytes::le4;
use crate::elf::{
    elf32_entry, elf32_fits, elf32_image_ok, elf32_load_upto, elf32_max_upto, elf32_phnum,
    elf64_entry, elf64_fits, elf64_image_ok, elf64_load_upto, elf64_max_upto, elf64_phnum,
    lemma_elf32_max_le, lemma_elf64_max_le, load_elf32, load_elf64,
};
use crate::linux_boot::{
    bz_err, bz_exe_end, bz_image, bz_header_ok, bz_setup_size, default_hdr_bytes,
    default_setup_header, linux_page_written, linux_params_addr, linux_touched, linux_write_err,
    load_bz_image, opt_len, write_linux_boot_params,
};
use crate::multiboot::{
    find_mb_magic, has_mb_magic, mb_end, mb_info_addr, mb_info_written, mb_mmap_written,
    mb_module_ok, mb_touched, write_multiboot_info,
};
use crate::params::KernelParams;
use crate::pvh::{
    load_pvh, pvh_end, pvh_entry, pvh_parse_ok, pvh_si_addr, pvh_touched, pvh_written,
};

verus! {

/// Whether the image is selected as an ELF64.
pub open spec fn sel_elf64(mem_len: int, k: Seq<u8>) -> bool {
    elf64_image_ok(k) && elf64_fits(k, mem_len)
}

/// Whether the image is selected as an ELF32.
pub open spec fn sel_elf32(mem_len: int, k: Seq<u8>) -> bool {
    elf32_image_ok(k) && elf32_fits(k, mem_len)
}

/// Guest memory after the ELF64 segments are loaded.
pub open spec fn elf64_mem(m0: Seq<u8>, k: Seq<u8>) -> Seq<u8> {
    elf64_load_upto(m0, k, elf64_phnum(k))
}

/// Guest memory after the ELF32 segments are loaded.
pub open spec fn elf32_mem(m0: Seq<u8>, k: Seq<u8>) -> Seq<u8> {
    elf32_load_upto(m0, k, elf32_phnum(k))
}

/// Highest address occupied by the loaded ELF64 image.
pub open spec fn elf64_max(k: Seq<u8>) -> int {
    elf64_max_upto(k, elf64_phnum(k))
}

/// Highest address occupied by the loaded ELF32 image.
pub open spec fn elf32_max(k: Seq<u8>) -> int {
    elf32_max_upto(k, elf32_phnum(k))
}

/// Whether the loaded ELF64 also carries a usable PVH entry note that
/// is taken in preference to the plain 64-bit Linux protocol.
pub open spec fn sel_pvh(mem_len: int, k: Seq<u8>, p: KernelParams) -> bool {
    pvh_parse_ok(k) && pvh_entry(k) >= 0 && pvh_end(elf64_max(k), p) <= mem_len
}

impl Bootable {
    /// Load a kernel image, selecting its boot protocol: ELF64 becomes
    /// PVH when the Xen entry note is present and 64-bit Linux
    /// otherwise; ELF32 becomes Multiboot when the header magic is
    /// found in the first 8 KiB and 32-bit Linux otherwise; a bzImage
    /// boots as 32-bit Linux; anything else is rejected as an invalid
    /// kernel image.
    #[verifier::rlimit(100)]
    pub fn load(memory: &mut Vec<u8>, kernel: &[u8], params: &KernelParams) -> (r: Result<
        Bootable,
        HvError,
    >)
        requires
            0x10_0000 <= old(memory).len() <= 0x10_0000_0000_0000,
            kernel@.len() <= 0x10_0000_0000_0000,
        ensures
            final(memory)@.len() == old(memory)@.len(),
            sel_elf64(old(memory)@.len() as int, kernel@) ==> {
                let mem_len = old(memory)@.len() as int;
                let k = kernel@;
                let p = *params;
                let m1 = elf64_mem(old(memory)@, k);
                let max = elf64_max(k);
                &&& (sel_pvh(mem_len, k, p) ==> {
                    &&& r == Ok::<Bootable, HvError>(
                        Bootable {
                            protocol: BootProtocol::Pvh,
                            entry_addr: pvh_entry(k) as u64,
                            params_addr: pvh_si_addr(max) as u64,
                        },
                    )
                    &&& pvh_written(final(memory)@, max, p, mem_len)
                    &&& forall|i: int|
                        0 <= i < mem_len && !pvh_touched(i, max, p) ==> final(memory)@[i] == m1[i]
                })
                &&& (!sel_pvh(mem_len, k, p) ==> {
                    let werr = linux_write_err(mem_len, default_hdr_bytes(), max, p);
                    &&& (werr is Some ==> r == Err::<Bootable, HvError>(werr.unwrap())
                        && final(memory)@ == m1)
                    &&& (werr is None ==> {
                        &&& r == Ok::<Bootable, HvError>(
                            Bootable {
                                protocol: BootProtocol::Linux64,
                                entry_addr: elf64_entry(k) as u64,
                                params_addr: linux_params_addr(max, p) as u64,
                            },
                        )
                        &&& linux_page_written(
                            final(memory)@,
                            linux_params_addr(max, p),
                            default_hdr_bytes(),
                            mem_len,
                            max,
                            p,
                        )
                        &&& forall|i: int|
                            0 <= i < mem_len && !linux_touched(i, max, p) ==> final(memory)@[i]
                                == m1[i]
                    })
                })
            },
            !sel_elf64(old(memory)@.len() as int, kernel@) && sel_elf32(
                old(memory)@.len() as int,
                kernel@,
            ) ==> {
                let mem_len = old(memory)@.len() as int;
                let k = kernel@;
                let p = *params;
                let m1 = elf32_mem(old(memory)@, k);
                let max = elf32_max(k);
                &&& (has_mb_magic(k) ==> {
                    &&& (mb_end(max, p) <= mem_len ==> {
                        &&& r == Ok::<Bootable, HvError>(
                            Bootable {
                                protocol: BootProtocol::Multiboot,
                                entry_addr: elf32_entry(k) as u64,
                                params_addr: mb_info_addr(max) as u64,
                            },
                        )
                        &&& mb_info_written(final(memory)@, max, p)
                        &&& mb_mmap_written(final(memory)@, max, p, mem_len)
                        &&& forall|q: int|
                            0 <= q < p.modules@.len() ==> mb_module_ok(final(memory)@, max, p, q)
                        &&& forall|i: int|
                            0 <= i < mem_len && !mb_touched(i, max, p) ==> final(memory)@[i]
                                == m1[i]
                    })
                    &&& (mb_end(max, p) > mem_len ==> r == Err::<Bootable, HvError>(
                        HvError::OutOfGuestMemory,
                    ) && final(memory)@ == m1)
                })
                &&& (!has_mb_magic(k) ==> {
                    let werr = linux_write_err(mem_len, default_hdr_bytes(), max, p);
                    &&& (werr is Some ==> r == Err::<Bootable, HvError>(werr.unwrap())
                        && final(memory)@ == m1)
                    &&& (werr is None ==> {
                        &&& r == Ok::<Bootable, HvError>(
                            Bootable {
                                protocol: BootProtocol::Linux32,
                                entry_addr: elf32_entry(k) as u64,
                                params_addr: linux_params_addr(max, p) as u64,
                            },
                        )
                        &&& linux_page_written(
                            final(memory)@,
                            linux_params_addr(max, p),
                            default_hdr_bytes(),
                            mem_len,
                            max,
                            p,
                        )
                        &&& forall|i: int|
                            0 <= i < mem_len && !linux_touched(i, max, p) ==> final(memory)@[i]
                                == m1[i]
                    })
                })
            },
            !sel_elf64(old(memory)@.len() as int, kernel@) && !sel_elf32(
                old(memory)@.len() as int,
                kernel@,
            ) ==> {
                let mem_len = old(memory)@.len() as int;
                let k = kernel@;
                let p = *params;
                &&& (bz_err(mem_len, k, p) is None ==> r == Ok::<Bootable, HvError>(
                    Bootable {
                        protocol: BootProtocol::Linux32,
                        entry_addr: le4(k, 0x214) as u64,
                        params_addr: linux_params_addr(bz_exe_end(k), p) as u64,
                    },
                ) && final(memory)@.subrange(0x10_0000, bz_exe_end(k)) == bz_image(k)
                    && linux_page_written(
                    final(memory)@,
                    linux_params_addr(bz_exe_end(k), p),
                    k.subrange(0x1f1, 0x26c),
                    mem_len,
                    bz_exe_end(k),
                    p,
                ))
                &&& (bz_err(mem_len, k, p) is Some ==> r == Err::<Bootable, HvError>(
                    HvError::InvalidKernelImageFormat,
                ))
                &&& ((!bz_header_ok(k) || bz_setup_size(k) > k.len() || bz_exe_end(k) > mem_len)
                    ==> final(memory)@ == old(memory)@)
            },
    {
        let mem_len: usize = memory.len();
        match load_elf64(memory, kernel) {
            Ok(exe) => {
                proof {
                    lemma_elf64_max_le(kernel@, elf64_phnum(kernel@), mem_len as int);
                }
                match load_pvh(memory, kernel, exe.max_addr, params) {
                    Ok(bootable) => {
                        return Ok(bootable);
                    },
                    Err(_) => {},
                }
                let hdr = default_setup_header();
                let params_addr = match write_linux_boot_params(memory, &hdr, exe.max_addr, params) {
                    Ok(pa) => pa,
                    Err(e) => {
                        return Err(e);
                    },
                };
                return Ok(
                    Bootable {
                        protocol: BootProtocol::Linux64,
                        entry_addr: exe.entry_addr,
                        params_addr,
                    },
                );
            },
            Err(_) => {},
        }
        match load_elf32(memory, kernel) {
            Ok(exe) => {
                proof {
                    lemma_elf32_max_le(kernel@, elf32_phnum(kernel@), mem_len as int);
                }
                if find_mb_magic(kernel) {
                    let params_addr = match write_multiboot_info(memory, exe.max_addr, params) {
                        Ok(pa) => pa,
                        Err(e) => {
                            return Err(e);
                        },
                    };
                    return Ok(
                        Bootable {
                            protocol: BootProtocol::Multiboot,
                            entry_addr: exe.entry_addr,
                            params_addr,
                        },
                    );
                }
                let hdr = default_setup_header();
                let params_addr = match write_linux_boot_params(memory, &hdr, exe.max_addr, params) {
                    Ok(pa) => pa,
                    Err(e) => {
                        return Err(e);
                    },
                };
                return Ok(
                    Bootable {
                        protocol: BootProtocol::Linux32,
                        entry_addr: exe.entry_addr,
                        params_addr,
                    },
                );
            },
            Err(_) => {},
        }
        match load_bz_image(memory, kernel, params) {
            Ok(bootable) => Ok(bootable),
            Err(_) => Err(HvError::InvalidKernelImageFormat),
        }
    }
}

} // verus!
