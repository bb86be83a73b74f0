//! The Multiboot (version 1) protocol: recognising the header magic in
//! an ELF32 kernel, and writing the info structure, the module list
//! with each module's data and NUL-terminated pathname, and the
//! one-entry memory map.

use vstd::prelude::*;
use crate::HvError;
use crate::bytes::{lbyte, le4, le8, lemma_le4_recompose, lemma_le8_recompose, put_u32_le, zero_vec};
use crate::linux_boot::{bp_byte, opt_len};
use crate::memory::{copy_slice_to_guest, round_up, zero_guest_range, RangeAllocator};
use crate::params::KernelParams;

verus! {

pub const MULTIBOOT_HEADER_MAGIC: u32 = 0x1BAD_B002;
pub const MULTIBOOT_SEARCH: usize = 8192;
pub const MULTIBOOT_MOD_ALIGN: u64 = 0x1000;

/// Aligned 32-bit word `i` of the image's search window.
pub open spec fn mb_word(k: Seq<u8>, i: int) -> int {
    le4(k, 4 * i)
}

/// How many aligned words fall in the first `MULTIBOOT_SEARCH` bytes.
pub open spec fn mb_search_words(k: Seq<u8>) -> int {
    (if k.len() < 8192 {
        k.len() as int
    } else {
        8192
    }) / 4
}

/// Whether the Multiboot header magic appears on a 32-bit boundary
/// within the search window.
pub open spec fn has_mb_magic(k: Seq<u8>) -> bool {
    exists|i: int| 0 <= i < mb_search_words(k) && mb_word(k, i) == MULTIBOOT_HEADER_MAGIC
}

/// Scan the search window for the Multiboot header magic.
pub fn find_mb_magic(kernel: &[u8]) -> (r: bool)
    ensures
        r == has_mb_magic(kernel@),
{
    let len: usize = kernel.len();
    let window: usize = if len < 8192 {
        len
    } else {
        8192
    };
    let count: usize = window / 4;
    let mut i: usize = 0;
    while i < count
        invariant
            i <= count,
            count == mb_search_words(kernel@),
            4 * count <= kernel@.len(),
            forall|j: int| 0 <= j < i ==> mb_word(kernel@, j) != MULTIBOOT_HEADER_MAGIC,
        decreases count - i,
    {
        let w: u32 = crate::bytes::get_u32_le(kernel, 4 * i);
        if w == MULTIBOOT_HEADER_MAGIC {
            proof {
                assert(mb_word(kernel@, i as int) == MULTIBOOT_HEADER_MAGIC);
            }
            return true;
        }
        i += 1;
    }
    false
}

/// Index of the first NUL byte of `s` at or after `i`, `-1` when none.
pub open spec fn first_nul_from(s: Seq<u8>, i: int) -> int
    decreases s.len() - i,
{
    if i < 0 || i >= s.len() {
        -1
    } else if s[i] == 0u8 {
        i
    } else {
        first_nul_from(s, i + 1)
    }
}

/// A pathname as the guest sees it: cut at the first NUL when one is
/// embedded, NUL-terminated otherwise.
pub open spec fn pathz(s: Seq<u8>) -> Seq<u8> {
    if first_nul_from(s, 0) >= 0 {
        s.subrange(0, first_nul_from(s, 0) + 1)
    } else {
        s.push(0u8)
    }
}

/// Build the NUL-terminated pathname bytes.
pub fn build_pathz(path: &Vec<u8>) -> (v: Vec<u8>)
    requires
        first_nul_from(path@, 0) >= 0 || path@.len() < usize::MAX,
    ensures
        v@ == pathz(path@),
        v@.len() <= path@.len() + 1,
{
    let n: usize = path.len();
    let mut i: usize = 0;
    while i < n
        invariant
            i <= n,
            n == path@.len(),
            first_nul_from(path@, 0) == first_nul_from(path@, i as int),
        decreases n - i,
    {
        if *vstd::slice::slice_index_get(path.as_slice(), i) == 0u8 {
            let s = vstd::slice::slice_subrange(path.as_slice(), 0, i + 1);
            return vstd::slice::slice_to_vec(s);
        }
        i += 1;
    }
    let mut v = vstd::slice::slice_to_vec(path.as_slice());
    v.push(0u8);
    v
}

/// Where the info structure is placed.
pub open spec fn mb_info_addr(exe_end: int) -> int {
    round_up(exe_end, 4)
}

/// Where the module-descriptor array is placed (the info structure is
/// 116 bytes).
pub open spec fn mb_mods_addr(exe_end: int) -> int {
    mb_info_addr(exe_end) + 116
}

/// Where the single memory-map entry is placed.
pub open spec fn mb_mmap_addr(exe_end: int, p: KernelParams) -> int {
    mb_mods_addr(exe_end) + 16 * p.modules@.len()
}

/// Guest-physical address of the command line, zero when there is none.
pub open spec fn mb_cl_addr(exe_end: int, p: KernelParams) -> int {
    if p.cmdline is Some {
        mb_mmap_addr(exe_end, p) + 24
    } else {
        0
    }
}

/// First free address after the fixed blocks and the command line.
pub open spec fn mb_after_cl(exe_end: int, p: KernelParams) -> int {
    if p.cmdline is Some {
        mb_mmap_addr(exe_end, p) + 24 + opt_len(p.cmdline) + 1
    } else {
        mb_mmap_addr(exe_end, p) + 24
    }
}

/// The allocation cursor before module `q` is placed.
pub open spec fn mb_mod_cursor(exe_end: int, p: KernelParams, q: int) -> int
    decreases q,
{
    if q <= 0 {
        mb_after_cl(exe_end, p)
    } else {
        let prev = mb_mod_cursor(exe_end, p, q - 1);
        round_up(prev, 0x1000) + p.modules@[q - 1].data@.len() + pathz(
            p.modules@[q - 1].path@,
        ).len()
    }
}

/// Where module `q`'s data is placed: page-aligned.
pub open spec fn mb_mod_start(exe_end: int, p: KernelParams, q: int) -> int {
    round_up(mb_mod_cursor(exe_end, p, q), 0x1000)
}

/// Where module `q`'s NUL-terminated pathname is placed.
pub open spec fn mb_mod_cl(exe_end: int, p: KernelParams, q: int) -> int {
    mb_mod_start(exe_end, p, q) + p.modules@[q].data@.len()
}

/// First guest-physical address past everything the writer places.
pub open spec fn mb_end(exe_end: int, p: KernelParams) -> int {
    mb_mod_cursor(exe_end, p, p.modules@.len() as int)
}

/// The info structure's flag word: modules and memory map, plus the
/// command line when one is given.
pub open spec fn mb_flags(p: KernelParams) -> int {
    if p.cmdline is Some {
        0x4c
    } else {
        0x48
    }
}

/// The cursor never moves backwards as modules are placed.
pub proof fn lemma_mb_cursor_le(exe_end: int, p: KernelParams, q: int, n: int)
    requires
        0 <= q <= n,
        mb_after_cl(exe_end, p) >= 0,
    ensures
        mb_mod_cursor(exe_end, p, q) <= mb_mod_cursor(exe_end, p, n),
        mb_mod_cursor(exe_end, p, q) >= 0,
    decreases n - q,
{
    lemma_mb_cursor_nonneg(exe_end, p, q);
    if q < n {
        crate::memory::lemma_round_up(mb_mod_cursor(exe_end, p, q), 0x1000);
        lemma_mb_cursor_le_step(exe_end, p, q);
        lemma_mb_cursor_le(exe_end, p, q + 1, n);
    }
}

proof fn lemma_mb_cursor_nonneg(exe_end: int, p: KernelParams, q: int)
    requires
        q >= 0,
        mb_after_cl(exe_end, p) >= 0,
    ensures
        mb_mod_cursor(exe_end, p, q) >= 0,
    decreases q,
{
    if q > 0 {
        lemma_mb_cursor_nonneg(exe_end, p, q - 1);
        crate::memory::lemma_round_up(mb_mod_cursor(exe_end, p, q - 1), 0x1000);
    }
}

proof fn lemma_mb_cursor_le_step(exe_end: int, p: KernelParams, q: int)
    requires
        q >= 0,
        mb_after_cl(exe_end, p) >= 0,
    ensures
        mb_mod_cursor(exe_end, p, q) <= mb_mod_cursor(exe_end, p, q + 1),
{
    lemma_mb_cursor_nonneg(exe_end, p, q);
    crate::memory::lemma_round_up(mb_mod_cursor(exe_end, p, q), 0x1000);
}

/// Every module block lies at or above the end of the fixed blocks.
pub proof fn lemma_mb_modules_above(exe_end: int, p: KernelParams, n: int)
    requires
        mb_after_cl(exe_end, p) >= 0,
        n == p.modules@.len(),
    ensures
        forall|r: int|
            0 <= r < n ==> #[trigger] mb_mod_start(exe_end, p, r) >= mb_after_cl(exe_end, p),
{
    assert forall|r: int|
        0 <= r < n implies #[trigger] mb_mod_start(exe_end, p, r) >= mb_after_cl(exe_end, p) by {
        lemma_mb_cursor_le(exe_end, p, 0, r);
        crate::memory::lemma_round_up(mb_mod_cursor(exe_end, p, r), 0x1000);
    }
}

/// The 16-byte module descriptor of module `q`: start and end of its
/// data, its pathname address, and a zero pad.
pub open spec fn mb_entry_bytes(exe_end: int, p: KernelParams, q: int) -> Seq<u8> {
    let start = mb_mod_start(exe_end, p, q) % 0x1_0000_0000;
    let endv = (mb_mod_start(exe_end, p, q) + p.modules@[q].data@.len()) % 0x1_0000_0000;
    let cl = mb_mod_cl(exe_end, p, q) % 0x1_0000_0000;
    Seq::new(16, |j: int|
        if j < 4 {
            lbyte(start, j)
        } else if j < 8 {
            lbyte(endv, j - 4)
        } else if j < 12 {
            lbyte(cl, j - 8)
        } else {
            0u8
        })
}

/// Module `q` as guest memory holds it: its descriptor in the array,
/// its data, and its NUL-terminated pathname.
pub open spec fn mb_module_ok(mem: Seq<u8>, exe_end: int, p: KernelParams, q: int) -> bool {
    &&& mem.subrange(mb_mods_addr(exe_end) + 16 * q, mb_mods_addr(exe_end) + 16 * q + 16)
        == mb_entry_bytes(exe_end, p, q)
    &&& mem.subrange(
        mb_mod_start(exe_end, p, q),
        mb_mod_start(exe_end, p, q) + p.modules@[q].data@.len(),
    ) == p.modules@[q].data@
    &&& mem.subrange(
        mb_mod_cl(exe_end, p, q),
        mb_mod_cl(exe_end, p, q) + pathz(p.modules@[q].path@).len() as int,
    ) == pathz(p.modules@[q].path@)
}

/// The info structure at `ia`: flags, command line, module count and
/// array address, and the memory map's length and address; everything
/// else zero.
pub open spec fn mb_info_written(mem: Seq<u8>, exe_end: int, p: KernelParams) -> bool {
    let ia = mb_info_addr(exe_end);
    &&& forall|j: int| 0 <= j < 4 ==> bp_byte(mem, ia, j) == lbyte(mb_flags(p), j)
    &&& forall|j: int| 4 <= j < 16 ==> bp_byte(mem, ia, j) == 0u8
    &&& forall|j: int|
        16 <= j < 20 ==> bp_byte(mem, ia, j) == lbyte(mb_cl_addr(exe_end, p) % 0x1_0000_0000, j - 16)
    &&& forall|j: int|
        20 <= j < 24 ==> bp_byte(mem, ia, j) == lbyte(p.modules@.len() as int % 0x1_0000_0000, j - 20)
    &&& forall|j: int|
        24 <= j < 28 ==> bp_byte(mem, ia, j) == lbyte(mb_mods_addr(exe_end) % 0x1_0000_0000, j - 24)
    &&& forall|j: int| 28 <= j < 44 ==> bp_byte(mem, ia, j) == 0u8
    &&& forall|j: int| 44 <= j < 48 ==> bp_byte(mem, ia, j) == lbyte(24, j - 44)
    &&& forall|j: int|
        48 <= j < 52 ==> bp_byte(mem, ia, j) == lbyte(
            mb_mmap_addr(exe_end, p) % 0x1_0000_0000,
            j - 48,
        )
    &&& forall|j: int| 52 <= j < 116 ==> bp_byte(mem, ia, j) == 0u8
}

/// The single memory-map entry: all memory from 1 MiB up, available.
pub open spec fn mb_mmap_written(mem: Seq<u8>, exe_end: int, p: KernelParams, mem_len: int) -> bool {
    let ma = mb_mmap_addr(exe_end, p);
    &&& forall|j: int| 0 <= j < 4 ==> bp_byte(mem, ma, j) == lbyte(24, j)
    &&& forall|j: int| 4 <= j < 12 ==> bp_byte(mem, ma, j) == lbyte(0x10_0000, j - 4)
    &&& forall|j: int| 12 <= j < 20 ==> bp_byte(mem, ma, j) == lbyte(mem_len - 0x10_0000, j - 12)
    &&& forall|j: int| 20 <= j < 24 ==> bp_byte(mem, ma, j) == lbyte(1, j - 20)
}

/// Whether byte `i` lies in the module-descriptor array or in any
/// module's data-and-pathname block.
pub open spec fn mb_modules_region(i: int, exe_end: int, p: KernelParams) -> bool {
    ||| (mb_mods_addr(exe_end) <= i < mb_mmap_addr(exe_end, p))
    ||| exists|r: int|
        0 <= r < p.modules@.len() && #[trigger] mb_mod_start(exe_end, p, r) <= i < mb_mod_cursor(
            exe_end,
            p,
            r + 1,
        )
}

/// Whether the writer may have changed byte `i` of guest memory.
pub open spec fn mb_touched(i: int, exe_end: int, p: KernelParams) -> bool {
    mb_touched_upto(i, exe_end, p, p.modules@.len() as int)
}

/// Like `mb_touched`, counting only the first `q` modules.
pub open spec fn mb_touched_upto(i: int, exe_end: int, p: KernelParams, q: int) -> bool {
    ||| (mb_info_addr(exe_end) <= i < mb_mmap_addr(exe_end, p) + 24)
    ||| (p.cmdline is Some && mb_cl_addr(exe_end, p) <= i < mb_cl_addr(exe_end, p) + opt_len(
        p.cmdline,
    ) + 1)
    ||| exists|r: int|
        0 <= r < q && #[trigger] mb_mod_start(exe_end, p, r) <= i < mb_mod_cursor(exe_end, p, r + 1)
}

/// Build the 116-byte info structure.
#[verifier::rlimit(100)]
fn build_mb_info(exe_end: u64, params: &KernelParams, mods_count: u32) -> (v: Vec<u8>)
    requires
        exe_end <= 0x10_0000_0000_0000,
        params.modules@.len() <= 0x10_0000_0000_0000,
        mods_count as int == params.modules@.len() as int % 0x1_0000_0000,
    ensures
        v@.len() == 116,
        forall|j: int| 0 <= j < 4 ==> v@[j] == lbyte(mb_flags(*params), j),
        forall|j: int| 4 <= j < 16 ==> v@[j] == 0u8,
        forall|j: int|
            16 <= j < 20 ==> v@[j] == lbyte(mb_cl_addr(exe_end as int, *params) % 0x1_0000_0000, j - 16),
        forall|j: int|
            20 <= j < 24 ==> v@[j] == lbyte(params.modules@.len() as int % 0x1_0000_0000, j - 20),
        forall|j: int|
            24 <= j < 28 ==> v@[j] == lbyte(mb_mods_addr(exe_end as int) % 0x1_0000_0000, j - 24),
        forall|j: int| 28 <= j < 44 ==> v@[j] == 0u8,
        forall|j: int| 44 <= j < 48 ==> v@[j] == lbyte(24, j - 44),
        forall|j: int|
            48 <= j < 52 ==> v@[j] == lbyte(mb_mmap_addr(exe_end as int, *params) % 0x1_0000_0000, j - 48),
        forall|j: int| 52 <= j < 116 ==> v@[j] == 0u8,
{
    let flags: u32 = if params.cmdline.is_some() {
        0x4c
    } else {
        0x48
    };
    let info_addr: u64 = align4(exe_end);
    let mods_addr: u64 = info_addr + 116;
    let mmap_addr: u64 = mods_addr + 16 * params.modules.len() as u64;
    let cl_addr: u64 = if params.cmdline.is_some() {
        mmap_addr + 24
    } else {
        0
    };
    let mut v = zero_vec(116);
    put_u32_le(&mut v, 0, flags);
    put_u32_le(&mut v, 16, (cl_addr % 0x1_0000_0000) as u32);
    put_u32_le(&mut v, 20, mods_count);
    put_u32_le(&mut v, 24, (mods_addr % 0x1_0000_0000) as u32);
    put_u32_le(&mut v, 44, 24);
    put_u32_le(&mut v, 48, (mmap_addr % 0x1_0000_0000) as u32);
    v
}

/// The next multiple of four.
fn align4(x: u64) -> (r: u64)
    requires
        x <= 0x10_0000_0000_0000,
    ensures
        r as int == round_up(x as int, 4),
        x <= r <= x + 3,
{
    proof {
        crate::memory::lemma_round_up(x as int, 4);
    }
    let rem: u64 = x % 4;
    if rem == 0 {
        x
    } else {
        x + (4 - rem)
    }
}

/// Build the 24-byte memory-map entry.
fn build_mb_mmap(mem_len: u64) -> (v: Vec<u8>)
    requires
        0x10_0000 <= mem_len,
    ensures
        v@.len() == 24,
        forall|j: int| 0 <= j < 4 ==> v@[j] == lbyte(24, j),
        forall|j: int| 4 <= j < 12 ==> v@[j] == lbyte(0x10_0000, j - 4),
        forall|j: int| 12 <= j < 20 ==> v@[j] == lbyte(mem_len - 0x10_0000, j - 12),
        forall|j: int| 20 <= j < 24 ==> v@[j] == lbyte(1, j - 20),
{
    let mut v = zero_vec(24);
    put_u32_le(&mut v, 0, 24);
    crate::bytes::put_u64_le(&mut v, 4, 0x10_0000);
    crate::bytes::put_u64_le(&mut v, 12, mem_len - 0x10_0000);
    put_u32_le(&mut v, 20, 1);
    v
}

/// Build the 16-byte descriptor of module `q`.
#[verifier::rlimit(100)]
fn build_mb_entry(exe_end: u64, params: &KernelParams, q: usize, start: u64, dlen: u64, cl: u64) -> (
    v: Vec<u8>)
    requires
        (q as int) < params.modules@.len(),
        start as int == mb_mod_start(exe_end as int, *params, q as int),
        dlen as int == params.modules@[q as int].data@.len(),
        cl as int == mb_mod_cl(exe_end as int, *params, q as int),
        start + dlen <= u64::MAX,
    ensures
        v@ == mb_entry_bytes(exe_end as int, *params, q as int),
{
    let mut v = zero_vec(16);
    put_u32_le(&mut v, 0, (start % 0x1_0000_0000) as u32);
    put_u32_le(&mut v, 4, ((start + dlen) % 0x1_0000_0000) as u32);
    put_u32_le(&mut v, 8, (cl % 0x1_0000_0000) as u32);
    proof {
        assert(v@ =~= mb_entry_bytes(exe_end as int, *params, q as int));
    }
    v
}

/// Write the Multiboot info structure, the module descriptors, every
/// module's data and pathname, and the memory map above the loaded
/// kernel, returning the info structure's address. Succeeds exactly
/// when everything fits in guest memory; on failure the memory is
/// untouched.
#[verifier::rlimit(100)]
#[verifier::loop_isolation(false)]
pub fn write_multiboot_info(memory: &mut Vec<u8>, exe_end: u64, params: &KernelParams) -> (r:
    Result<u64, HvError>)
    requires
        exe_end <= old(memory).len(),
        0x10_0000 <= old(memory).len() <= 0x10_0000_0000_0000,
    ensures
        final(memory)@.len() == old(memory)@.len(),
        r is Ok <==> mb_end(exe_end as int, *params) <= old(memory)@.len(),
        r is Err ==> final(memory)@ == old(memory)@ && r == Err::<u64, HvError>(
            HvError::OutOfGuestMemory,
        ),
        r is Ok ==> {
            &&& r.unwrap() as int == mb_info_addr(exe_end as int)
            &&& mb_info_written(final(memory)@, exe_end as int, *params)
            &&& mb_mmap_written(final(memory)@, exe_end as int, *params, old(memory)@.len() as int)
            &&& (params.cmdline is Some ==> final(memory)@.subrange(
                mb_cl_addr(exe_end as int, *params),
                mb_cl_addr(exe_end as int, *params) + opt_len(params.cmdline),
            ) == params.cmdline.unwrap()@ && final(memory)@[mb_cl_addr(exe_end as int, *params)
                + opt_len(params.cmdline)] == 0u8)
            &&& forall|q: int|
                0 <= q < params.modules@.len() ==> mb_module_ok(
                    final(memory)@,
                    exe_end as int,
                    *params,
                    q,
                )
            &&& forall|i: int|
                0 <= i < old(memory)@.len() && !mb_touched(i, exe_end as int, *params)
                    ==> final(memory)@[i] == old(memory)@[i]
        },
{
    let mem_len: u64 = memory.len() as u64;
    let n: usize = params.modules.len();
    let ghost e: int = exe_end as int;
    let ghost p: KernelParams = *params;

    // Sizing pass: walk the layout without writing, so that a guest
    // memory too small is detected before anything is touched.
    proof {
        crate::memory::lemma_round_up(e, 4);
        assert(mb_after_cl(e, p) >= 0);
    }
    if n as u64 > mem_len {
        proof {
            lemma_mb_cursor_le(e, p, 0, n as int);
        }
        return Err(HvError::OutOfGuestMemory);
    }
    let info_addr: u64 = align4(exe_end);
    let mods_addr: u64 = info_addr + 116;
    let mmap_addr: u64 = mods_addr + 16 * n as u64;
    let mut cursor: u64 = mmap_addr + 24;
    let mut cl_addr: u64 = 0;
    if params.cmdline.is_some() {
        let cl_len: u64 = params.cmdline.as_ref().unwrap().len() as u64;
        if cl_len > mem_len {
            proof {
                lemma_mb_cursor_le(e, p, 0, n as int);
            }
            return Err(HvError::OutOfGuestMemory);
        }
        cl_addr = cursor;
        cursor = cursor + cl_len + 1;
    }
    proof {
        assert(cursor as int == mb_after_cl(e, p));
    }
    let mut q: usize = 0;
    while q < n
        invariant
            q <= n,
            n == p.modules@.len(),
            p == *params,
            e == exe_end,
            exe_end <= mem_len <= 0x10_0000_0000_0000,
            mb_after_cl(e, p) >= 0,
            cursor as int == mb_mod_cursor(e, p, q as int),
            cursor <= 0x200_0000_0000_0000,
        decreases n - q,
    {
        proof {
            lemma_mb_cursor_le_step(e, p, q as int);
            lemma_mb_cursor_le(e, p, q + 1, n as int);
            crate::memory::lemma_round_up(cursor as int, 0x1000);
        }
        let dlen: u64 = params.modules[q].data.len() as u64;
        let plen: u64 = params.modules[q].path.len() as u64;
        let nul = find_nul_index(&params.modules[q].path);
        if dlen > mem_len {
            proof {
                assert(mb_mod_cursor(e, p, q + 1) > mem_len);
            }
            return Err(HvError::OutOfGuestMemory);
        }
        let pz: u64 = match nul {
            Some(idx) => {
                if idx as u64 >= mem_len {
                    proof {
                        assert(pathz(p.modules@[q as int].path@).len() > mem_len);
                        assert(mb_mod_cursor(e, p, q + 1) > mem_len);
                    }
                    return Err(HvError::OutOfGuestMemory);
                }
                idx as u64 + 1
            },
            None => {
                if plen > mem_len {
                    proof {
                        assert(pathz(p.modules@[q as int].path@).len() == p.modules@[
                            q as int].path@.len() + 1);
                        assert(mb_mod_cursor(e, p, q + 1) > mem_len);
                    }
                    return Err(HvError::OutOfGuestMemory);
                }
                plen + 1
            },
        };
        let start: u64 = align_page(cursor);
        proof {
            assert(pz as int == pathz(p.modules@[q as int].path@).len());
        }
        cursor = start + dlen + pz;
        proof {
            assert(cursor as int == mb_mod_cursor(e, p, q + 1));
        }
        if cursor > mem_len {
            return Err(HvError::OutOfGuestMemory);
        }
        q += 1;
    }
    if cursor > mem_len {
        return Err(HvError::OutOfGuestMemory);
    }
    proof {
        assert(mb_end(e, p) <= mem_len);
    }

    // Write pass: every copy below is inside guest memory.
    let ghost m0: Seq<u8> = memory@;
    let info = build_mb_info(exe_end, params, (n as u64 % 0x1_0000_0000) as u32);
    let c1 = copy_slice_to_guest(info.as_slice(), memory, info_addr);
    proof {
        lemma_mb_cursor_le(e, p, 0, n as int);
        assert(c1 is Ok);
    }
    let ghost m1: Seq<u8> = memory@;
    let mmap = build_mb_mmap(mem_len);
    let c2 = copy_slice_to_guest(mmap.as_slice(), memory, mmap_addr);
    proof {
        assert(c2 is Ok);
    }
    let ghost m2: Seq<u8> = memory@;
    if params.cmdline.is_some() {
        let cl = params.cmdline.as_ref().unwrap();
        let c3 = copy_slice_to_guest(cl.as_slice(), memory, cl_addr);
        proof {
            assert(c3 is Ok);
        }
        let c4 = zero_guest_range(memory, cl_addr + cl.len() as u64, 1);
        proof {
            assert(c4 is Ok);
        }
    }
    let ghost m3: Seq<u8> = memory@;
    proof {
        assert forall|j: int| 0 <= j < 116 implies bp_byte(m3, mb_info_addr(e), j) == info@[j] by {
            assert(m1[mb_info_addr(e) + j] == info@[j]);
            assert(m2[mb_info_addr(e) + j] == m1[mb_info_addr(e) + j]);
            assert(m3[mb_info_addr(e) + j] == m2[mb_info_addr(e) + j]);
        }
        assert forall|j: int| 0 <= j < 24 implies bp_byte(m3, mb_mmap_addr(e, p), j) == mmap@[j] by {
            assert(m2[mb_mmap_addr(e, p) + j] == mmap@[j]);
            assert(m3[mb_mmap_addr(e, p) + j] == m2[mb_mmap_addr(e, p) + j]);
        }
        if p.cmdline is Some {
            assert(m3.subrange(mb_cl_addr(e, p), mb_cl_addr(e, p) + opt_len(p.cmdline)) =~= p.cmdline.unwrap()@);
            assert(m3[mb_cl_addr(e, p) + opt_len(p.cmdline)] == 0u8);
        }
        assert(mb_info_written(m3, e, p));
        assert(mb_mmap_written(m3, e, p, mem_len as int));
        assert forall|i: int|
            0 <= i < m0.len() && !mb_touched_upto(i, e, p, 0) implies m3[i] == m0[i] by {
            assert(m1[i] == m0[i]);
            assert(m2[i] == m1[i]);
            assert(m3[i] == m2[i]);
        }
    }

    write_mb_modules(memory, exe_end, params);
    proof {
        let m4 = memory@;
        lemma_mb_cursor_le(e, p, 0, n as int);
        lemma_mb_modules_above(e, p, n as int);
        assert forall|j: int| 0 <= j < 116 implies bp_byte(m4, mb_info_addr(e), j) == bp_byte(
            m3,
            mb_info_addr(e),
            j,
        ) by {
            assert(!mb_modules_region(mb_info_addr(e) + j, e, p));
            assert(m4[mb_info_addr(e) + j] == m3[mb_info_addr(e) + j]);
        }
        assert forall|j: int| 0 <= j < 24 implies bp_byte(m4, mb_mmap_addr(e, p), j) == bp_byte(
            m3,
            mb_mmap_addr(e, p),
            j,
        ) by {
            assert(!mb_modules_region(mb_mmap_addr(e, p) + j, e, p));
            assert(m4[mb_mmap_addr(e, p) + j] == m3[mb_mmap_addr(e, p) + j]);
        }
        if p.cmdline is Some {
            assert forall|i: int|
                mb_cl_addr(e, p) <= i < mb_cl_addr(e, p) + opt_len(p.cmdline) + 1 implies m4[i]
                == m3[i] by {
                assert(!mb_modules_region(i, e, p));
            }
            assert(m4.subrange(mb_cl_addr(e, p), mb_cl_addr(e, p) + opt_len(p.cmdline))
                =~= m3.subrange(mb_cl_addr(e, p), mb_cl_addr(e, p) + opt_len(p.cmdline)));
        }
        assert forall|i: int|
            0 <= i < m0.len() && !mb_touched(i, e, p) implies m4[i] == m0[i] by {
            assert(!mb_modules_region(i, e, p));
            assert(m4[i] == m3[i]);
            assert(!mb_touched_upto(i, e, p, 0));
            assert(m3[i] == m0[i]);
        }
    }
        Ok(info_addr)
}

/// Index of the pathname's first NUL byte, if any.
fn find_nul_index(path: &Vec<u8>) -> (r: Option<usize>)
    ensures
        r is Some ==> r.unwrap() as int == first_nul_from(path@, 0) && (r.unwrap() as int) < path@.len(),
        r is None ==> first_nul_from(path@, 0) == -1,
{
    let n: usize = path.len();
    let mut i: usize = 0;
    while i < n
        invariant
            i <= n,
            n == path@.len(),
            first_nul_from(path@, 0) == first_nul_from(path@, i as int),
        decreases n - i,
    {
        if *vstd::slice::slice_index_get(path.as_slice(), i) == 0u8 {
            return Some(i);
        }
        i += 1;
    }
    None
}

/// The next page boundary.
fn align_page(x: u64) -> (r: u64)
    requires
        x <= 0x400_0000_0000_0000,
    ensures
        r as int == round_up(x as int, 0x1000),
        x <= r <= x + 0xfff,
{
    proof {
        crate::memory::lemma_round_up(x as int, 0x1000);
    }
    let rem: u64 = x % 0x1000;
    if rem == 0 {
        x
    } else {
        x + (0x1000 - rem)
    }
}

/// Write every module's descriptor, data and pathname. Touches only
/// the descriptor array and the page-aligned module blocks.
#[verifier::rlimit(100)]
#[verifier::loop_isolation(false)]
fn write_mb_modules(memory: &mut Vec<u8>, exe_end: u64, params: &KernelParams)
    requires
        exe_end <= old(memory).len(),
        0x10_0000 <= old(memory).len() <= 0x10_0000_0000_0000,
        params.modules@.len() as u64 <= old(memory).len(),
        mb_end(exe_end as int, *params) <= old(memory)@.len(),
    ensures
        final(memory)@.len() == old(memory)@.len(),
        forall|q: int|
            0 <= q < params.modules@.len() ==> mb_module_ok(
                final(memory)@,
                exe_end as int,
                *params,
                q,
            ),
        forall|i: int|
            0 <= i < old(memory)@.len() && !mb_modules_region(i, exe_end as int, *params)
                ==> final(memory)@[i] == old(memory)@[i],
{
    let ghost e: int = exe_end as int;
    let ghost p: KernelParams = *params;
    let ghost m0: Seq<u8> = memory@;
    let mem_len: u64 = memory.len() as u64;
    let n: usize = params.modules.len();
    let info_addr: u64 = align4(exe_end);
    let mods_addr: u64 = info_addr + 116;
    let mmap_addr: u64 = mods_addr + 16 * n as u64;
    let mut wcursor: u64 = if params.cmdline.is_some() {
        let cl_len: u64 = params.cmdline.as_ref().unwrap().len() as u64;
        proof {
            lemma_mb_cursor_le(e, p, 0, n as int);
        }
        mmap_addr + 24 + cl_len + 1
    } else {
        mmap_addr + 24
    };
    proof {
        crate::memory::lemma_round_up(e, 4);
        assert(wcursor as int == mb_after_cl(e, p));
    }
    let mut q2: usize = 0;
    while q2 < n
        invariant
            q2 <= n,
            wcursor as int == mb_mod_cursor(e, p, q2 as int),
            mem_len == memory@.len(),
            memory@.len() == m0.len(),
            forall|r: int| 0 <= r < q2 ==> mb_module_ok(memory@, e, p, r),
            forall|i: int|
                0 <= i < m0.len() && !mb_modules_region(i, e, p) ==> memory@[i] == m0[i],
        decreases n - q2,
    {
        proof {
            lemma_mb_cursor_le(e, p, 0, q2 as int);
            lemma_mb_cursor_le_step(e, p, q2 as int);
            lemma_mb_cursor_le(e, p, q2 + 1, n as int);
            crate::memory::lemma_round_up(wcursor as int, 0x1000);
        }
        let dlen: u64 = params.modules[q2].data.len() as u64;
        let start: u64 = align_page(wcursor);
        let cl: u64 = start + dlen;
        proof {
            if first_nul_from(p.modules@[q2 as int].path@, 0) < 0 {
                assert(pathz(p.modules@[q2 as int].path@).len() == p.modules@[q2 as int].path@.len()
                    + 1);
                assert(mb_mod_cursor(e, p, q2 + 1) <= mem_len);
                assert(p.modules@[q2 as int].path@.len() + 1 <= mb_mod_cursor(e, p, q2 + 1));
                assert(p.modules@[q2 as int].path@.len() < usize::MAX);
            }
        }
        let pzv = build_pathz(&params.modules[q2].path);
        let pz: u64 = pzv.len() as u64;
        let entry = build_mb_entry(exe_end, params, q2, start, dlen, cl);
        let ghost g0: Seq<u8> = memory@;
        let c5 = copy_slice_to_guest(entry.as_slice(), memory, mods_addr + 16 * q2 as u64);
        proof {
            assert(c5 is Ok);
        }
        let ghost g1: Seq<u8> = memory@;
        let c6 = copy_slice_to_guest(params.modules[q2].data.as_slice(), memory, start);
        proof {
            assert(c6 is Ok);
        }
        let ghost g2: Seq<u8> = memory@;
        let c7 = copy_slice_to_guest(pzv.as_slice(), memory, cl);
        proof {
            assert(c7 is Ok);
        }
        proof {
            let g3 = memory@;
            let qi = q2 as int;
            let ms = mb_mod_start(e, p, qi);
            let mc = mb_mod_cl(e, p, qi);
            let ea = mb_mods_addr(e) + 16 * qi;
            assert(g1.subrange(ea, ea + 16) =~= entry@);
            assert(g3.subrange(ea, ea + 16) =~= entry@);
            assert(g2.subrange(ms, ms + dlen as int) =~= p.modules@[qi].data@);
            assert(g3.subrange(ms, ms + dlen as int) =~= p.modules@[qi].data@);
            assert(g3.subrange(mc, mc + pz as int) =~= pathz(p.modules@[qi].path@));
            assert(mb_module_ok(g3, e, p, qi));
            assert forall|i: int|
                0 <= i < m0.len() && !(ea <= i < ea + 16) && !(ms <= i < mb_mod_cursor(
                    e,
                    p,
                    qi + 1,
                )) implies g3[i] == g0[i] by {
                assert(g1[i] == g0[i]);
                assert(g2[i] == g1[i]);
                assert(g3[i] == g2[i]);
            }
            assert forall|r: int| 0 <= r < qi + 1 implies mb_module_ok(g3, e, p, r) by {
                if r < qi {
                    assert(mb_module_ok(g0, e, p, r));
                    lemma_mb_cursor_le(e, p, 0, r);
                    lemma_mb_cursor_le(e, p, r, qi);
                    lemma_mb_cursor_le(e, p, r + 1, qi);
                    lemma_mb_cursor_le(e, p, r + 1, n as int);
                    crate::memory::lemma_round_up(mb_mod_cursor(e, p, r), 0x1000);
                    assert(g3.subrange(
                        mb_mods_addr(e) + 16 * r,
                        mb_mods_addr(e) + 16 * r + 16,
                    ) =~= g0.subrange(mb_mods_addr(e) + 16 * r, mb_mods_addr(e) + 16 * r + 16));
                    assert(g3.subrange(
                        mb_mod_start(e, p, r),
                        mb_mod_start(e, p, r) + p.modules@[r].data@.len(),
                    ) =~= g0.subrange(
                        mb_mod_start(e, p, r),
                        mb_mod_start(e, p, r) + p.modules@[r].data@.len(),
                    ));
                    assert(g3.subrange(
                        mb_mod_cl(e, p, r),
                        mb_mod_cl(e, p, r) + pathz(p.modules@[r].path@).len() as int,
                    ) =~= g0.subrange(
                        mb_mod_cl(e, p, r),
                        mb_mod_cl(e, p, r) + pathz(p.modules@[r].path@).len() as int,
                    ));
                }
            }
            assert forall|i: int|
                0 <= i < m0.len() && !mb_modules_region(i, e, p) implies g3[i] == m0[i] by {
                assert(g3[i] == g0[i]);
            }
        }
        wcursor = cl + pz;
        q2 += 1;
    }
}

/// Decoding the written info structure and memory map yields the
/// values that went in: the flags, the module count and array address,
/// and the available-memory entry.
pub proof fn lemma_mb_decode(mem: Seq<u8>, exe_end: int, p: KernelParams, mem_len: int)
    requires
        mb_info_written(mem, exe_end, p),
        mb_mmap_written(mem, exe_end, p, mem_len),
        0 <= exe_end,
        mb_after_cl(exe_end, p) <= mem.len(),
        mb_after_cl(exe_end, p) <= 0xffff_ffff_ffff_ffff,
        0x10_0000 <= mem_len <= 0xffff_ffff_ffff_ffff,
    ensures
        le4(mem, mb_info_addr(exe_end)) == mb_flags(p),
        le4(mem, mb_info_addr(exe_end) + 16) == mb_cl_addr(exe_end, p) % 0x1_0000_0000,
        le4(mem, mb_info_addr(exe_end) + 20) == p.modules@.len() as int % 0x1_0000_0000,
        le4(mem, mb_info_addr(exe_end) + 24) == mb_mods_addr(exe_end) % 0x1_0000_0000,
        le4(mem, mb_info_addr(exe_end) + 44) == 24,
        le4(mem, mb_info_addr(exe_end) + 48) == mb_mmap_addr(exe_end, p) % 0x1_0000_0000,
        le4(mem, mb_mmap_addr(exe_end, p)) == 24,
        le8(mem, mb_mmap_addr(exe_end, p) + 4) == 0x10_0000,
        le8(mem, mb_mmap_addr(exe_end, p) + 12) == mem_len - 0x10_0000,
        le4(mem, mb_mmap_addr(exe_end, p) + 20) == 1,
{
    let ia = mb_info_addr(exe_end);
    let ma = mb_mmap_addr(exe_end, p);
    crate::memory::lemma_round_up(exe_end, 4);
    assert forall|k: int| 0 <= k < 4 implies mem[ia + k] == #[trigger] lbyte(mb_flags(p), k) by {
        assert(bp_byte(mem, ia, 0 + k) == lbyte(mb_flags(p), (0 + k) - 0));
    }
    lemma_le4_recompose(mem, ia, mb_flags(p) as u64);
    assert forall|k: int|
        0 <= k < 4 implies mem[ia + 16 + k] == #[trigger] lbyte(
        mb_cl_addr(exe_end, p) % 0x1_0000_0000,
        k,
    ) by {
        assert(bp_byte(mem, ia, 16 + k) == lbyte(mb_cl_addr(exe_end, p) % 0x1_0000_0000, (16 + k)
            - 16));
    }
    lemma_le4_recompose(mem, ia + 16, (mb_cl_addr(exe_end, p) % 0x1_0000_0000) as u64);
    assert forall|k: int|
        0 <= k < 4 implies mem[ia + 20 + k] == #[trigger] lbyte(
        p.modules@.len() as int % 0x1_0000_0000,
        k,
    ) by {
        assert(bp_byte(mem, ia, 20 + k) == lbyte(p.modules@.len() as int % 0x1_0000_0000, (20 + k)
            - 20));
    }
    lemma_le4_recompose(mem, ia + 20, (p.modules@.len() as int % 0x1_0000_0000) as u64);
    assert forall|k: int|
        0 <= k < 4 implies mem[ia + 24 + k] == #[trigger] lbyte(
        mb_mods_addr(exe_end) % 0x1_0000_0000,
        k,
    ) by {
        assert(bp_byte(mem, ia, 24 + k) == lbyte(mb_mods_addr(exe_end) % 0x1_0000_0000, (24 + k)
            - 24));
    }
    lemma_le4_recompose(mem, ia + 24, (mb_mods_addr(exe_end) % 0x1_0000_0000) as u64);
    assert forall|k: int| 0 <= k < 4 implies mem[ia + 44 + k] == #[trigger] lbyte(24, k) by {
        assert(bp_byte(mem, ia, 44 + k) == lbyte(24, (44 + k) - 44));
    }
    lemma_le4_recompose(mem, ia + 44, 24u64);
    assert forall|k: int|
        0 <= k < 4 implies mem[ia + 48 + k] == #[trigger] lbyte(ma % 0x1_0000_0000, k) by {
        assert(bp_byte(mem, ia, 48 + k) == lbyte(ma % 0x1_0000_0000, (48 + k) - 48));
    }
    lemma_le4_recompose(mem, ia + 48, (ma % 0x1_0000_0000) as u64);
    assert forall|k: int| 0 <= k < 4 implies mem[ma + k] == #[trigger] lbyte(24, k) by {
        assert(bp_byte(mem, ma, 0 + k) == lbyte(24, (0 + k) - 0));
    }
    lemma_le4_recompose(mem, ma, 24u64);
    assert forall|k: int| 0 <= k < 8 implies mem[ma + 4 + k] == #[trigger] lbyte(0x10_0000, k) by {
        assert(bp_byte(mem, ma, 4 + k) == lbyte(0x10_0000, (4 + k) - 4));
    }
    lemma_le8_recompose(mem, ma + 4, 0x10_0000u64);
    assert forall|k: int|
        0 <= k < 8 implies mem[ma + 12 + k] == #[trigger] lbyte(mem_len - 0x10_0000, k) by {
        assert(bp_byte(mem, ma, 12 + k) == lbyte(mem_len - 0x10_0000, (12 + k) - 12));
    }
    lemma_le8_recompose(mem, ma + 12, (mem_len - 0x10_0000) as u64);
    assert forall|k: int| 0 <= k < 4 implies mem[ma + 20 + k] == #[trigger] lbyte(1, k) by {
        assert(bp_byte(mem, ma, 20 + k) == lbyte(1, (20 + k) - 20));
    }
    lemma_le4_recompose(mem, ma + 20, 1u64);
}

} // verus!
