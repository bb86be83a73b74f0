//! The Linux boot protocol: the setup header carried from a bzImage (or
//! fabricated for an ELF kernel), the `boot_params` page written into
//! guest memory together with the command line, the initial ramdisk and
//! the E820 map, and the bzImage loader itself.

use vstd::prelude::*;
use crate::HvError;
use crate::boot::{Bootable, BootProtocol};
use crate::bytes::{lbyte, le2, le4, le8, lemma_le4_recompose, lemma_le8_recompose, put_u16_le, put_u32_le, put_u64_le, put_u8, splice, zero_vec};
use crate::memory::{copy_slice_to_guest, round_up, zero_guest_range, RangeAllocator};
use crate::params::KernelParams;

verus! {

/// The number of bytes of the setup header (`0x1f1` through `0x26c` of
/// the boot-parameter page).
pub const SETUP_HEADER_LEN: usize = 0x7b;

/// Offset of the setup header inside the boot-parameter page.
pub const SETUP_HEADER_OFFSET: usize = 0x1f1;

/// The raw bytes of a Linux `setup_header`, kept exactly as the kernel
/// image (or the fabricated default) holds them. Offsets inside are
/// relative to `0x1f1` in the boot-parameter page.
#[derive(Clone)]
pub struct SetupHeader {
    pub bytes: Vec<u8>,
}

impl SetupHeader {
    pub open spec fn wf(&self) -> bool {
        self.bytes@.len() == 0x7b
    }

    /// The `cmdline_size` field: the longest command line the kernel accepts.
    pub fn cmdline_size(&self) -> (r: u32)
        requires
            self.wf(),
        ensures
            r as int == le4(self.bytes@, 0x47),
    {
        crate::bytes::get_u32_le(self.bytes.as_slice(), 0x47)
    }

    /// The `initrd_addr_max` field: the highest address the ramdisk may start at.
    pub fn initrd_addr_max(&self) -> (r: u32)
        requires
            self.wf(),
        ensures
            r as int == le4(self.bytes@, 0x3b),
    {
        crate::bytes::get_u32_le(self.bytes.as_slice(), 0x3b)
    }

    /// The `code32_start` field: the 32-bit entry point of a bzImage.
    pub fn code32_start(&self) -> (r: u32)
        requires
            self.wf(),
        ensures
            r as int == le4(self.bytes@, 0x23),
    {
        crate::bytes::get_u32_le(self.bytes.as_slice(), 0x23)
    }

    /// The setup header taken verbatim from the first sector of a kernel image.
    pub fn from_image(image: &[u8]) -> (r: SetupHeader)
        requires
            image@.len() >= 0x26c,
        ensures
            r.wf(),
            r.bytes@ == image@.subrange(0x1f1, 0x26c),
    {
        let s = vstd::slice::slice_subrange(image, 0x1f1, 0x26c);
        SetupHeader { bytes: vstd::slice::slice_to_vec(s) }
    }
}

/// Whether default header byte `i` belongs to one of the fields the
/// default constructor sets.
pub open spec fn default_hdr_field(i: int) -> bool {
    ||| (0x0d <= i < 0x0f)  // boot_flag
    ||| (0x11 <= i < 0x15)  // header magic
    ||| i == 0x1f  // type_of_loader
    ||| (0x3b <= i < 0x3f)  // initrd_addr_max
    ||| (0x3f <= i < 0x43)  // kernel_alignment
    ||| (0x47 <= i < 0x4b)  // cmdline_size
}

/// The header used when an ELF kernel is loaded directly and no real
/// bzImage header exists: boot flag and magic present, loader type
/// `0xff`, and conventional ramdisk, alignment and command-line limits.
pub fn default_setup_header() -> (r: SetupHeader)
    ensures
        r.wf(),
        le2(r.bytes@, 0x0d) == 0xaa55,
        le4(r.bytes@, 0x11) == 0x5372_6448,
        r.bytes@[0x1f] == 0xffu8,
        le4(r.bytes@, 0x3b) == 0x37ff_ffff,
        le4(r.bytes@, 0x3f) == 0x0100_0000,
        le4(r.bytes@, 0x47) == 255,
        forall|i: int| 0 <= i < 0x7b && !default_hdr_field(i) ==> r.bytes@[i] == 0u8,
        r.bytes@ == default_hdr_bytes(),
{
    let mut v = zero_vec(0x7b);
    put_u16_le(&mut v, 0x0d, 0xaa55);
    put_u32_le(&mut v, 0x11, 0x5372_6448);
    put_u8(&mut v, 0x1f, 0xff);
    put_u32_le(&mut v, 0x3b, 0x37ff_ffff);
    put_u32_le(&mut v, 0x3f, 0x0100_0000);
    put_u32_le(&mut v, 0x47, 255);
    proof {
        assert(v@ =~= default_hdr_bytes());
    }
    SetupHeader { bytes: v }
}


/// The byte sequence of the fabricated default setup header.
pub open spec fn default_hdr_bytes() -> Seq<u8> {
    Seq::new(0x7b, |i: int|
        if i == 0x0d {
            0x55u8
        } else if i == 0x0e {
            0xaau8
        } else if i == 0x11 {
            0x48u8
        } else if i == 0x12 {
            0x64u8
        } else if i == 0x13 {
            0x72u8
        } else if i == 0x14 {
            0x53u8
        } else if i == 0x1f {
            0xffu8
        } else if i == 0x3b || i == 0x3c || i == 0x3d {
            0xffu8
        } else if i == 0x3e {
            0x37u8
        } else if i == 0x42 {
            0x01u8
        } else if i == 0x47 {
            0xffu8
        } else {
            0u8
        })
}

/// Length of an optional byte string, zero when absent.
pub open spec fn opt_len(o: Option<Vec<u8>>) -> int {
    if o is Some {
        o.unwrap()@.len() as int
    } else {
        0
    }
}

/// First free address after the command line (which sits at `exe_end`
/// with a NUL terminator), or `exe_end` itself when there is none.
pub open spec fn linux_after_cmdline(exe_end: int, p: KernelParams) -> int {
    if p.cmdline is Some {
        exe_end + opt_len(p.cmdline) + 1
    } else {
        exe_end
    }
}

/// Where the ramdisk is placed: the next 1 MiB boundary.
pub open spec fn linux_initrd_addr(exe_end: int, p: KernelParams) -> int {
    round_up(linux_after_cmdline(exe_end, p), 0x10_0000)
}

/// Where the `boot_params` page is placed.
pub open spec fn linux_params_addr(exe_end: int, p: KernelParams) -> int {
    if p.initrd is Some {
        linux_initrd_addr(exe_end, p) + opt_len(p.initrd)
    } else {
        linux_after_cmdline(exe_end, p)
    }
}

/// The first failure the boot-parameter writer runs into, in the order
/// it checks: an oversized command line, the command line not fitting
/// in memory, the ramdisk starting past the header's limit, the ramdisk
/// not fitting, and finally the `boot_params` page not fitting.
pub open spec fn linux_write_err(mem_len: int, hdr: Seq<u8>, exe_end: int, p: KernelParams) -> Option<
    HvError,
> {
    if p.cmdline is Some && opt_len(p.cmdline) > le4(hdr, 0x47) {
        Some(HvError::CmdlineTooLong)
    } else if linux_after_cmdline(exe_end, p) > mem_len {
        Some(HvError::OutOfGuestMemory)
    } else if p.initrd is Some && linux_initrd_addr(exe_end, p) > le4(hdr, 0x3b) {
        Some(HvError::InitrdTooLarge)
    } else if p.initrd is Some && linux_initrd_addr(exe_end, p) + opt_len(p.initrd) > mem_len {
        Some(HvError::OutOfGuestMemory)
    } else if linux_params_addr(exe_end, p) + 4096 > mem_len {
        Some(HvError::OutOfGuestMemory)
    } else {
        None
    }
}

/// Byte `j` of the block starting at `pa`.
pub open spec fn bp_byte(mem: Seq<u8>, pa: int, j: int) -> u8 {
    mem[pa + j]
}

/// Whether page offset `j` is a header byte the writer overwrites.
pub open spec fn bp_hdr_overwritten(p: KernelParams, j: int) -> bool {
    ||| j == 0x210  // type_of_loader
    ||| j == 0x211  // loadflags
    ||| (0x224 <= j < 0x226)  // heap_end_ptr
    ||| (p.cmdline is Some && 0x228 <= j < 0x22c)  // cmd_line_ptr
    ||| (p.initrd is Some && 0x218 <= j < 0x220)  // ramdisk_image, ramdisk_size
}

/// The `boot_params` page at `pa`: the carried-over setup header with
/// the writer's fields applied, two E820 RAM entries covering low
/// memory and everything above 1 MiB, and zero everywhere else.
pub open spec fn linux_page_written(
    mem: Seq<u8>,
    pa: int,
    hdr: Seq<u8>,
    mem_len: int,
    exe_end: int,
    p: KernelParams,
) -> bool {
    &&& bp_byte(mem, pa, 0x1e8) == 2u8  // e820_entries
    &&& bp_byte(mem, pa, 0x210) == 0xffu8  // type_of_loader
    &&& bp_byte(mem, pa, 0x211) == (hdr[0x20] | 0x80u8)  // loadflags | CAN_USE_HEAP
    &&& forall|j: int| 0x224 <= j < 0x226 ==> bp_byte(mem, pa, j) == lbyte(0xfe00, j - 0x224)
    &&& (p.cmdline is Some ==> forall|j: int|
        0x228 <= j < 0x22c ==> bp_byte(mem, pa, j) == lbyte(exe_end % 0x1_0000_0000, j - 0x228))
    &&& (p.initrd is Some ==> forall|j: int|
        0x218 <= j < 0x21c ==> bp_byte(mem, pa, j) == lbyte(linux_initrd_addr(exe_end, p), j - 0x218))
    &&& (p.initrd is Some ==> forall|j: int|
        0x21c <= j < 0x220 ==> bp_byte(mem, pa, j) == lbyte(
            opt_len(p.initrd) % 0x1_0000_0000,
            j - 0x21c,
        ))
    &&& forall|j: int|
        0x1f1 <= j < 0x26c && !bp_hdr_overwritten(p, j) ==> bp_byte(mem, pa, j) == hdr[j - 0x1f1]
    &&& forall|j: int| 0x2d0 <= j < 0x2d8 ==> bp_byte(mem, pa, j) == lbyte(0, j - 0x2d0)
    &&& forall|j: int| 0x2d8 <= j < 0x2e0 ==> bp_byte(mem, pa, j) == lbyte(0x9_fc00, j - 0x2d8)
    &&& forall|j: int| 0x2e0 <= j < 0x2e4 ==> bp_byte(mem, pa, j) == lbyte(1, j - 0x2e0)
    &&& forall|j: int| 0x2e4 <= j < 0x2ec ==> bp_byte(mem, pa, j) == lbyte(0x10_0000, j - 0x2e4)
    &&& forall|j: int|
        0x2ec <= j < 0x2f4 ==> bp_byte(mem, pa, j) == lbyte(mem_len - 0x10_0000, j - 0x2ec)
    &&& forall|j: int| 0x2f4 <= j < 0x2f8 ==> bp_byte(mem, pa, j) == lbyte(1, j - 0x2f4)
    &&& forall|j: int|
        0 <= j < 4096 && j != 0x1e8 && !(0x1f1 <= j < 0x26c) && !(0x2d0 <= j < 0x2f8)
            ==> bp_byte(mem, pa, j) == 0u8
}

/// Whether the writer may have changed byte `i` of guest memory.
pub open spec fn linux_touched(i: int, exe_end: int, p: KernelParams) -> bool {
    ||| (p.cmdline is Some && exe_end <= i < exe_end + opt_len(p.cmdline) + 1)
    ||| (p.initrd is Some && linux_initrd_addr(exe_end, p) <= i < linux_initrd_addr(exe_end, p)
        + opt_len(p.initrd))
    ||| (linux_params_addr(exe_end, p) <= i < linux_params_addr(exe_end, p) + 4096)
}

/// Build the 4096-byte `boot_params` page in a host buffer.
#[verifier::rlimit(100)]
fn build_boot_params_page(
    hdr: &SetupHeader,
    mem_len: u64,
    exe_end: u64,
    params: &KernelParams,
    initrd_addr: u64,
) -> (page: Vec<u8>)
    requires
        hdr.wf(),
        0x10_0000 <= mem_len <= 0x10_0000_0000_0000,
        params.initrd is Some ==> initrd_addr as int == linux_initrd_addr(
            exe_end as int,
            *params,
        ) && initrd_addr <= 0xffff_ffff,
    ensures
        page@.len() == 4096,
        linux_page_written(page@, 0, hdr.bytes@, mem_len as int, exe_end as int, *params),
{
    let mut page = zero_vec(4096);
    let c = copy_slice_to_guest(hdr.bytes.as_slice(), &mut page, 0x1f1);
    proof {
        assert(c is Ok);
    }
    put_u8(&mut page, 0x1e8, 2);
    put_u8(&mut page, 0x210, 0xff);
    let lf: u8 = crate::bytes::get_u8(hdr.bytes.as_slice(), 0x20) | 0x80;
    put_u8(&mut page, 0x211, lf);
    put_u16_le(&mut page, 0x224, 0xfe00);
    if params.cmdline.is_some() {
        put_u32_le(&mut page, 0x228, (exe_end % 0x1_0000_0000) as u32);
    }
    if params.initrd.is_some() {
        let il: u64 = params.initrd.as_ref().unwrap().len() as u64;
        put_u32_le(&mut page, 0x218, initrd_addr as u32);
        put_u32_le(&mut page, 0x21c, (il % 0x1_0000_0000) as u32);
    }
    put_u64_le(&mut page, 0x2d0, 0);
    put_u64_le(&mut page, 0x2d8, 0x9_fc00);
    put_u32_le(&mut page, 0x2e0, 1);
    put_u64_le(&mut page, 0x2e4, 0x10_0000);
    put_u64_le(&mut page, 0x2ec, mem_len - 0x10_0000);
    put_u32_le(&mut page, 0x2f4, 1);
    page
}

/// Transfer the page predicate from the host buffer to the guest
/// memory region it was copied to.
#[verifier::rlimit(100)]
proof fn lemma_page_transfer(
    mem: Seq<u8>,
    pa: int,
    page: Seq<u8>,
    hdr: Seq<u8>,
    mem_len: int,
    exe_end: int,
    p: KernelParams,
)
    requires
        page.len() == 4096,
        0 <= pa,
        pa + 4096 <= mem.len(),
        mem.subrange(pa, pa + 4096) == page,
        linux_page_written(page, 0, hdr, mem_len, exe_end, p),
    ensures
        linux_page_written(mem, pa, hdr, mem_len, exe_end, p),
{
    assert forall|j: int| 0 <= j < 4096 implies bp_byte(mem, pa, j) == bp_byte(page, 0, j) by {
        assert(mem.subrange(pa, pa + 4096)[j] == mem[pa + j]);
    }
}

/// Write the command line, the ramdisk and the `boot_params` page above
/// the loaded kernel, returning the page's guest-physical address. The
/// possible failures, in order, are given by `linux_write_err`; on
/// failure the memory is untouched.
#[verifier::rlimit(100)]
pub fn write_linux_boot_params(
    memory: &mut Vec<u8>,
    hdr: &SetupHeader,
    exe_end: u64,
    params: &KernelParams,
) -> (r: Result<u64, HvError>)
    requires
        hdr.wf(),
        exe_end <= old(memory).len(),
        0x10_0000 <= old(memory).len() <= 0x10_0000_0000_0000,
    ensures
        final(memory)@.len() == old(memory)@.len(),
        r is Err <==> linux_write_err(
            old(memory)@.len() as int,
            hdr.bytes@,
            exe_end as int,
            *params,
        ) is Some,
        r is Err ==> final(memory)@ == old(memory)@ && r == Err::<u64, HvError>(
            linux_write_err(
                old(memory)@.len() as int,
                hdr.bytes@,
                exe_end as int,
                *params,
            ).unwrap(),
        ),
        r is Ok ==> {
            &&& r.unwrap() as int == linux_params_addr(exe_end as int, *params)
            &&& (params.cmdline is Some ==> final(memory)@.subrange(
                exe_end as int,
                exe_end + opt_len(params.cmdline),
            ) == params.cmdline.unwrap()@ && final(memory)@[exe_end + opt_len(params.cmdline)]
                == 0u8)
            &&& (params.initrd is Some ==> final(memory)@.subrange(
                linux_initrd_addr(exe_end as int, *params),
                linux_initrd_addr(exe_end as int, *params) + opt_len(params.initrd),
            ) == params.initrd.unwrap()@)
            &&& linux_page_written(
                final(memory)@,
                linux_params_addr(exe_end as int, *params),
                hdr.bytes@,
                old(memory)@.len() as int,
                exe_end as int,
                *params,
            )
            &&& forall|i: int|
                0 <= i < old(memory)@.len() && !linux_touched(i, exe_end as int, *params)
                    ==> final(memory)@[i] == old(memory)@[i]
        },
{
    let mem_len: u64 = memory.len() as u64;
    let mut allocator = RangeAllocator::new(exe_end);
    let ghost m0: Seq<u8> = memory@;

    // Schedule and check every write before touching guest memory.
    let mut cl_addr: u64 = 0;
    if params.cmdline.is_some() {
        let cl_len: usize = params.cmdline.as_ref().unwrap().len();
        let max_len: u32 = hdr.cmdline_size();
        if cl_len as u64 > max_len as u64 {
            return Err(HvError::CmdlineTooLong);
        }
        cl_addr = allocator.alloc_array(1, 1, cl_len as u64 + 1);
        if allocator.addr > mem_len {
            return Err(HvError::OutOfGuestMemory);
        }
    }
    let mut initrd_addr: u64 = 0;
    if params.initrd.is_some() {
        let il: u64 = params.initrd.as_ref().unwrap().len() as u64;
        let rem: u64 = allocator.addr % 0x10_0000;
        let ia: u64 = if rem == 0 {
            allocator.addr
        } else {
            allocator.addr + (0x10_0000 - rem)
        };
        if ia > hdr.initrd_addr_max() as u64 {
            return Err(HvError::InitrdTooLarge);
        }
        if il > mem_len {
            return Err(HvError::OutOfGuestMemory);
        }
        initrd_addr = allocator.raw_alloc(il, 0x10_0000);
        proof {
            assert(initrd_addr == ia);
        }
        if allocator.addr > mem_len {
            return Err(HvError::OutOfGuestMemory);
        }
    }
    let pa: u64 = allocator.alloc_one(4096, 1);
    if allocator.addr > mem_len {
        return Err(HvError::OutOfGuestMemory);
    }

    // All writes below are inside guest memory.
    if params.cmdline.is_some() {
        let cl = params.cmdline.as_ref().unwrap();
        let c1 = copy_slice_to_guest(cl.as_slice(), memory, cl_addr);
        proof {
            assert(c1 is Ok);
        }
        let c2 = zero_guest_range(memory, cl_addr + cl.len() as u64, 1);
        proof {
            assert(c2 is Ok);
        }
    }
    let ghost m2: Seq<u8> = memory@;
    if params.initrd.is_some() {
        let ird = params.initrd.as_ref().unwrap();
        let c3 = copy_slice_to_guest(ird.as_slice(), memory, initrd_addr);
        proof {
            assert(c3 is Ok);
        }
    }
    let ghost m3: Seq<u8> = memory@;
    let page = build_boot_params_page(hdr, mem_len, exe_end, params, initrd_addr);
    let c4 = copy_slice_to_guest(page.as_slice(), memory, pa);
    proof {
        assert(c4 is Ok);
    }

    proof {
        let e = exe_end as int;
        let p = *params;
        let m4 = memory@;
        let ia = linux_initrd_addr(e, p);
        let pav = linux_params_addr(e, p);
        assert(m4.subrange(pav, pav + 4096) =~= page@);
        lemma_page_transfer(m4, pav, page@, hdr.bytes@, mem_len as int, e, p);
        if p.cmdline is Some {
            assert(m4.subrange(e, e + opt_len(p.cmdline)) =~= p.cmdline.unwrap()@);
        }
        if p.initrd is Some {
            assert(m4.subrange(ia, ia + opt_len(p.initrd)) =~= p.initrd.unwrap()@);
        }
        assert forall|i: int|
            0 <= i < m0.len() && !linux_touched(i, e, p) implies m4[i] == m0[i] by {
            assert(m2[i] == m0[i]);
            assert(m3[i] == m2[i]);
            assert(m4[i] == m3[i]);
        }
    }
    Ok(pa)
}

/// Whether the kernel bytes begin with a valid bzImage: the `"HdrS"`
/// magic, a boot-protocol version of at least 2.06, and the loaded-high
/// flag set.
pub open spec fn bz_header_ok(k: Seq<u8>) -> bool {
    &&& k.len() >= 4096
    &&& le4(k, 0x202) == 0x5372_6448
    &&& le2(k, 0x206) >= 0x206
    &&& k[0x211] & 1u8 == 1u8
}

/// Bytes of real-mode setup code at the front of the image: a zero
/// `setup_sects` means four sectors, plus the boot sector itself.
pub open spec fn bz_setup_size(k: Seq<u8>) -> int {
    if k[0x1f1] == 0u8 {
        (5 * 512) as int
    } else {
        (k[0x1f1] + 1) * 512
    }
}

/// The protected-mode image that is copied to `HIGH_MEMORY_START`.
pub open spec fn bz_image(k: Seq<u8>) -> Seq<u8> {
    k.subrange(bz_setup_size(k), k.len() as int)
}

/// First address past the copied bzImage.
pub open spec fn bz_exe_end(k: Seq<u8>) -> int {
    0x10_0000 + bz_image(k).len() as int
}

/// The first failure of the bzImage loader, in order: a bad header, a
/// truncated image, an image too large for guest memory, then whatever
/// the boot-parameter writer reports.
pub open spec fn bz_err(mem_len: int, k: Seq<u8>, p: KernelParams) -> Option<HvError> {
    if !bz_header_ok(k) {
        Some(HvError::InvalidKernelImageFormat)
    } else if bz_setup_size(k) > k.len() {
        Some(HvError::InvalidKernelImageFormat)
    } else if bz_exe_end(k) > mem_len {
        Some(HvError::OutOfGuestMemory)
    } else {
        linux_write_err(mem_len, k.subrange(0x1f1, 0x26c), bz_exe_end(k), p)
    }
}

/// Load a bzImage: copy the protected-mode part to `HIGH_MEMORY_START`,
/// then write the boot parameters above it. Fails with the first error
/// of `bz_err`; only a failure of the parameter writer leaves the
/// copied image behind, everything earlier leaves memory untouched.
#[verifier::rlimit(100)]
pub fn load_bz_image(memory: &mut Vec<u8>, kernel: &[u8], params: &KernelParams) -> (r: Result<
    Bootable,
    HvError,
>)
    requires
        0x10_0000 <= old(memory).len() <= 0x10_0000_0000_0000,
    ensures
        final(memory)@.len() == old(memory)@.len(),
        r is Err <==> bz_err(old(memory)@.len() as int, kernel@, *params) is Some,
        r is Err ==> r == Err::<Bootable, HvError>(
            bz_err(old(memory)@.len() as int, kernel@, *params).unwrap(),
        ),
        r is Err && (!bz_header_ok(kernel@) || bz_setup_size(kernel@) > kernel@.len() || bz_exe_end(
            kernel@,
        ) > old(memory)@.len()) ==> final(memory)@ == old(memory)@,
        r is Err && bz_header_ok(kernel@) && bz_setup_size(kernel@) <= kernel@.len() && bz_exe_end(
            kernel@,
        ) <= old(memory)@.len() ==> final(memory)@ == splice(
            old(memory)@,
            0x10_0000,
            bz_image(kernel@),
        ),
        r is Ok ==> {
            &&& r.unwrap().protocol == BootProtocol::Linux32
            &&& r.unwrap().entry_addr as int == le4(kernel@, 0x214)
            &&& r.unwrap().params_addr as int == linux_params_addr(bz_exe_end(kernel@), *params)
            &&& final(memory)@.subrange(0x10_0000, bz_exe_end(kernel@)) == bz_image(kernel@)
            &&& linux_page_written(
                final(memory)@,
                linux_params_addr(bz_exe_end(kernel@), *params),
                kernel@.subrange(0x1f1, 0x26c),
                old(memory)@.len() as int,
                bz_exe_end(kernel@),
                *params,
            )
            &&& (params.cmdline is Some ==> final(memory)@.subrange(
                bz_exe_end(kernel@),
                bz_exe_end(kernel@) + opt_len(params.cmdline),
            ) == params.cmdline.unwrap()@)
            &&& forall|i: int|
                0 <= i < old(memory)@.len() && !(0x10_0000 <= i < bz_exe_end(kernel@))
                    && !linux_touched(i, bz_exe_end(kernel@), *params) ==> final(memory)@[i] == old(
                    memory,
                )@[i]
        },
{
    let klen: usize = kernel.len();
    if klen < 4096 {
        return Err(HvError::InvalidKernelImageFormat);
    }
    let magic: u32 = crate::bytes::get_u32_le(kernel, 0x202);
    let version: u16 = crate::bytes::get_u16_le(kernel, 0x206);
    let loadflags: u8 = crate::bytes::get_u8(kernel, 0x211);
    if magic != 0x5372_6448 || version < 0x206 || loadflags & 1 != 1 {
        return Err(HvError::InvalidKernelImageFormat);
    }
    let mut setup_sects: u16 = crate::bytes::get_u8(kernel, 0x1f1) as u16;
    if setup_sects == 0 {
        setup_sects = 4;
    }
    let setup_size: usize = (setup_sects as usize + 1) * 512;
    if setup_size > klen {
        return Err(HvError::InvalidKernelImageFormat);
    }
    let image = vstd::slice::slice_subrange(kernel, setup_size, klen);
    let image_len: u64 = (klen - setup_size) as u64;
    if image_len > memory.len() as u64 || 0x10_0000 + image_len > memory.len() as u64 {
        return Err(HvError::OutOfGuestMemory);
    }
    let ghost m0: Seq<u8> = memory@;
    let c = copy_slice_to_guest(image, memory, 0x10_0000);
    proof {
        assert(c is Ok);
    }
    let ghost m1: Seq<u8> = memory@;
    let hdr = SetupHeader::from_image(kernel);
    let exe_end: u64 = 0x10_0000 + image_len;
    let entry: u32 = hdr.code32_start();
    let pa = match write_linux_boot_params(memory, &hdr, exe_end, params) {
        Ok(pa) => pa,
        Err(e) => {
            return Err(e);
        },
    };
    proof {
        let k = kernel@;
        let m2 = memory@;
        assert forall|j: int|
            0 <= j < bz_exe_end(k) - 0x10_0000 implies m2[0x10_0000 + j] == bz_image(k)[j] by {
            assert(!linux_touched(0x10_0000 + j, bz_exe_end(k), *params));
            assert(m2[0x10_0000 + j] == m1[0x10_0000 + j]);
        }
        assert(m2.subrange(0x10_0000, bz_exe_end(k)) =~= bz_image(k));
        assert forall|i: int|
            0 <= i < m0.len() && !(0x10_0000 <= i < bz_exe_end(k)) && !linux_touched(
                i,
                bz_exe_end(k),
                *params,
            ) implies m2[i] == m0[i] by {
            assert(m1[i] == m0[i]);
        }
    }
    Ok(Bootable { protocol: BootProtocol::Linux32, entry_addr: entry as u64, params_addr: pa })
}

/// Decoding the written `boot_params` page yields the values that went
/// in: the E820 entries, the command-line pointer and the ramdisk
/// fields read back as they were encoded.
pub proof fn lemma_linux_params_decode(
    mem: Seq<u8>,
    pa: int,
    hdr: Seq<u8>,
    mem_len: int,
    exe_end: int,
    p: KernelParams,
)
    requires
        linux_page_written(mem, pa, hdr, mem_len, exe_end, p),
        0 <= pa,
        pa + 4096 <= mem.len(),
        0 <= exe_end <= 0xffff_ffff_ffff_ffff,
        0x10_0000 <= mem_len <= 0xffff_ffff_ffff_ffff,
        p.initrd is Some ==> 0 <= linux_initrd_addr(exe_end, p) <= 0xffff_ffff,
        opt_len(p.initrd) <= 0xffff_ffff_ffff_ffff,
    ensures
        mem[pa + 0x1e8] == 2u8,
        le8(mem, pa + 0x2d0) == 0,
        le8(mem, pa + 0x2d8) == 0x9_fc00,
        le4(mem, pa + 0x2e0) == 1,
        le8(mem, pa + 0x2e4) == 0x10_0000,
        le8(mem, pa + 0x2ec) == mem_len - 0x10_0000,
        le4(mem, pa + 0x2f4) == 1,
        le2(mem, pa + 0x224) == 0xfe00,
        p.cmdline is Some ==> le4(mem, pa + 0x228) == exe_end % 0x1_0000_0000,
        p.initrd is Some ==> le4(mem, pa + 0x218) == linux_initrd_addr(exe_end, p) && le4(
            mem,
            pa + 0x21c,
        ) == opt_len(p.initrd) % 0x1_0000_0000,
{
    assert(bp_byte(mem, pa, 0x1e8) == 2u8);
    assert forall|k: int| 0 <= k < 8 implies mem[pa + 0x2d0 + k] == lbyte(0, k) by {
        assert(bp_byte(mem, pa, 0x2d0 + k) == lbyte(0, k - 0));
    }
    lemma_le8_recompose(mem, pa + 0x2d0, 0u64);
    assert forall|k: int| 0 <= k < 8 implies mem[pa + 0x2d8 + k] == lbyte(0x9_fc00, k) by {
        assert(bp_byte(mem, pa, 0x2d8 + k) == lbyte(0x9_fc00, (0x2d8 + k) - 0x2d8));
    }
    lemma_le8_recompose(mem, pa + 0x2d8, 0x9_fc00u64);
    assert forall|k: int| 0 <= k < 4 implies mem[pa + 0x2e0 + k] == lbyte(1, k) by {
        assert(bp_byte(mem, pa, 0x2e0 + k) == lbyte(1, (0x2e0 + k) - 0x2e0));
    }
    lemma_le4_recompose(mem, pa + 0x2e0, 1u64);
    assert forall|k: int| 0 <= k < 8 implies mem[pa + 0x2e4 + k] == lbyte(0x10_0000, k) by {
        assert(bp_byte(mem, pa, 0x2e4 + k) == lbyte(0x10_0000, (0x2e4 + k) - 0x2e4));
    }
    lemma_le8_recompose(mem, pa + 0x2e4, 0x10_0000u64);
    assert forall|k: int| 0 <= k < 8 implies mem[pa + 0x2ec + k] == #[trigger] lbyte(
        mem_len - 0x10_0000,
        k,
    ) by {
        assert(bp_byte(mem, pa, 0x2ec + k) == lbyte(mem_len - 0x10_0000, (0x2ec + k) - 0x2ec));
    }
    lemma_le8_recompose(mem, pa + 0x2ec, (mem_len - 0x10_0000) as u64);
    assert forall|k: int| 0 <= k < 4 implies mem[pa + 0x2f4 + k] == lbyte(1, k) by {
        assert(bp_byte(mem, pa, 0x2f4 + k) == lbyte(1, (0x2f4 + k) - 0x2f4));
    }
    lemma_le4_recompose(mem, pa + 0x2f4, 1u64);
    assert(bp_byte(mem, pa, 0x224) == lbyte(0xfe00, 0));
    assert(bp_byte(mem, pa, 0x225) == lbyte(0xfe00, 1));
    if p.cmdline is Some {
        assert forall|k: int|
            0 <= k < 4 implies mem[pa + 0x228 + k] == #[trigger] lbyte(
            exe_end % 0x1_0000_0000,
            k,
        ) by {
            assert(bp_byte(mem, pa, 0x228 + k) == lbyte(exe_end % 0x1_0000_0000, (0x228 + k)
                - 0x228));
        }
        lemma_le4_recompose(mem, pa + 0x228, (exe_end % 0x1_0000_0000) as u64);
    }
    if p.initrd is Some {
        let ia = linux_initrd_addr(exe_end, p);
        assert forall|k: int| 0 <= k < 4 implies mem[pa + 0x218 + k] == #[trigger] lbyte(ia, k) by {
            assert(bp_byte(mem, pa, 0x218 + k) == lbyte(ia, (0x218 + k) - 0x218));
        }
        lemma_le4_recompose(mem, pa + 0x218, ia as u64);
        let il = opt_len(p.initrd) % 0x1_0000_0000;
        assert forall|k: int| 0 <= k < 4 implies mem[pa + 0x21c + k] == #[trigger] lbyte(il, k) by {
            assert(bp_byte(mem, pa, 0x21c + k) == lbyte(il, (0x21c + k) - 0x21c));
        }
        lemma_le4_recompose(mem, pa + 0x21c, il as u64);
    }
}

} // verus!
