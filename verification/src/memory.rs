//! Guest-physical memory primitives: the bump allocator that schedules
//! addresses for post-kernel artifacts, and the bounds-checked copy of
//! host bytes into guest memory.

use vstd::prelude::*;
use crate::HvError;
use crate::bytes::splice;

verus! {

/// `a` rounded up to the next multiple of `align`.
pub open spec fn round_up(a: int, align: int) -> int
    recommends
        align > 0,
{
    if a % align == 0 {
        a
    } else {
        a + align - a % align
    }
}

pub proof fn lemma_round_up(a: int, align: int)
    requires
        align > 0,
        a >= 0,
    ensures
        round_up(a, align) % align == 0,
        a <= round_up(a, align) < a + align,
{
    if a % align != 0 {
        let q = a / align;
        vstd::arithmetic::div_mod::lemma_fundamental_div_mod(a, align);
        assert(round_up(a, align) == align * (q + 1)) by (nonlinear_arith)
            requires
                align > 0,
                a == align * q + a % align,
                round_up(a, align) == a + align - a % align,
        ;
        vstd::arithmetic::div_mod::lemma_mod_multiples_basic(q + 1, align);
        assert((align * (q + 1)) % align == 0);
    }
}

/// A monotonically increasing cursor over guest-physical space. Never
/// frees; every allocation is the cursor rounded up to the requested
/// alignment, after which the cursor advances past the allocation.
pub struct RangeAllocator {
    pub addr: u64,
}

impl RangeAllocator {
    pub fn new(start: u64) -> (r: Self)
        ensures
            r.addr == start,
    {
        RangeAllocator { addr: start }
    }

    /// Returned addresses are non-decreasing across any call sequence:
    /// each result is aligned, at least the previous allocation's end,
    /// and the cursor moves to the end of the new allocation.
    pub fn raw_alloc(&mut self, size: u64, align: u64) -> (r: u64)
        requires
            align >= 1,
            old(self).addr + align + size <= u64::MAX,
        ensures
            r == round_up(old(self).addr as int, align as int),
            r as int % align as int == 0,
            r >= old(self).addr,
            r < old(self).addr + align,
            final(self).addr == r + size,
    {
        proof {
            lemma_round_up(self.addr as int, align as int);
        }
        let rem: u64 = self.addr % align;
        let r: u64 = if rem == 0 {
            self.addr
        } else {
            self.addr + (align - rem)
        };
        self.addr = r + size;
        r
    }

    /// One object of the given size and alignment.
    pub fn alloc_one(&mut self, size: u64, align: u64) -> (r: u64)
        requires
            align >= 1,
            old(self).addr + align + size <= u64::MAX,
        ensures
            r == round_up(old(self).addr as int, align as int),
            r as int % align as int == 0,
            r >= old(self).addr,
            r < old(self).addr + align,
            final(self).addr == r + size,
    {
        self.raw_alloc(size, align)
    }

    /// `count` contiguous objects of the given size and alignment.
    pub fn alloc_array(&mut self, elem_size: u64, align: u64, count: u64) -> (r: u64)
        requires
            align >= 1,
            elem_size * count <= u64::MAX,
            old(self).addr + align + elem_size * count <= u64::MAX,
        ensures
            r == round_up(old(self).addr as int, align as int),
            r as int % align as int == 0,
            r >= old(self).addr,
            r < old(self).addr + align,
            final(self).addr == r + elem_size * count,
    {
        let total: u64 = elem_size * count;
        self.raw_alloc(total, align)
    }
}

/// Values that can be laid into guest memory as a block of bytes.
pub trait CopyToGuest {
    /// The bytes this value occupies in guest memory.
    spec fn guest_bytes(&self) -> Seq<u8>;

    /// Copy the value to guest-physical address `addr`. Succeeds exactly
    /// when the whole block lies inside the memory region; on failure the
    /// memory is untouched.
    fn copy_to_guest(&self, memory: &mut Vec<u8>, addr: u64) -> (r: Result<(), HvError>)
        ensures
            final(memory)@.len() == old(memory)@.len(),
            r is Ok <==> addr + self.guest_bytes().len() <= old(memory)@.len(),
            r is Ok ==> final(memory)@ == splice(old(memory)@, addr as int, self.guest_bytes()),
            r is Err ==> final(memory)@ == old(memory)@ && r == Err::<(), HvError>(
                HvError::OutOfGuestMemory,
            ),
    ;
}

impl CopyToGuest for Vec<u8> {
    open spec fn guest_bytes(&self) -> Seq<u8> {
        self@
    }

    fn copy_to_guest(&self, memory: &mut Vec<u8>, addr: u64) -> (r: Result<(), HvError>) {
        copy_slice_to_guest(self.as_slice(), memory, addr)
    }
}

/// Copy `data` to guest-physical address `addr`, failing without any
/// write when the block would not fit.
pub fn copy_slice_to_guest(data: &[u8], memory: &mut Vec<u8>, addr: u64) -> (r: Result<
    (),
    HvError,
>)
    ensures
        final(memory)@.len() == old(memory)@.len(),
        r is Ok <==> addr + data@.len() <= old(memory)@.len(),
        r is Ok ==> final(memory)@ == splice(old(memory)@, addr as int, data@),
        r is Err ==> final(memory)@ == old(memory)@ && r == Err::<(), HvError>(
            HvError::OutOfGuestMemory,
        ),
{
    let n: usize = data.len();
    let mem_len: usize = memory.len();
    if addr > mem_len as u64 || n as u64 > mem_len as u64 - addr {
        return Err(HvError::OutOfGuestMemory);
    }
    let base: usize = addr as usize;
    let ghost entry_mem: Seq<u8> = memory@;
    let mut i: usize = 0;
    while i < n
        invariant
            i <= n,
            n == data@.len(),
            base + n <= mem_len,
            mem_len == memory@.len(),
            base + n <= memory@.len(),
            memory@.len() == entry_mem.len(),
            addr == base,
            forall|k: int| base <= k < base + i ==> memory@[k] == data@[k - base],
            forall|k: int|
                0 <= k < entry_mem.len() && !(base <= k < base + i) ==> memory@[k]
                    == entry_mem[k],
        decreases n - i,
    {
        let b = crate::bytes::get_u8(data, i);
        memory.set(base + i, b);
        i += 1;
    }
    proof {
        assert(memory@ =~= splice(entry_mem, addr as int, data@));
    }
    Ok(())
}

/// Fill `[addr, addr + len)` with zero bytes, failing without any write
/// when the range would not fit.
pub fn zero_guest_range(memory: &mut Vec<u8>, addr: u64, len: u64) -> (r: Result<(), HvError>)
    ensures
        final(memory)@.len() == old(memory)@.len(),
        r is Ok <==> addr + len <= old(memory)@.len(),
        r is Ok ==> final(memory)@ == splice(
            old(memory)@,
            addr as int,
            Seq::new(len as nat, |i: int| 0u8),
        ),
        r is Err ==> final(memory)@ == old(memory)@ && r == Err::<(), HvError>(
            HvError::OutOfGuestMemory,
        ),
{
    let mem_len: usize = memory.len();
    if addr > mem_len as u64 || len > mem_len as u64 - addr {
        return Err(HvError::OutOfGuestMemory);
    }
    let base: usize = addr as usize;
    let n: usize = len as usize;
    let ghost entry_mem: Seq<u8> = memory@;
    let mut i: usize = 0;
    while i < n
        invariant
            i <= n,
            addr == base,
            len == n,
            base + n <= mem_len,
            mem_len == memory@.len(),
            base + n <= memory@.len(),
            memory@.len() == entry_mem.len(),
            forall|k: int| base <= k < base + i ==> memory@[k] == 0u8,
            forall|k: int|
                0 <= k < entry_mem.len() && !(base <= k < base + i) ==> memory@[k]
                    == entry_mem[k],
        decreases n - i,
    {
        memory.set(base + i, 0u8);
        i += 1;
    }
    proof {
        assert(memory@ =~= splice(entry_mem, addr as int, Seq::new(len as nat, |i: int| 0u8)));
    }
    Ok(())
}

} // verus!
