//! ACPI tables in guest low memory: an RSDP (revision 2) pointing at an
//! XSDT whose single entry is a MADT describing one I/O APIC and one
//! enabled local APIC per CPU. Every table carries the standard 8-bit
//! checksum: the bytes of its declared length sum to zero modulo 256.

use vstd::prelude::*;
use crate::HvError;
use crate::bytes::{
    byte_sum, lemma_checksum, lemma_le4_unchanged, lemma_le8_unchanged, le4, le8, put_u32_le,
    put_u64_le, put_u8, splice, sum_bytes, unchanged_outside, zero_vec,
};
use crate::memory::copy_slice_to_guest;

verus! {

pub const RSDP_BASE: u64 = 0xe_0000;
pub const XSDT_BASE: u64 = 0xe_0024;
pub const MADT_BASE: u64 = 0xe_0050;

pub const IOAPIC_ADDR: u32 = 0xfec0_0000;
pub const APIC_BASE: u32 = 0xfee0_0000;

/// Total bytes of the MADT for `n` CPUs: the 44-byte table header and
/// APIC fields, one 12-byte I/O APIC entry, and `n` 8-byte local APICs.
pub open spec fn madt_size(n: int) -> int {
    56 + 8 * n
}

/// First guest-physical address past the ACPI tables.
pub open spec fn acpi_end(n: int) -> int {
    0xe_0050 + madt_size(n)
}

/// The RSDP fields as guest memory holds them: signature `"RSD PTR "`,
/// revision 2, its own length, and the XSDT address. The two checksum
/// bytes are pinned by the checksum clauses of `configure_acpi`.
pub open spec fn rsdp_written(mem: Seq<u8>) -> bool {
    &&& mem[0xe_0000] == 0x52u8  // 'R'
    &&& mem[0xe_0001] == 0x53u8  // 'S'
    &&& mem[0xe_0002] == 0x44u8  // 'D'
    &&& mem[0xe_0003] == 0x20u8
    &&& mem[0xe_0004] == 0x50u8  // 'P'
    &&& mem[0xe_0005] == 0x54u8  // 'T'
    &&& mem[0xe_0006] == 0x52u8  // 'R'
    &&& mem[0xe_0007] == 0x20u8
    &&& mem[0xe_000f] == 2u8  // revision
    &&& le4(mem, 0xe_0010) == 0  // legacy RSDT address
    &&& le4(mem, 0xe_0014) == 36  // length
    &&& le8(mem, 0xe_0018) == 0xe_0024  // XSDT address
}

/// The XSDT fields: signature `"XSDT"`, length covering one table
/// pointer, revision 1, and the MADT address as its single entry.
pub open spec fn xsdt_written(mem: Seq<u8>) -> bool {
    &&& mem[0xe_0024] == 0x58u8  // 'X'
    &&& mem[0xe_0025] == 0x53u8  // 'S'
    &&& mem[0xe_0026] == 0x44u8  // 'D'
    &&& mem[0xe_0027] == 0x54u8  // 'T'
    &&& le4(mem, 0xe_0028) == 44  // length
    &&& mem[0xe_002c] == 1u8  // revision
    &&& le8(mem, 0xe_0048) == 0xe_0050  // the MADT pointer
}

/// Local APIC entry `k`: type 0, length 8, processor id and APIC id both
/// `k`, and the enabled flag set.
pub open spec fn madt_lapic_ok(mem: Seq<u8>, k: int) -> bool {
    &&& mem[0xe_0088 + 8 * k] == 0u8
    &&& mem[0xe_0089 + 8 * k] == 8u8
    &&& mem[0xe_008a + 8 * k] == k as u8
    &&& mem[0xe_008b + 8 * k] == k as u8
    &&& le4(mem, 0xe_008c + 8 * k) == 1
}

/// The MADT fields: signature `"APIC"`, its length, revision 6, the
/// local-APIC base address, one I/O APIC entry at address
/// `IOAPIC_ADDR`, and `n` enabled local APICs.
pub open spec fn madt_written(mem: Seq<u8>, n: int) -> bool {
    &&& mem[0xe_0050] == 0x41u8  // 'A'
    &&& mem[0xe_0051] == 0x50u8  // 'P'
    &&& mem[0xe_0052] == 0x49u8  // 'I'
    &&& mem[0xe_0053] == 0x43u8  // 'C'
    &&& le4(mem, 0xe_0054) == madt_size(n)  // length
    &&& mem[0xe_0058] == 6u8  // revision
    &&& le4(mem, 0xe_0074) == APIC_BASE  // local APIC address
    &&& le4(mem, 0xe_0078) == 0  // flags
    &&& mem[0xe_007c] == 1u8  // I/O APIC entry type
    &&& mem[0xe_007d] == 12u8  // I/O APIC entry length
    &&& mem[0xe_007e] == 0u8  // I/O APIC id
    &&& le4(mem, 0xe_0080) == IOAPIC_ADDR
    &&& le4(mem, 0xe_0084) == 0  // global IRQ base
    &&& forall|k: int| 0 <= k < n ==> madt_lapic_ok(mem, k)
}

/// Every ACPI table's bytes sum to zero modulo 256 (the RSDP both over
/// its first 20 bytes and over all 36).
pub open spec fn acpi_checksums_ok(mem: Seq<u8>, n: int) -> bool {
    &&& sum_bytes(mem.subrange(0xe_0000, 0xe_0014)) % 256 == 0
    &&& sum_bytes(mem.subrange(0xe_0000, 0xe_0024)) % 256 == 0
    &&& sum_bytes(mem.subrange(0xe_0024, 0xe_0050)) % 256 == 0
    &&& sum_bytes(mem.subrange(0xe_0050, 0xe_0050 + madt_size(n))) % 256 == 0
}

/// Compute the table's checksum over its first `upto` bytes and store
/// it at `at`, making those bytes sum to zero modulo 256.
fn fix_checksum(v: &mut Vec<u8>, upto: usize, at: usize)
    requires
        at < upto <= old(v).len(),
        upto <= 0xff_ffff,
        old(v)@[at as int] == 0,
    ensures
        final(v)@.len() == old(v)@.len(),
        final(v)@ == old(v)@.update(at as int, final(v)@[at as int]),
        sum_bytes(final(v)@.subrange(0, upto as int)) % 256 == 0,
{
    let s: u64 = byte_sum(v, upto);
    proof {
        crate::bytes::lemma_sum_bytes_nonneg(v@.subrange(0, upto as int));
    }
    let c: u8 = ((256 - (s % 256)) % 256) as u8;
    let ghost pre: Seq<u8> = v@;
    v.set(at, c);
    proof {
        assert(v@.subrange(0, upto as int) =~= pre.subrange(0, upto as int).update(at as int, c));
        crate::bytes::lemma_sum_bytes_update(pre.subrange(0, upto as int), at as int, c);
        lemma_checksum(sum_bytes(pre.subrange(0, upto as int)), c as int);
    }
}

/// Build the 36-byte RSDP pointing at the XSDT.
fn build_rsdp() -> (v: Vec<u8>)
    ensures
        v@.len() == 36,
        v@[0] == 0x52u8,
        v@[1] == 0x53u8,
        v@[2] == 0x44u8,
        v@[3] == 0x20u8,
        v@[4] == 0x50u8,
        v@[5] == 0x54u8,
        v@[6] == 0x52u8,
        v@[7] == 0x20u8,
        v@[15] == 2u8,
        le4(v@, 16) == 0,
        le4(v@, 20) == 36,
        le8(v@, 24) == 0xe_0024,
        sum_bytes(v@.subrange(0, 20)) % 256 == 0,
        sum_bytes(v@.subrange(0, 36)) % 256 == 0,
{
    let mut v = zero_vec(36);
    put_u8(&mut v, 0, 0x52);
    put_u8(&mut v, 1, 0x53);
    put_u8(&mut v, 2, 0x44);
    put_u8(&mut v, 3, 0x20);
    put_u8(&mut v, 4, 0x50);
    put_u8(&mut v, 5, 0x54);
    put_u8(&mut v, 6, 0x52);
    put_u8(&mut v, 7, 0x20);
    put_u8(&mut v, 15, 2);
    put_u32_le(&mut v, 20, 36);
    put_u64_le(&mut v, 24, 0xe_0024);
    fix_checksum(&mut v, 20, 8);
    let ghost pre: Seq<u8> = v@;
    fix_checksum(&mut v, 36, 32);
    proof {
        assert(v@.subrange(0, 20) =~= pre.subrange(0, 20));
    }
    v
}

/// Build the 44-byte XSDT whose single entry points at the MADT.
fn build_xsdt() -> (v: Vec<u8>)
    ensures
        v@.len() == 44,
        v@[0] == 0x58u8,
        v@[1] == 0x53u8,
        v@[2] == 0x44u8,
        v@[3] == 0x54u8,
        le4(v@, 4) == 44,
        v@[8] == 1u8,
        le8(v@, 36) == 0xe_0050,
        sum_bytes(v@.subrange(0, 44)) % 256 == 0,
{
    let mut v = zero_vec(44);
    put_u8(&mut v, 0, 0x58);
    put_u8(&mut v, 1, 0x53);
    put_u8(&mut v, 2, 0x44);
    put_u8(&mut v, 3, 0x54);
    put_u32_le(&mut v, 4, 44);
    put_u8(&mut v, 8, 1);
    put_u64_le(&mut v, 36, 0xe_0050);
    fix_checksum(&mut v, 44, 9);
    v
}

/// Local APIC entry `k` inside a MADT byte vector.
pub open spec fn lapic_entry_ok(v: Seq<u8>, k: int) -> bool {
    &&& v[56 + 8 * k] == 0u8
    &&& v[57 + 8 * k] == 8u8
    &&& v[58 + 8 * k] == k as u8
    &&& v[59 + 8 * k] == k as u8
    &&& le4(v, 60 + 8 * k) == 1
}

/// Build the MADT with one I/O APIC and `n` enabled local APICs.
#[verifier::rlimit(100)]
fn build_madt(n: usize) -> (v: Vec<u8>)
    requires
        n <= 255,
    ensures
        v@.len() == madt_size(n as int),
        v@[0] == 0x41u8,
        v@[1] == 0x50u8,
        v@[2] == 0x49u8,
        v@[3] == 0x43u8,
        le4(v@, 4) == madt_size(n as int),
        v@[8] == 6u8,
        le4(v@, 36) == APIC_BASE,
        le4(v@, 40) == 0,
        v@[44] == 1u8,
        v@[45] == 12u8,
        v@[46] == 0u8,
        le4(v@, 48) == IOAPIC_ADDR,
        le4(v@, 52) == 0,
        forall|k: int| 0 <= k < n ==> lapic_entry_ok(v@, k),
        sum_bytes(v@.subrange(0, madt_size(n as int))) % 256 == 0,
{
    let size: usize = 56 + 8 * n;
    let mut v = zero_vec(size);
    put_u8(&mut v, 0, 0x41);
    put_u8(&mut v, 1, 0x50);
    put_u8(&mut v, 2, 0x49);
    put_u8(&mut v, 3, 0x43);
    put_u32_le(&mut v, 4, size as u32);
    put_u8(&mut v, 8, 6);
    put_u32_le(&mut v, 36, APIC_BASE);
    put_u8(&mut v, 44, 1);
    put_u8(&mut v, 45, 12);
    put_u32_le(&mut v, 48, IOAPIC_ADDR);
    let mut k: usize = 0;
    while k < n
        invariant
            k <= n,
            n <= 255,
            v@.len() == 56 + 8 * n,
            v@[0] == 0x41u8,
            v@[1] == 0x50u8,
            v@[2] == 0x49u8,
            v@[3] == 0x43u8,
            le4(v@, 4) == 56 + 8 * (n as int),
            v@[8] == 6u8,
            v@[9] == 0u8,
            le4(v@, 36) == APIC_BASE,
            le4(v@, 40) == 0,
            v@[44] == 1u8,
            v@[45] == 12u8,
            v@[46] == 0u8,
            le4(v@, 48) == IOAPIC_ADDR,
            le4(v@, 52) == 0,
            forall|j: int| 0 <= j < k ==> lapic_entry_ok(v@, j),
        decreases n - k,
    {
        let ghost pre: Seq<u8> = v@;
        let base: usize = 56 + 8 * k;
        put_u8(&mut v, base, 0);
        put_u8(&mut v, base + 1, 8);
        put_u8(&mut v, base + 2, k as u8);
        put_u8(&mut v, base + 3, k as u8);
        put_u32_le(&mut v, base + 4, 1);
        proof {
            let w: int = 56 + 8 * (k as int);
            assert(unchanged_outside(v@, pre, w, w + 8));
            lemma_le4_unchanged(pre, v@, 4, w, w + 8);
            lemma_le4_unchanged(pre, v@, 36, w, w + 8);
            lemma_le4_unchanged(pre, v@, 40, w, w + 8);
            lemma_le4_unchanged(pre, v@, 48, w, w + 8);
            lemma_le4_unchanged(pre, v@, 52, w, w + 8);
            assert forall|j: int| 0 <= j < k + 1 implies lapic_entry_ok(v@, j) by {
                if j < k as int {
                    assert(lapic_entry_ok(pre, j));
                    lemma_le4_unchanged(pre, v@, 60 + 8 * j, w, w + 8);
                } else {
                    assert(v@[56 + 8 * j] == 0u8);
                }
            }
        }
        k += 1;
    }
    let ghost pre_ck: Seq<u8> = v@;
    fix_checksum(&mut v, size, 9);
    proof {
        assert forall|j: int| 0 <= j < n implies lapic_entry_ok(v@, j) by {
            assert(lapic_entry_ok(pre_ck, j));
        }
    }
    v
}


/// After the three disjoint copies, guest memory holds each table's
/// bytes and everything outside the ACPI region is untouched.
#[verifier::rlimit(100)]
proof fn lemma_acpi_assembled(
    m0: Seq<u8>,
    m1: Seq<u8>,
    m2: Seq<u8>,
    m3: Seq<u8>,
    rsdp: Seq<u8>,
    xsdt: Seq<u8>,
    madt: Seq<u8>,
    n: int,
)
    requires
        n >= 0,
        m0.len() >= acpi_end(n),
        rsdp.len() == 36,
        xsdt.len() == 44,
        madt.len() == madt_size(n),
        m1 == splice(m0, 0xe_0000, rsdp),
        m2 == splice(m1, 0xe_0024, xsdt),
        m3 == splice(m2, 0xe_0050, madt),
    ensures
        m3.len() == m0.len(),
        m3.subrange(0xe_0000, 0xe_0024) == rsdp,
        m3.subrange(0xe_0024, 0xe_0050) == xsdt,
        m3.subrange(0xe_0050, 0xe_0050 + madt_size(n)) == madt,
        forall|i: int| 0 <= i < m0.len() && !(0xe_0000 <= i < acpi_end(n)) ==> m3[i] == m0[i],
{
    assert(m3.subrange(0xe_0000, 0xe_0024) =~= rsdp);
    assert(m3.subrange(0xe_0024, 0xe_0050) =~= xsdt);
    assert(m3.subrange(0xe_0050, 0xe_0050 + madt_size(n)) =~= madt);
    assert forall|i: int|
        0 <= i < m0.len() && !(0xe_0000 <= i < acpi_end(n)) implies m3[i] == m0[i] by {
        assert(m1[i] == m0[i]);
        assert(m2[i] == m1[i]);
        assert(m3[i] == m2[i]);
    }
}

/// Field reads of a table transfer from its byte vector to the guest
/// memory region holding it.
#[verifier::rlimit(100)]
proof fn lemma_acpi_fields(m3: Seq<u8>, rsdp: Seq<u8>, xsdt: Seq<u8>, madt: Seq<u8>, n: int)
    requires
        n >= 0,
        m3.len() >= acpi_end(n),
        rsdp.len() == 36,
        xsdt.len() == 44,
        madt.len() == madt_size(n),
        m3.subrange(0xe_0000, 0xe_0024) == rsdp,
        m3.subrange(0xe_0024, 0xe_0050) == xsdt,
        m3.subrange(0xe_0050, 0xe_0050 + madt_size(n)) == madt,
        rsdp[0] == 0x52u8 && rsdp[1] == 0x53u8 && rsdp[2] == 0x44u8 && rsdp[3] == 0x20u8,
        rsdp[4] == 0x50u8 && rsdp[5] == 0x54u8 && rsdp[6] == 0x52u8 && rsdp[7] == 0x20u8,
        rsdp[15] == 2u8,
        le4(rsdp, 16) == 0,
        le4(rsdp, 20) == 36,
        le8(rsdp, 24) == 0xe_0024,
        sum_bytes(rsdp.subrange(0, 20)) % 256 == 0,
        sum_bytes(rsdp.subrange(0, 36)) % 256 == 0,
        xsdt[0] == 0x58u8 && xsdt[1] == 0x53u8 && xsdt[2] == 0x44u8 && xsdt[3] == 0x54u8,
        le4(xsdt, 4) == 44,
        xsdt[8] == 1u8,
        le8(xsdt, 36) == 0xe_0050,
        sum_bytes(xsdt.subrange(0, 44)) % 256 == 0,
        madt[0] == 0x41u8 && madt[1] == 0x50u8 && madt[2] == 0x49u8 && madt[3] == 0x43u8,
        le4(madt, 4) == madt_size(n),
        madt[8] == 6u8,
        le4(madt, 36) == APIC_BASE,
        le4(madt, 40) == 0,
        madt[44] == 1u8 && madt[45] == 12u8 && madt[46] == 0u8,
        le4(madt, 48) == IOAPIC_ADDR,
        le4(madt, 52) == 0,
        forall|k: int| 0 <= k < n ==> lapic_entry_ok(madt, k),
        sum_bytes(madt.subrange(0, madt_size(n))) % 256 == 0,
    ensures
        rsdp_written(m3),
        xsdt_written(m3),
        madt_written(m3, n),
        acpi_checksums_ok(m3, n),
{
    assert(m3.subrange(0xe_0000, 0xe_0014) =~= rsdp.subrange(0, 20));
    assert(rsdp.subrange(0, 36) =~= rsdp);
    assert(xsdt.subrange(0, 44) =~= xsdt);
    assert(madt.subrange(0, madt_size(n)) =~= madt);
    assert(le4(m3, 0xe_0010) == le4(rsdp, 16));
    assert(le4(m3, 0xe_0014) == le4(rsdp, 20));
    assert(le8(m3, 0xe_0018) == le8(rsdp, 24));
    assert(le4(m3, 0xe_0028) == le4(xsdt, 4));
    assert(le8(m3, 0xe_0048) == le8(xsdt, 36));
    assert(le4(m3, 0xe_0054) == le4(madt, 4));
    assert(le4(m3, 0xe_0074) == le4(madt, 36));
    assert(le4(m3, 0xe_0078) == le4(madt, 40));
    assert(le4(m3, 0xe_0080) == le4(madt, 48));
    assert(le4(m3, 0xe_0084) == le4(madt, 52));
    assert forall|k: int| 0 <= k < n implies madt_lapic_ok(m3, k) by {
        assert(lapic_entry_ok(madt, k));
        assert(m3[0xe_0088 + 8 * k] == madt[56 + 8 * k]);
        assert(m3[0xe_0089 + 8 * k] == madt[57 + 8 * k]);
        assert(m3[0xe_008a + 8 * k] == madt[58 + 8 * k]);
        assert(m3[0xe_008b + 8 * k] == madt[59 + 8 * k]);
        assert(le4(m3, 0xe_008c + 8 * k) == le4(madt, 60 + 8 * k));
    }
}

/// Write the ACPI tables for `num_cpus` CPUs into guest low memory.
/// Succeeds exactly when the tables fit inside guest memory; on failure
/// the memory is untouched.
#[verifier::rlimit(100)]
pub fn configure_acpi(memory: &mut Vec<u8>, num_cpus: usize) -> (r: Result<(), HvError>)
    requires
        num_cpus <= 255,
    ensures
        final(memory)@.len() == old(memory)@.len(),
        r is Ok <==> acpi_end(num_cpus as int) <= old(memory)@.len(),
        r is Ok ==> {
            &&& rsdp_written(final(memory)@)
            &&& xsdt_written(final(memory)@)
            &&& madt_written(final(memory)@, num_cpus as int)
            &&& acpi_checksums_ok(final(memory)@, num_cpus as int)
            &&& forall|i: int|
                0 <= i < old(memory)@.len() && !(0xe_0000 <= i < acpi_end(num_cpus as int))
                    ==> final(memory)@[i] == old(memory)@[i]
        },
        r is Err ==> final(memory)@ == old(memory)@ && r == Err::<(), HvError>(
            HvError::OutOfGuestMemory,
        ),
{
    let end: usize = 0xe_0088 + 8 * num_cpus;
    if end as u64 > memory.len() as u64 {
        return Err(HvError::OutOfGuestMemory);
    }
    let ghost m0: Seq<u8> = memory@;

    let rsdp = build_rsdp();
    let c1 = copy_slice_to_guest(rsdp.as_slice(), memory, 0xe_0000);
    proof {
        assert(c1 is Ok);
    }
    if c1.is_err() {
        return Err(HvError::OutOfGuestMemory);
    }
    let ghost m1: Seq<u8> = memory@;

    let xsdt = build_xsdt();
    let c2 = copy_slice_to_guest(xsdt.as_slice(), memory, 0xe_0024);
    proof {
        assert(c2 is Ok);
    }
    if c2.is_err() {
        return Err(HvError::OutOfGuestMemory);
    }
    let ghost m2: Seq<u8> = memory@;

    let madt = build_madt(num_cpus);
    let c3 = copy_slice_to_guest(madt.as_slice(), memory, 0xe_0050);
    proof {
        assert(c3 is Ok);
    }
    if c3.is_err() {
        return Err(HvError::OutOfGuestMemory);
    }

    proof {
        let n = num_cpus as int;
        let m3 = memory@;
        lemma_acpi_assembled(m0, m1, m2, m3, rsdp@, xsdt@, madt@, n);
        lemma_acpi_fields(m3, rsdp@, xsdt@, madt@, n);
    }
    Ok(())
}

} // verus!
