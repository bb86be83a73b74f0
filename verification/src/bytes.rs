//! Byte-level primitives shared by the loader and the platform-table
//! writers: little-endian reads and writes at an offset, a `splice`
//! function describing what an in-place block write does to a byte
//! sequence, and the byte sum used by the ACPI checksums.

use vstd::prelude::*;

verus! {

/// The sequence obtained from `mem` by overwriting the window starting
/// at `addr` with `data`, leaving every other byte unchanged.
pub open spec fn splice(mem: Seq<u8>, addr: int, data: Seq<u8>) -> Seq<u8> {
    Seq::new(mem.len(), |i: int| if addr <= i < addr + data.len() {
        data[i - addr]
    } else {
        mem[i]
    })
}

/// Little-endian value of the two bytes at `off`.
pub open spec fn le2(s: Seq<u8>, off: int) -> int {
    s[off] + 0x100 * s[off + 1]
}

/// Little-endian value of the four bytes at `off`.
pub open spec fn le4(s: Seq<u8>, off: int) -> int {
    s[off] + 0x100 * s[off + 1] + 0x1_0000 * s[off + 2] + 0x100_0000 * s[off + 3]
}

/// Little-endian value of the eight bytes at `off`.
pub open spec fn le8(s: Seq<u8>, off: int) -> int {
    le4(s, off) + 0x1_0000_0000 * le4(s, off + 4)
}

/// Byte `k` of the little-endian encoding of `x`.
pub open spec fn lbyte(x: int, k: int) -> u8 {
    if k == 0 {
        (x % 0x100) as u8
    } else if k == 1 {
        (x / 0x100 % 0x100) as u8
    } else if k == 2 {
        (x / 0x1_0000 % 0x100) as u8
    } else if k == 3 {
        (x / 0x100_0000 % 0x100) as u8
    } else if k == 4 {
        (x / 0x1_0000_0000 % 0x100) as u8
    } else if k == 5 {
        (x / 0x100_0000_0000 % 0x100) as u8
    } else if k == 6 {
        (x / 0x1_0000_0000_0000 % 0x100) as u8
    } else {
        (x / 0x100_0000_0000_0000 % 0x100) as u8
    }
}

/// True when the bytes of `s` outside `[start, end)` agree with `t`
/// (both sequences having the same length).
pub open spec fn unchanged_outside(s: Seq<u8>, t: Seq<u8>, start: int, end: int) -> bool {
    &&& s.len() == t.len()
    &&& forall|i: int| 0 <= i < s.len() && !(start <= i < end) ==> s[i] == t[i]
}

pub fn put_u8(v: &mut Vec<u8>, off: usize, x: u8)
    requires
        off < old(v).len(),
    ensures
        final(v)@ == old(v)@.update(off as int, x),
{
    v.set(off, x);
}

pub fn put_u16_le(v: &mut Vec<u8>, off: usize, x: u16)
    requires
        off + 2 <= old(v).len(),
    ensures
        final(v)@.len() == old(v)@.len(),
        le2(final(v)@, off as int) == x as int,
        final(v)@[off as int] == lbyte(x as int, 0),
        final(v)@[off + 1] == lbyte(x as int, 1),
        unchanged_outside(final(v)@, old(v)@, off as int, off + 2),
{
    v.set(off, (x % 0x100) as u8);
    v.set(off + 1, (x / 0x100) as u8);
}

pub fn put_u32_le(v: &mut Vec<u8>, off: usize, x: u32)
    requires
        off + 4 <= old(v).len(),
    ensures
        final(v)@.len() == old(v)@.len(),
        le4(final(v)@, off as int) == x as int,
        forall|k: int| 0 <= k < 4 ==> final(v)@[off + k] == lbyte(x as int, k),
        unchanged_outside(final(v)@, old(v)@, off as int, off + 4),
{
    v.set(off, (x % 0x100) as u8);
    v.set(off + 1, (x / 0x100 % 0x100) as u8);
    v.set(off + 2, (x / 0x1_0000 % 0x100) as u8);
    v.set(off + 3, (x / 0x100_0000) as u8);
}

#[verifier::rlimit(100)]
pub fn put_u64_le(v: &mut Vec<u8>, off: usize, x: u64)
    requires
        off + 8 <= old(v).len(),
    ensures
        final(v)@.len() == old(v)@.len(),
        le8(final(v)@, off as int) == x as int,
        forall|k: int| 0 <= k < 8 ==> final(v)@[off + k] == lbyte(x as int, k),
        unchanged_outside(final(v)@, old(v)@, off as int, off + 8),
{
    v.set(off, (x % 0x100) as u8);
    v.set(off + 1, (x / 0x100 % 0x100) as u8);
    v.set(off + 2, (x / 0x1_0000 % 0x100) as u8);
    v.set(off + 3, (x / 0x100_0000 % 0x100) as u8);
    v.set(off + 4, (x / 0x1_0000_0000 % 0x100) as u8);
    v.set(off + 5, (x / 0x100_0000_0000 % 0x100) as u8);
    v.set(off + 6, (x / 0x1_0000_0000_0000 % 0x100) as u8);
    v.set(off + 7, (x / 0x100_0000_0000_0000) as u8);
    proof {
        assert(x % 0x100 + 0x100 * (x / 0x100 % 0x100) + 0x1_0000 * (x / 0x1_0000 % 0x100)
            + 0x100_0000 * (x / 0x100_0000 % 0x100) + 0x1_0000_0000 * (x / 0x1_0000_0000 % 0x100)
            + 0x100_0000_0000 * (x / 0x100_0000_0000 % 0x100) + 0x1_0000_0000_0000 * (x
            / 0x1_0000_0000_0000 % 0x100) + 0x100_0000_0000_0000 * (x / 0x100_0000_0000_0000)
            == x) by (bit_vector);
    }
}

pub fn get_u8(s: &[u8], off: usize) -> (r: u8)
    requires
        off < s.len(),
    ensures
        r == s@[off as int],
{
    *vstd::slice::slice_index_get(s, off)
}

pub fn get_u16_le(s: &[u8], off: usize) -> (r: u16)
    requires
        off + 2 <= s.len(),
    ensures
        r as int == le2(s@, off as int),
{
    let b0 = get_u8(s, off);
    let b1 = get_u8(s, off + 1);
    b0 as u16 + b1 as u16 * 0x100
}

pub fn get_u32_le(s: &[u8], off: usize) -> (r: u32)
    requires
        off + 4 <= s.len(),
    ensures
        r as int == le4(s@, off as int),
{
    let b0 = get_u8(s, off);
    let b1 = get_u8(s, off + 1);
    let b2 = get_u8(s, off + 2);
    let b3 = get_u8(s, off + 3);
    b0 as u32 + b1 as u32 * 0x100 + b2 as u32 * 0x1_0000 + b3 as u32 * 0x100_0000
}

pub fn get_u64_le(s: &[u8], off: usize) -> (r: u64)
    requires
        off + 8 <= s.len(),
    ensures
        r as int == le8(s@, off as int),
{
    let lo = get_u32_le(s, off);
    let hi = get_u32_le(s, off + 4);
    lo as u64 + hi as u64 * 0x1_0000_0000
}

/// Sum of all bytes of `s`, as an unbounded integer.
pub open spec fn sum_bytes(s: Seq<u8>) -> int
    decreases s.len(),
{
    if s.len() == 0 {
        0
    } else {
        sum_bytes(s.drop_last()) + s.last()
    }
}

pub proof fn lemma_sum_bytes_nonneg(s: Seq<u8>)
    ensures
        0 <= sum_bytes(s) <= 255 * s.len(),
    decreases s.len(),
{
    if s.len() > 0 {
        lemma_sum_bytes_nonneg(s.drop_last());
    }
}

/// Replacing one byte changes the sum by the difference of the bytes.
pub proof fn lemma_sum_bytes_update(s: Seq<u8>, i: int, x: u8)
    requires
        0 <= i < s.len(),
    ensures
        sum_bytes(s.update(i, x)) == sum_bytes(s) - s[i] + x,
    decreases s.len(),
{
    if i == s.len() - 1 {
        assert(s.update(i, x).drop_last() =~= s.drop_last());
    } else {
        assert(s.update(i, x).drop_last() =~= s.drop_last().update(i, x));
        lemma_sum_bytes_update(s.drop_last(), i, x);
    }
}

/// A little-endian read is unchanged when the bytes outside `[lo, hi)`
/// are unchanged and the read window avoids `[lo, hi)`.
pub proof fn lemma_le4_unchanged(s: Seq<u8>, t: Seq<u8>, off: int, lo: int, hi: int)
    requires
        unchanged_outside(t, s, lo, hi),
        0 <= off,
        off + 4 <= s.len(),
        off + 4 <= lo || off >= hi,
    ensures
        le4(t, off) == le4(s, off),
{
    assert(t[off] == s[off]);
    assert(t[off + 1] == s[off + 1]);
    assert(t[off + 2] == s[off + 2]);
    assert(t[off + 3] == s[off + 3]);
}

pub proof fn lemma_le8_unchanged(s: Seq<u8>, t: Seq<u8>, off: int, lo: int, hi: int)
    requires
        unchanged_outside(t, s, lo, hi),
        0 <= off,
        off + 8 <= s.len(),
        off + 8 <= lo || off >= hi,
    ensures
        le8(t, off) == le8(s, off),
{
    lemma_le4_unchanged(s, t, off, lo, hi);
    lemma_le4_unchanged(s, t, off + 4, lo, hi);
}

/// All-zero byte sequence of length `n`.
pub open spec fn zero_bytes(n: int) -> Seq<u8> {
    Seq::new(n as nat, |i: int| 0u8)
}

/// A vector of `n` zero bytes.
pub fn zero_vec(n: usize) -> (v: Vec<u8>)
    ensures
        v@ == zero_bytes(n as int),
{
    let mut v: Vec<u8> = Vec::new();
    let mut i: usize = 0;
    while i < n
        invariant
            i <= n,
            v@.len() == i,
            forall|k: int| 0 <= k < i ==> v@[k] == 0u8,
        decreases n - i,
    {
        v.push(0u8);
        i += 1;
    }
    proof {
        assert(v@ =~= zero_bytes(n as int));
    }
    v
}

/// Sum of the first `upto` bytes of `v`.
pub fn byte_sum(v: &Vec<u8>, upto: usize) -> (s: u64)
    requires
        upto <= v.len(),
        upto <= 0xff_ffff,
    ensures
        s == sum_bytes(v@.subrange(0, upto as int)),
{
    let mut s: u64 = 0;
    let mut i: usize = 0;
    while i < upto
        invariant
            i <= upto,
            upto <= v@.len(),
            upto <= 0xff_ffff,
            s == sum_bytes(v@.subrange(0, i as int)),
            s <= 255 * i,
        decreases upto - i,
    {
        proof {
            assert(v@.subrange(0, i + 1).drop_last() =~= v@.subrange(0, i as int));
        }
        s = s + v[i] as u64;
        i += 1;
    }
    s
}

/// The byte that makes a running sum cancel modulo 256.
pub proof fn lemma_checksum(s: int, c: int)
    requires
        s >= 0,
        c == (256 - s % 256) % 256,
    ensures
        (s + c) % 256 == 0,
{
    let m = s % 256;
    vstd::arithmetic::div_mod::lemma_fundamental_div_mod(s, 256);
    if m == 0 {
        vstd::arithmetic::div_mod::lemma_mod_multiples_basic(s / 256, 256);
        assert((s + c) % 256 == 0) by (nonlinear_arith)
            requires
                c == 0,
                s == 256 * (s / 256),
                (256 * (s / 256)) % 256 == 0,
        ;
    } else {
        vstd::arithmetic::div_mod::lemma_mod_multiples_basic(s / 256 + 1, 256);
        assert((s + c) % 256 == 0) by (nonlinear_arith)
            requires
                c == 256 - m,
                s == 256 * (s / 256) + m,
                (256 * (s / 256 + 1)) % 256 == 0,
        ;
    }
}

/// Four little-endian bytes of `x` read back as `x` modulo 2^32.
pub proof fn lemma_le4_recompose(s: Seq<u8>, off: int, x: u64)
    requires
        0 <= off,
        off + 4 <= s.len(),
        forall|k: int| 0 <= k < 4 ==> s[off + k] == lbyte(x as int, k),
    ensures
        le4(s, off) == x as int % 0x1_0000_0000,
{
    assert(s[off] == lbyte(x as int, 0));
    assert(s[off + 1] == lbyte(x as int, 1));
    assert(s[off + 2] == lbyte(x as int, 2));
    assert(s[off + 3] == lbyte(x as int, 3));
    assert(x % 0x100 + 0x100 * (x / 0x100 % 0x100) + 0x1_0000 * (x / 0x1_0000 % 0x100)
        + 0x100_0000 * (x / 0x100_0000 % 0x100) == x % 0x1_0000_0000) by (bit_vector);
}

/// Eight little-endian bytes of `x` read back as `x`.
pub proof fn lemma_le8_recompose(s: Seq<u8>, off: int, x: u64)
    requires
        0 <= off,
        off + 8 <= s.len(),
        forall|k: int| 0 <= k < 8 ==> s[off + k] == lbyte(x as int, k),
    ensures
        le8(s, off) == x,
{
    assert(s[off] == lbyte(x as int, 0));
    assert(s[off + 1] == lbyte(x as int, 1));
    assert(s[off + 2] == lbyte(x as int, 2));
    assert(s[off + 3] == lbyte(x as int, 3));
    assert(s[off + 4] == lbyte(x as int, 4));
    assert(s[off + 5] == lbyte(x as int, 5));
    assert(s[off + 6] == lbyte(x as int, 6));
    assert(s[off + 7] == lbyte(x as int, 7));
    assert(x % 0x100 + 0x100 * (x / 0x100 % 0x100) + 0x1_0000 * (x / 0x1_0000 % 0x100)
        + 0x100_0000 * (x / 0x100_0000 % 0x100) + 0x1_0000_0000 * (x / 0x1_0000_0000 % 0x100)
        + 0x100_0000_0000 * (x / 0x100_0000_0000 % 0x100) + 0x1_0000_0000_0000 * (x
        / 0x1_0000_0000_0000 % 0x100) + 0x100_0000_0000_0000 * (x / 0x100_0000_0000_0000)
        == x) by (bit_vector);
}

} // verus!
