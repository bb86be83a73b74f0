//! What the user hands the loader besides the kernel image: the command
//! line, the initial-ramdisk contents, and Multiboot module blobs, all
//! as plain bytes (the host side reads the files).

use vstd::prelude::*;

verus! {

/// One Multiboot module: its pathname (handed to the guest as the
/// module's command line) and the file's contents.
#[derive(Clone)]
pub struct ModuleImage {
    pub path: Vec<u8>,
    pub data: Vec<u8>,
}

/// Parameters for building a guest besides the kernel image itself.
/// The command line carries no NUL terminator; the writers append one.
#[derive(Clone)]
pub struct KernelParams {
    pub cmdline: Option<Vec<u8>>,
    pub initrd: Option<Vec<u8>>,
    pub modules: Vec<ModuleImage>,
}

impl KernelParams {
    /// Parameters with no command line, ramdisk or modules.
    pub fn new_empty() -> (r: Self)
        ensures
            r.cmdline is None,
            r.initrd is None,
            r.modules@.len() == 0,
    {
        KernelParams { cmdline: None, initrd: None, modules: Vec::new() }
    }
}

/// Why a memory-size string was rejected.
#[derive(Debug, Clone, Copy, PartialEq, Eq, Structural)]
pub enum SizeParseError {
    /// Nothing but whitespace.
    Empty,
    /// The byte that neither fits the number nor a size suffix.
    UnexpectedChar(u8),
    /// The digits exceed the machine's address space.
    TooLarge,
    /// The size came out as zero.
    Zero,
}

/// ASCII whitespace, as the size parser trims it.
pub open spec fn is_space(b: u8) -> bool {
    b == 0x20 || b == 0x09 || b == 0x0a || b == 0x0b || b == 0x0c || b == 0x0d
}

/// An ASCII decimal digit.
pub open spec fn is_digit(b: u8) -> bool {
    0x30 <= b <= 0x39
}

/// First index at or after `i` holding a non-space byte, or the length.
pub open spec fn skip_spaces(s: Seq<u8>, i: int) -> int
    decreases s.len() - i,
{
    if i < 0 || i >= s.len() {
        s.len() as int
    } else if is_space(s[i]) {
        skip_spaces(s, i + 1)
    } else {
        i
    }
}

/// One past the last non-space byte before `j`, or zero.
pub open spec fn rtrim_spaces(s: Seq<u8>, j: int) -> int
    decreases j,
{
    if j <= 0 {
        0
    } else if is_space(s[j - 1]) {
        rtrim_spaces(s, j - 1)
    } else {
        j
    }
}

/// First index in `[i, hi)` holding a non-digit byte, or `hi`.
pub open spec fn digits_end(s: Seq<u8>, i: int, hi: int) -> int
    decreases hi - i,
{
    if i < 0 || i >= hi || i >= s.len() {
        hi
    } else if is_digit(s[i]) {
        digits_end(s, i + 1, hi)
    } else {
        i
    }
}

/// The decimal value of the digits in `[lo, e)`.
pub open spec fn digits_val(s: Seq<u8>, lo: int, e: int) -> int
    decreases e - lo,
{
    if e <= lo {
        0
    } else {
        digits_val(s, lo, e - 1) * 10 + (s[e - 1] - 0x30)
    }
}

/// The exponent a size suffix stands for, or `-1` for no suffix.
pub open spec fn suffix_exp(b: u8) -> int {
    if b == 0x4b || b == 0x6b {  // 'K' 'k'
        10
    } else if b == 0x4d || b == 0x6d {  // 'M' 'm'
        20
    } else if b == 0x47 || b == 0x67 {  // 'G' 'g'
        30
    } else {
        -1
    }
}

/// The size parser's result on the whole byte string: trim ASCII
/// whitespace, read decimal digits, then an optional K/M/G suffix and
/// an optional B (bytes after an accepted B are not examined, as a
/// terminated iterator would leave them unread).
pub open spec fn parse_size_spec(s: Seq<u8>) -> Result<usize, SizeParseError> {
    let lo = skip_spaces(s, 0);
    let hi = rtrim_spaces(s, s.len() as int);
    if lo >= hi {
        Err(SizeParseError::Empty)
    } else if !is_digit(s[lo]) {
        Err(SizeParseError::UnexpectedChar(s[lo]))
    } else {
        let de = digits_end(s, lo, hi);
        let v = digits_val(s, lo, de);
        if v > usize::MAX {
            Err(SizeParseError::TooLarge)
        } else {
            let exp = if de == hi {
                0
            } else {
                suffix_exp(s[de])
            };
            if exp < 0 {
                Err(SizeParseError::UnexpectedChar(s[de]))
            } else if de < hi && de + 1 < hi && !(s[de + 1] == 0x42 || s[de + 1] == 0x62) {
                Err(SizeParseError::UnexpectedChar(s[de + 1]))
            } else {
                let shifted = (v as usize) << (exp as usize);
                if shifted == 0 {
                    Err(SizeParseError::Zero)
                } else {
                    Ok(shifted)
                }
            }
        }
    }
}

/// The digit value only grows as digits are appended.
pub proof fn lemma_digits_val_mono(s: Seq<u8>, lo: int, e1: int, e2: int)
    requires
        lo <= e1 <= e2,
        forall|k: int| lo <= k < e2 && k < s.len() ==> is_digit(#[trigger] s[k]),
        e2 <= s.len(),
    ensures
        0 <= digits_val(s, lo, e1) <= digits_val(s, lo, e2),
    decreases e2 - e1,
{
    if e1 == e2 {
        lemma_digits_val_nonneg(s, lo, e1);
    } else {
        lemma_digits_val_mono(s, lo, e1, e2 - 1);
        lemma_digits_val_nonneg(s, lo, e2 - 1);
    }
}

proof fn lemma_digits_val_nonneg(s: Seq<u8>, lo: int, e: int)
    requires
        forall|k: int| lo <= k < e && k < s.len() ==> is_digit(#[trigger] s[k]),
        e <= s.len(),
    ensures
        digits_val(s, lo, e) >= 0,
    decreases e - lo,
{
    if e > lo {
        lemma_digits_val_nonneg(s, lo, e - 1);
    }
}

/// Parse a memory-size string such as `64M` or `2g`: decimal digits,
/// an optional K/M/G binary-exponent suffix, an optional B.
#[verifier::rlimit(100)]
#[verifier::loop_isolation(false)]
pub fn try_parse_size(s: &[u8]) -> (r: Result<usize, SizeParseError>)
    ensures
        r == parse_size_spec(s@),
{
    let n: usize = s.len();
    let mut lo: usize = 0;
    while lo < n && is_space_byte(crate::bytes::get_u8(s, lo))
        invariant
            lo <= n,
            skip_spaces(s@, 0) == skip_spaces(s@, lo as int),
        decreases n - lo,
    {
        lo += 1;
    }
    let mut hi: usize = n;
    while hi > 0 && is_space_byte(crate::bytes::get_u8(s, hi - 1))
        invariant
            hi <= n,
            rtrim_spaces(s@, n as int) == rtrim_spaces(s@, hi as int),
        decreases hi,
    {
        hi -= 1;
    }
    if lo >= hi {
        return Err(SizeParseError::Empty);
    }
    let first = crate::bytes::get_u8(s, lo);
    if !(0x30 <= first && first <= 0x39) {
        return Err(SizeParseError::UnexpectedChar(first));
    }
    let limit: u64 = usize::MAX as u64;
    let mut de: usize = lo;
    while de < hi && is_digit_byte(crate::bytes::get_u8(s, de))
        invariant
            lo <= de <= hi,
            digits_end(s@, lo as int, hi as int) == digits_end(s@, de as int, hi as int),
            forall|k: int| lo <= k < de ==> is_digit(#[trigger] s@[k]),
        decreases hi - de,
    {
        de += 1;
    }
    proof {
        assert(digits_end(s@, lo as int, hi as int) == de);
    }
    let mut acc: u64 = 0;
    let mut i: usize = lo;
    while i < de
        invariant
            lo <= i <= de,
            acc as int == digits_val(s@, lo as int, i as int),
            acc <= limit,
        decreases de - i,
    {
        let d: u64 = (crate::bytes::get_u8(s, i) - 0x30) as u64;
        if acc > (limit - d) / 10 {
            proof {
                vstd::arithmetic::div_mod::lemma_fundamental_div_mod((limit - d) as int, 10);
                assert(acc * 10 + d > limit) by (nonlinear_arith)
                    requires
                        acc > (limit - d) / 10,
                        limit - d == 10 * ((limit - d) / 10) + (limit - d) % 10,
                        0 <= (limit - d) % 10 < 10,
                        d <= 9,
                ;
                lemma_digits_val_mono(s@, lo as int, i + 1, de as int);
            }
            return Err(SizeParseError::TooLarge);
        }
        proof {
            vstd::arithmetic::div_mod::lemma_fundamental_div_mod((limit - d) as int, 10);
            assert(acc * 10 + d <= limit) by (nonlinear_arith)
                requires
                    acc <= (limit - d) / 10,
                    limit - d == 10 * ((limit - d) / 10) + (limit - d) % 10,
                    0 <= (limit - d) % 10,
            ;
        }
        acc = acc * 10 + d;
        i += 1;
    }
    let exp: u32 = if de == hi {
        0
    } else {
        let c = crate::bytes::get_u8(s, de);
        if c == 0x4b || c == 0x6b {
            10
        } else if c == 0x4d || c == 0x6d {
            20
        } else if c == 0x47 || c == 0x67 {
            30
        } else {
            return Err(SizeParseError::UnexpectedChar(c));
        }
    };
    if de < hi && de + 1 < hi {
        let c2 = crate::bytes::get_u8(s, de + 1);
        if !(c2 == 0x42 || c2 == 0x62) {
            return Err(SizeParseError::UnexpectedChar(c2));
        }
    }
    let shifted: usize = (acc as usize) << (exp as usize);
    if shifted == 0 {
        return Err(SizeParseError::Zero);
    }
    Ok(shifted)
}

/// ASCII decimal-digit test.
fn is_digit_byte(b: u8) -> (r: bool)
    ensures
        r == is_digit(b),
{
    0x30 <= b && b <= 0x39
}

/// ASCII whitespace test.
fn is_space_byte(b: u8) -> (r: bool)
    ensures
        r == is_space(b),
{
    b == 0x20 || b == 0x09 || b == 0x0a || b == 0x0b || b == 0x0c || b == 0x0d
}

} // verus!
