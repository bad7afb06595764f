use vstd::prelude::*;

verus! {

/// The unsigned value of `n` little-endian bytes of `s` starting at `off`.
pub open spec fn le_val(s: Seq<u8>, off: int, n: nat) -> nat
    decreases n,
{
    if n == 0 {
        0
    } else {
        (s[off] + 256 * le_val(s, off + 1, (n - 1) as nat)) as nat
    }
}

/// The signed reading of an unsigned 64-bit value, two's complement.
pub open spec fn signed64(m: nat) -> int {
    if m < 0x8000_0000_0000_0000 {
        m as int
    } else {
        m - 0x1_0000_0000_0000_0000
    }
}

/// The signed reading of an unsigned 128-bit value, two's complement.
pub open spec fn signed128(m: nat) -> int {
    if m < 0x8000_0000_0000_0000_0000_0000_0000_0000 {
        m as int
    } else {
        m - 0x1_0000_0000_0000_0000_0000_0000_0000_0000
    }
}

/// Reads a little-endian `u32` at `off`.
pub fn read_u32_le(b: &Vec<u8>, off: usize) -> (r: u32)
    requires
        off + 4 <= b@.len(),
    ensures
        r == le_val(b@, off as int, 4),
{
    let n: usize = b.len();
    proof {
        reveal_with_fuel(le_val, 5);
        assert(off + 4 <= n);
    }
    (b[off] as u32) + (b[off + 1] as u32) * 0x100 + (b[off + 2] as u32) * 0x10000 + (b[off
        + 3] as u32) * 0x1000000
}

/// Reads a little-endian `u64` at `off`.
pub fn read_u64_le(b: &Vec<u8>, off: usize) -> (r: u64)
    requires
        off + 8 <= b@.len(),
    ensures
        r == le_val(b@, off as int, 8),
{
    let n: usize = b.len();
    proof {
        reveal_with_fuel(le_val, 9);
        assert(off + 8 <= n);
    }
    (b[off] as u64) + (b[off + 1] as u64) * 0x100 + (b[off + 2] as u64) * 0x10000 + (b[off + 3] as u64) * 0x1000000 + (b[off + 4] as u64) * 0x100000000 + (b[off + 5] as u64) * 0x10000000000 + (b[off + 6] as u64) * 0x1000000000000 + (b[off + 7] as u64) * 0x100000000000000
}

/// Reads a little-endian `u128` at `off`.
#[verifier::rlimit(100)]
pub fn read_u128_le(b: &Vec<u8>, off: usize) -> (r: u128)
    requires
        off + 16 <= b@.len(),
    ensures
        r == le_val(b@, off as int, 16),
{
    let n: usize = b.len();
    proof {
        reveal_with_fuel(le_val, 17);
        assert(off + 16 <= n);
    }
    (b[off] as u128) + (b[off + 1] as u128) * 0x100 + (b[off + 2] as u128) * 0x10000 + (b[off + 3] as u128) * 0x1000000 + (b[off + 4] as u128) * 0x100000000 + (b[off + 5] as u128) * 0x10000000000 + (b[off + 6] as u128) * 0x1000000000000 + (b[off + 7] as u128) * 0x100000000000000 + (b[off + 8] as u128) * 0x10000000000000000 + (b[off + 9] as u128) * 0x1000000000000000000 + (b[off + 10] as u128) * 0x100000000000000000000 + (b[off + 11] as u128) * 0x10000000000000000000000 + (b[off + 12] as u128) * 0x1000000000000000000000000 + (b[off + 13] as u128) * 0x100000000000000000000000000 + (b[off + 14] as u128) * 0x10000000000000000000000000000 + (b[off + 15] as u128) * 0x1000000000000000000000000000000
}

/// Reads a little-endian two's-complement `i64` at `off`.
pub fn read_i64_le(b: &Vec<u8>, off: usize) -> (r: i64)
    requires
        off + 8 <= b@.len(),
    ensures
        r == signed64(le_val(b@, off as int, 8)),
{
    let m: u64 = read_u64_le(b, off);
    if m < 0x8000_0000_0000_0000 {
        m as i64
    } else {
        let t: u64 = u64::MAX - m;
        -(t as i64) - 1
    }
}

/// Reads a little-endian two's-complement `i128` at `off`.
pub fn read_i128_le(b: &Vec<u8>, off: usize) -> (r: i128)
    requires
        off + 16 <= b@.len(),
    ensures
        r == signed128(le_val(b@, off as int, 16)),
{
    let m: u128 = read_u128_le(b, off);
    if m < 0x8000_0000_0000_0000_0000_0000_0000_0000 {
        m as i128
    } else {
        let t: u128 = u128::MAX - m;
        -(t as i128) - 1
    }
}

/// A fresh copy of a byte vector.
pub fn copy_bytes(v: &Vec<u8>) -> (r: Vec<u8>)
    ensures
        r@ == v@,
{
    let mut r: Vec<u8> = Vec::new();
    let mut i: usize = 0;
    while i < v.len()
        invariant
            i <= v@.len(),
            r@ =~= v@.take(i as int),
        decreases v@.len() - i,
    {
        r.push(v[i]);
        i = i + 1;
    }
    proof {
        assert(r@ =~= v@);
    }
    r
}

/// Whether two byte vectors hold the same bytes.
pub fn bytes_eq(a: &Vec<u8>, b: &Vec<u8>) -> (r: bool)
    ensures
        r <==> a@ == b@,
{
    if a.len() != b.len() {
        proof {
            assert(a@.len() != b@.len());
        }
        return false;
    }
    let mut i: usize = 0;
    while i < a.len()
        invariant
            i <= a@.len(),
            a@.len() == b@.len(),
            forall|j: int| 0 <= j < i ==> a@[j] == b@[j],
        decreases a@.len() - i,
    {
        if a[i] != b[i] {
            return false;
        }
        i = i + 1;
    }
    proof {
        assert(a@ =~= b@);
    }
    true
}

/// Index of the first zero byte of `s`, or its length if none occurs.
pub open spec fn first_nul(s: Seq<u8>) -> int
    decreases s.len(),
{
    if s.len() == 0 {
        0
    } else if s[0] == 0 {
        0
    } else {
        1 + first_nul(s.drop_first())
    }
}

proof fn lemma_first_nul_from_scan(s: Seq<u8>, i: int)
    requires
        0 <= i <= s.len(),
        forall|j: int| 0 <= j < i ==> s[j] != 0,
        i < s.len() ==> s[i as int] == 0,
    ensures
        first_nul(s) == i,
    decreases s.len(),
{
    if s.len() > 0 && i > 0 {
        let t = s.drop_first();
        assert(forall|j: int| 0 <= j < i - 1 ==> t[j] == s[j + 1] && t[j] != 0);
        assert(i - 1 < t.len() ==> t[i - 1] == s[i as int]);
        lemma_first_nul_from_scan(t, i - 1);
    }
}

/// Reads a 24-byte symbol field at `off`: the bytes up to its first zero,
/// which terminates the stored name.
pub fn read_symbol(b: &Vec<u8>, off: usize) -> (r: Vec<u8>)
    requires
        off + 24 <= b@.len(),
    ensures
        ({
            let field = b@.subrange(off as int, off as int + 24);
            r@ == field.take(first_nul(field))
        }),
{
    let n: usize = b.len();
    proof {
        assert(off + 24 <= n);
    }
    let ghost field = b@.subrange(off as int, off as int + 24);
    let mut acc: Vec<u8> = Vec::new();
    let mut i: usize = 0;
    while i < 24
        invariant
            i <= 24,
            n == b@.len(),
            off + 24 <= n,
            field == b@.subrange(off as int, off as int + 24),
            acc@ =~= field.take(i as int),
            forall|j: int| 0 <= j < i ==> field[j] != 0,
        decreases 24 - i,
    {
        let c: u8 = b[off + i];
        assert(c == field[i as int]);
        if c == 0 {
            proof {
                lemma_first_nul_from_scan(field, i as int);
            }
            return acc;
        }
        acc.push(c);
        i = i + 1;
    }
    proof {
        lemma_first_nul_from_scan(field, 24);
    }
    acc
}

/// Reads a 32-byte address at `off`.
pub fn read_address(b: &Vec<u8>, off: usize) -> (r: crate::addrs::Address)
    requires
        off + 32 <= b@.len(),
    ensures
        r@ == b@.subrange(off as int, off as int + 32),
{
    let n: usize = b.len();
    proof {
        assert(off + 32 <= n);
    }
    let r = crate::addrs::Address { bytes: [b[off], b[off + 1], b[off + 2], b[off + 3], b[off + 4], b[off + 5], b[off + 6], b[off + 7], b[off + 8], b[off + 9], b[off + 10], b[off + 11], b[off + 12], b[off + 13], b[off + 14], b[off + 15], b[off + 16], b[off + 17], b[off + 18], b[off + 19], b[off + 20], b[off + 21], b[off + 22], b[off + 23], b[off + 24], b[off + 25], b[off + 26], b[off + 27], b[off + 28], b[off + 29], b[off + 30], b[off + 31]] };
    proof {
        assert(r@ =~= b@.subrange(off as int, off as int + 32));
    }
    r
}

/// The number that a sequence of decimal digit bytes denotes.
pub open spec fn dec_val(s: Seq<u8>) -> nat
    decreases s.len(),
{
    if s.len() == 0 {
        0
    } else {
        (dec_val(s.drop_last()) * 10 + (s.last() - 48)) as nat
    }
}

/// Whether every byte of `s` is a decimal digit.
pub open spec fn all_digits(s: Seq<u8>) -> bool {
    forall|i: int| 0 <= i < s.len() ==> 48 <= #[trigger] s[i] <= 57
}

proof fn lemma_dec_prefix(s: Seq<u8>, i: int)
    requires
        0 <= i <= s.len(),
        all_digits(s),
    ensures
        dec_val(s.take(i)) <= dec_val(s),
    decreases s.len() - i,
{
    if i < s.len() {
        assert(s.take(i + 1).drop_last() =~= s.take(i));
        assert(s.take(i + 1).last() == s[i]);
        lemma_dec_prefix(s, i + 1);
    } else {
        assert(s.take(i) =~= s);
    }
}

/// The digits of a decimal spelling: an optional leading plus sign is
/// dropped, everything else is kept.
pub open spec fn sign_stripped(s: Seq<u8>) -> Seq<u8> {
    if s.len() > 0 && s[0] == 43 {
        s.drop_first()
    } else {
        s
    }
}

/// Parses the decimal spelling of an unsigned 128-bit integer, as a
/// caller-supplied order-id filter arrives. An optional leading plus sign
/// is accepted; after it, success is exactly a non-empty, all-digit
/// string whose value fits. Anything else is the malformed-number error.
pub fn parse_u128_dec(s: &Vec<u8>) -> (r: Result<u128, crate::errs::Error>)
    ensures
        ({
            let t = sign_stripped(s@);
            &&& (r is Ok <==> t.len() > 0 && all_digits(t) && dec_val(t) <= u128::MAX)
            &&& (r matches Ok(v) ==> v == dec_val(t))
        }),
        r matches Err(e) ==> e is InvalidInteger,
{
    let mut digits: Vec<u8> = Vec::new();
    let mut k: usize = 0;
    if s.len() > 0 && s[0] == 43 {
        k = 1;
    }
    while k < s.len()
        invariant
            (k >= 1 && s@.len() > 0 && s@[0] == 43 && digits@ =~= s@.subrange(
                1,
                k as int,
            )) || (digits@ =~= s@.subrange(0, k as int) && !(s@.len() > 0 && s@[0] == 43)),
            k <= s@.len(),
        decreases s@.len() - k,
    {
        digits.push(s[k]);
        k = k + 1;
    }
    proof {
        assert(digits@ =~= sign_stripped(s@));
    }
    parse_u128_digits(&digits)
}

/// Parses a bare digit string: exactly a non-empty, all-digit spelling
/// whose value fits the 128-bit word.
fn parse_u128_digits(s: &Vec<u8>) -> (r: Result<u128, crate::errs::Error>)
    ensures
        r is Ok <==> s@.len() > 0 && all_digits(s@) && dec_val(s@) <= u128::MAX,
        r matches Ok(v) ==> v == dec_val(s@),
        r matches Err(e) ==> e is InvalidInteger,
{
    if s.len() == 0 {
        return Err(crate::errs::Error::InvalidInteger);
    }
    let mut acc: u128 = 0;
    let mut i: usize = 0;
    while i < s.len()
        invariant
            i <= s@.len(),
            acc == dec_val(s@.take(i as int)),
            all_digits(s@.take(i as int)),
        decreases s@.len() - i,
    {
        let c: u8 = s[i];
        if c < 48 || c > 57 {
            return Err(crate::errs::Error::InvalidInteger);
        }
        let d: u128 = (c - 48) as u128;
        proof {
            assert(s@.take(i + 1).drop_last() =~= s@.take(i as int));
            assert(s@.take(i + 1).last() == s@[i as int]);
        }
        if acc > (u128::MAX - d) / 10 {
            proof {
                vstd::arithmetic::div_mod::lemma_fundamental_div_mod(
                    (u128::MAX - d) as int,
                    10,
                );
                assert(acc * 10 + d > u128::MAX) by (nonlinear_arith)
                    requires
                        acc > ((u128::MAX - d) as int) / 10,
                        d >= 0,
                        (u128::MAX - d) as int == 10 * (((u128::MAX - d) as int) / 10) + ((
                        u128::MAX - d) as int) % 10,
                        0 <= ((u128::MAX - d) as int) % 10 < 10,
                ;
                if all_digits(s@) {
                    lemma_dec_prefix(s@, i + 1);
                }
            }
            return Err(crate::errs::Error::InvalidInteger);
        }
        proof {
            vstd::arithmetic::div_mod::lemma_fundamental_div_mod((u128::MAX - d) as int, 10);
            assert(acc * 10 + d <= u128::MAX) by (nonlinear_arith)
                requires
                    acc <= ((u128::MAX - d) as int) / 10,
                    d >= 0,
                    (u128::MAX - d) as int == 10 * (((u128::MAX - d) as int) / 10) + ((u128::MAX
                        - d) as int) % 10,
                    0 <= ((u128::MAX - d) as int) % 10 < 10,
            ;
        }
        acc = acc * 10 + d;
        i = i + 1;
    }
    proof {
        assert(s@.take(i as int) =~= s@);
    }
    Ok(acc)
}

} // verus!
