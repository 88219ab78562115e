//! Little-endian integers inside byte buffers.
//!
//! The value of a field is stated arithmetically: the byte at the lowest
//! offset is the least significant one. The definitions are opaque to the
//! verifier, so that a proof about a record does not drown in arithmetic; a
//! proof that needs one reveals it.

use vstd::prelude::*;

verus! {

/// The unsigned 16-bit value stored at `off`.
#[verifier::opaque]
pub open spec fn u16_at(b: Seq<u8>, off: int) -> int {
    b[off] as int + 0x100 * (b[off + 1] as int)
}

/// The unsigned 32-bit value stored at `off`.
#[verifier::opaque]
pub open spec fn u32_at(b: Seq<u8>, off: int) -> int {
    u16_at(b, off) + 0x1_0000 * u16_at(b, off + 2)
}

/// The unsigned 64-bit value stored at `off`.
#[verifier::opaque]
pub open spec fn u64_at(b: Seq<u8>, off: int) -> int {
    u32_at(b, off) + 0x1_0000_0000 * u32_at(b, off + 4)
}

/// The unsigned 128-bit value stored at `off`.
#[verifier::opaque]
pub open spec fn u128_at(b: Seq<u8>, off: int) -> int {
    u64_at(b, off) + 0x1_0000_0000_0000_0000 * u64_at(b, off + 8)
}

/// The two's-complement 32-bit value stored at `off`.
pub open spec fn i32_at(b: Seq<u8>, off: int) -> int {
    let n = u32_at(b, off);
    if n >= 0x8000_0000 {
        n - 0x1_0000_0000
    } else {
        n
    }
}

/// The two's-complement 64-bit value stored at `off`.
pub open spec fn i64_at(b: Seq<u8>, off: int) -> int {
    let n = u64_at(b, off);
    if n >= 0x8000_0000_0000_0000 {
        n - 0x1_0000_0000_0000_0000
    } else {
        n
    }
}

/// Reads the byte at `off`.
pub fn read_u8(b: &[u8], off: usize) -> (r: u8)
    requires
        off < b.len(),
    ensures
        r == b@[off as int],
{
    b[off]
}

/// Reads the unsigned 16-bit number at `off`.
pub fn read_u16(b: &[u8], off: usize) -> (r: u16)
    requires
        off + 2 <= b.len(),
    ensures
        r == u16_at(b@, off as int),
{
    proof {
        reveal(u16_at);
    }
    let lo: u16 = b[off] as u16;
    let hi: u16 = b[off + 1] as u16;
    lo + 0x100 * hi
}

/// Reads the unsigned 32-bit number at `off`.
pub fn read_u32(b: &[u8], off: usize) -> (r: u32)
    requires
        off + 4 <= b.len(),
    ensures
        r == u32_at(b@, off as int),
{
    proof {
        reveal(u32_at);
    }
    let lo: u32 = read_u16(b, off) as u32;
    let hi: u32 = read_u16(b, off + 2) as u32;
    lo + 0x1_0000 * hi
}

/// Reads the unsigned 64-bit number at `off`.
pub fn read_u64(b: &[u8], off: usize) -> (r: u64)
    requires
        off + 8 <= b.len(),
    ensures
        r == u64_at(b@, off as int),
{
    proof {
        reveal(u64_at);
    }
    let lo: u64 = read_u32(b, off) as u64;
    let hi: u64 = read_u32(b, off + 4) as u64;
    lo + 0x1_0000_0000 * hi
}

/// Reads the unsigned 128-bit number at `off`.
pub fn read_u128(b: &[u8], off: usize) -> (r: u128)
    requires
        off + 16 <= b.len(),
    ensures
        r == u128_at(b@, off as int),
{
    proof {
        reveal(u128_at);
    }
    let lo: u128 = read_u64(b, off) as u128;
    let hi: u128 = read_u64(b, off + 8) as u128;
    lo + 0x1_0000_0000_0000_0000 * hi
}

/// Reads the signed 32-bit number at `off`.
pub fn read_i32(b: &[u8], off: usize) -> (r: i32)
    requires
        off + 4 <= b.len(),
    ensures
        r == i32_at(b@, off as int),
{
    let n: i64 = read_u32(b, off) as i64;
    if n >= 0x8000_0000 {
        (n - 0x1_0000_0000) as i32
    } else {
        n as i32
    }
}

/// Reads the signed 64-bit number at `off`.
pub fn read_i64(b: &[u8], off: usize) -> (r: i64)
    requires
        off + 8 <= b.len(),
    ensures
        r == i64_at(b@, off as int),
{
    let n: i128 = read_u64(b, off) as i128;
    if n >= 0x8000_0000_0000_0000 {
        (n - 0x1_0000_0000_0000_0000) as i64
    } else {
        n as i64
    }
}

/// Copies the `N` bytes that start at `off`.
pub fn read_bytes<const N: usize>(b: &[u8], off: usize) -> (r: [u8; N])
    requires
        off + N <= b.len(),
    ensures
        r@ == b@.subrange(off as int, off + N),
{
    let mut out: [u8; N] = [0u8; N];
    let mut i: usize = 0;
    while i < N
        invariant
            i <= N,
            off + N <= b.len(),
            forall|k: int| 0 <= k < i ==> out@[k] == b@[off + k],
        decreases N - i,
    {
        out[i] = b[off + i];
        i = i + 1;
    }
    assert(out@ =~= b@.subrange(off as int, off + N));
    out
}

/// Copies an array into a vector.
pub fn array_to_vec<const N: usize>(a: &[u8; N]) -> (v: Vec<u8>)
    ensures
        v@ == a@,
{
    let mut v: Vec<u8> = Vec::new();
    let mut i: usize = 0;
    while i < N
        invariant
            i <= N,
            v@.len() == i,
            forall|k: int| 0 <= k < i ==> v@[k] == a@[k],
        decreases N - i,
    {
        v.push(a[i]);
        i = i + 1;
    }
    assert(v@ =~= a@);
    v
}

/// The four bytes that store `n`, least significant first.
pub open spec fn u32_le_bytes(n: int) -> Seq<u8> {
    seq![
        (n % 0x100) as u8,
        (n / 0x100 % 0x100) as u8,
        (n / 0x1_0000 % 0x100) as u8,
        (n / 0x100_0000 % 0x100) as u8,
    ]
}

/// The eight bytes that store `n`, least significant first.
pub open spec fn u64_le_bytes(n: int) -> Seq<u8> {
    seq![
        (n % 0x100) as u8,
        (n / 0x100 % 0x100) as u8,
        (n / 0x1_0000 % 0x100) as u8,
        (n / 0x100_0000 % 0x100) as u8,
        (n / 0x1_0000_0000 % 0x100) as u8,
        (n / 0x100_0000_0000 % 0x100) as u8,
        (n / 0x1_0000_0000_0000 % 0x100) as u8,
        (n / 0x100_0000_0000_0000 % 0x100) as u8,
    ]
}

/// The eight bytes that store `x` in two's complement, least significant
/// first.
pub open spec fn i64_le_bytes(x: int) -> Seq<u8> {
    u64_le_bytes(
        if x < 0 {
            x + 0x1_0000_0000_0000_0000
        } else {
            x
        },
    )
}

/// The eight bytes that store `n`, least significant first.
pub fn write_u64(n: u64) -> (r: Vec<u8>)
    ensures
        r@ == u64_le_bytes(n as int),
{
    let mut out: Vec<u8> = Vec::new();
    out.push((n % 0x100) as u8);
    out.push((n / 0x100 % 0x100) as u8);
    out.push((n / 0x1_0000 % 0x100) as u8);
    out.push((n / 0x100_0000 % 0x100) as u8);
    out.push((n / 0x1_0000_0000 % 0x100) as u8);
    out.push((n / 0x100_0000_0000 % 0x100) as u8);
    out.push((n / 0x1_0000_0000_0000 % 0x100) as u8);
    out.push((n / 0x100_0000_0000_0000 % 0x100) as u8);
    assert(out@ =~= u64_le_bytes(n as int));
    out
}

/// The eight bytes that store `x` in two's complement, least significant
/// first.
pub fn write_i64(x: i64) -> (r: Vec<u8>)
    ensures
        r@ == i64_le_bytes(x as int),
{
    let n: u64 = if x < 0 {
        ((x + 0x7fff_ffff_ffff_ffff) + 1) as u64 + 0x8000_0000_0000_0000
    } else {
        x as u64
    };
    write_u64(n)
}

/// A 16-bit number read from a buffer lies in the range of 16 bits.
pub proof fn lemma_u16_at_bounds(b: Seq<u8>, off: int)
    ensures
        0 <= u16_at(b, off) < 0x1_0000,
{
    reveal(u16_at);
}

/// A 32-bit number read from a buffer lies in the range of 32 bits.
pub proof fn lemma_u32_at_bounds(b: Seq<u8>, off: int)
    ensures
        0 <= u32_at(b, off) < 0x1_0000_0000,
{
    reveal(u32_at);
    lemma_u16_at_bounds(b, off);
    lemma_u16_at_bounds(b, off + 2);
}

/// A 64-bit number read from a buffer lies in the range of 64 bits.
pub proof fn lemma_u64_at_bounds(b: Seq<u8>, off: int)
    ensures
        0 <= u64_at(b, off) < 0x1_0000_0000_0000_0000,
{
    reveal(u64_at);
    lemma_u32_at_bounds(b, off);
    lemma_u32_at_bounds(b, off + 4);
}

/// A 128-bit number read from a buffer lies in the range of 128 bits.
pub proof fn lemma_u128_at_bounds(b: Seq<u8>, off: int)
    ensures
        0 <= u128_at(b, off) < 0x1_0000_0000_0000_0000_0000_0000_0000_0000,
{
    reveal(u128_at);
    lemma_u64_at_bounds(b, off);
    lemma_u64_at_bounds(b, off + 8);
}

/// Reading back what was written gives the number that was written.
pub proof fn lemma_u64_bytes_round_trip(n: int)
    requires
        0 <= n < 0x1_0000_0000_0000_0000,
    ensures
        u64_le_bytes(n).len() == 8,
        u64_at(u64_le_bytes(n), 0) == n,
{
    reveal(u16_at);
    reveal(u32_at);
    reveal(u64_at);
    let q1 = n / 0x100;
    let q2 = n / 0x1_0000;
    let q3 = n / 0x100_0000;
    let q4 = n / 0x1_0000_0000;
    let q5 = n / 0x100_0000_0000;
    let q6 = n / 0x1_0000_0000_0000;
    let q7 = n / 0x100_0000_0000_0000;
    assert(q2 == q1 / 0x100);
    assert(q3 == q2 / 0x100);
    assert(q4 == q3 / 0x100);
    assert(q5 == q4 / 0x100);
    assert(q6 == q5 / 0x100);
    assert(q7 == q6 / 0x100);
    assert(q7 < 0x100);
    let s = u64_le_bytes(n);
    assert(s[0] as int == n % 0x100);
    assert(s[1] as int == q1 % 0x100);
    assert(s[2] as int == q2 % 0x100);
    assert(s[3] as int == q3 % 0x100);
    assert(s[4] as int == q4 % 0x100);
    assert(s[5] as int == q5 % 0x100);
    assert(s[6] as int == q6 % 0x100);
    assert(s[7] as int == q7);
    assert(u16_at(s, 6) == q6);
    assert(u16_at(s, 4) == q4 - 0x1_0000 * q6);
    assert(u32_at(s, 4) == q4);
    assert(u16_at(s, 2) == q2 - 0x1_0000 * q4);
    assert(u16_at(s, 0) == n - 0x1_0000 * q2);
    assert(u32_at(s, 0) == n - 0x1_0000_0000 * q4);
}

/// Reading back a signed number gives the number that was written.
pub proof fn lemma_i64_bytes_round_trip(x: int)
    requires
        -0x8000_0000_0000_0000 <= x < 0x8000_0000_0000_0000,
    ensures
        i64_le_bytes(x).len() == 8,
        i64_at(i64_le_bytes(x), 0) == x,
{
    let n = if x < 0 {
        x + 0x1_0000_0000_0000_0000
    } else {
        x
    };
    lemma_u64_bytes_round_trip(n);
}

/// Whether `a` and `b` hold the same bytes from `from` up to `to`.
pub open spec fn same_bytes(a: Seq<u8>, b: Seq<u8>, from: int, to: int) -> bool {
    forall|i: int| from <= i < to ==> a[i] == b[i]
}

/// A number is split in only one way into a part below `base` and a
/// multiple of `base`.
proof fn lemma_split(base: int, low_a: int, high_a: int, low_b: int, high_b: int)
    by (nonlinear_arith)
    requires
        0 <= low_a < base,
        0 <= low_b < base,
        low_a + base * high_a == low_b + base * high_b,
    ensures
        low_a == low_b,
        high_a == high_b,
{
}

/// Two buffers that store the same 16-bit number at `off` hold the same two
/// bytes there.
pub proof fn lemma_u16_at_is_lossless(a: Seq<u8>, b: Seq<u8>, off: int)
    requires
        u16_at(a, off) == u16_at(b, off),
    ensures
        same_bytes(a, b, off, off + 2),
{
    reveal(u16_at);
    lemma_split(0x100, a[off] as int, a[off + 1] as int, b[off] as int, b[off + 1] as int);
}

/// Two buffers that store the same 32-bit number at `off` hold the same four
/// bytes there.
pub proof fn lemma_u32_at_is_lossless(a: Seq<u8>, b: Seq<u8>, off: int)
    requires
        u32_at(a, off) == u32_at(b, off),
    ensures
        same_bytes(a, b, off, off + 4),
{
    reveal(u32_at);
    lemma_u16_at_bounds(a, off);
    lemma_u16_at_bounds(b, off);
    lemma_split(
        0x1_0000,
        u16_at(a, off),
        u16_at(a, off + 2),
        u16_at(b, off),
        u16_at(b, off + 2),
    );
    lemma_u16_at_is_lossless(a, b, off);
    lemma_u16_at_is_lossless(a, b, off + 2);
}

/// Two buffers that store the same 64-bit number at `off` hold the same
/// eight bytes there.
pub proof fn lemma_u64_at_is_lossless(a: Seq<u8>, b: Seq<u8>, off: int)
    requires
        u64_at(a, off) == u64_at(b, off),
    ensures
        same_bytes(a, b, off, off + 8),
{
    reveal(u64_at);
    lemma_u32_at_bounds(a, off);
    lemma_u32_at_bounds(b, off);
    lemma_split(
        0x1_0000_0000,
        u32_at(a, off),
        u32_at(a, off + 4),
        u32_at(b, off),
        u32_at(b, off + 4),
    );
    lemma_u32_at_is_lossless(a, b, off);
    lemma_u32_at_is_lossless(a, b, off + 4);
}

/// Two buffers that store the same 128-bit number at `off` hold the same
/// sixteen bytes there.
pub proof fn lemma_u128_at_is_lossless(a: Seq<u8>, b: Seq<u8>, off: int)
    requires
        u128_at(a, off) == u128_at(b, off),
    ensures
        same_bytes(a, b, off, off + 16),
{
    reveal(u128_at);
    lemma_u64_at_bounds(a, off);
    lemma_u64_at_bounds(b, off);
    lemma_split(
        0x1_0000_0000_0000_0000,
        u64_at(a, off),
        u64_at(a, off + 8),
        u64_at(b, off),
        u64_at(b, off + 8),
    );
    lemma_u64_at_is_lossless(a, b, off);
    lemma_u64_at_is_lossless(a, b, off + 8);
}

/// Two buffers that store the same signed 32-bit number at `off` hold the
/// same four bytes there.
pub proof fn lemma_i32_at_is_lossless(a: Seq<u8>, b: Seq<u8>, off: int)
    requires
        i32_at(a, off) == i32_at(b, off),
    ensures
        same_bytes(a, b, off, off + 4),
{
    lemma_u32_at_bounds(a, off);
    lemma_u32_at_bounds(b, off);
    lemma_u32_at_is_lossless(a, b, off);
}

/// Two buffers that store the same signed 64-bit number at `off` hold the
/// same eight bytes there.
pub proof fn lemma_i64_at_is_lossless(a: Seq<u8>, b: Seq<u8>, off: int)
    requires
        i64_at(a, off) == i64_at(b, off),
    ensures
        same_bytes(a, b, off, off + 8),
{
    lemma_u64_at_bounds(a, off);
    lemma_u64_at_bounds(b, off);
    lemma_u64_at_is_lossless(a, b, off);
}

/// Two buffers with the same window hold the same bytes there.
pub proof fn lemma_subrange_is_lossless(a: Seq<u8>, b: Seq<u8>, from: int, to: int)
    requires
        0 <= from <= to,
        to <= a.len(),
        to <= b.len(),
        a.subrange(from, to) == b.subrange(from, to),
    ensures
        same_bytes(a, b, from, to),
{
    assert forall|i: int| from <= i < to implies a[i] == b[i] by {
        assert(a.subrange(from, to)[i - from] == a[i]);
        assert(b.subrange(from, to)[i - from] == b[i]);
    }
}

} // verus!
