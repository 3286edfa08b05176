//! Little-endian byte encodings of fixed width.

use vstd::prelude::*;

verus! {

/// 256^n.
pub open spec fn pow256(n: nat) -> nat
    decreases n,
{
    if n == 0 {
        1
    } else {
        256 * pow256((n - 1) as nat)
    }
}

/// The low `n` bytes of `v`, least significant first.
pub open spec fn le_bytes(v: nat, n: nat) -> Seq<u8>
    decreases n,
{
    if n == 0 {
        Seq::empty()
    } else {
        seq![(v % 256) as u8] + le_bytes(v / 256, (n - 1) as nat)
    }
}

/// The number that bytes stand for, least significant first.
pub open spec fn le_value(s: Seq<u8>) -> nat
    decreases s.len(),
{
    if s.len() == 0 {
        0
    } else {
        (s[0] as nat) + 256 * le_value(s.skip(1))
    }
}

/// `n` bytes of zero.
pub open spec fn zeros(n: nat) -> Seq<u8> {
    Seq::new(n, |i: int| 0u8)
}

/// An encoding in `n` bytes has `n` bytes.
pub proof fn lemma_le_bytes_len(v: nat, n: nat)
    ensures
        le_bytes(v, n).len() == n,
    decreases n,
{
    if n > 0 {
        lemma_le_bytes_len(v / 256, (n - 1) as nat);
    }
}

/// The powers of 256 at the widths this crate encodes.
pub proof fn lemma_pow256_values()
    ensures
        pow256(0) == 1,
        pow256(1) == 0x100,
        pow256(8) == 0x1_0000_0000_0000_0000,
        pow256(16) == 0x1_0000_0000_0000_0000_0000_0000_0000_0000nat,
{
    reveal_with_fuel(pow256, 17);
}

/// Bytes stand for a number below 256 to the power of their count.
pub proof fn lemma_le_value_bound(s: Seq<u8>)
    ensures
        le_value(s) < pow256(s.len()),
    decreases s.len(),
{
    if s.len() > 0 {
        lemma_le_value_bound(s.skip(1));
    }
}

/// Encoding a number in enough bytes and reading them back gives the number.
pub proof fn lemma_le_value_of_bytes(v: nat, n: nat)
    requires
        v < pow256(n),
    ensures
        le_value(le_bytes(v, n)) == v,
    decreases n,
{
    if n > 0 {
        let rest = le_bytes(v / 256, (n - 1) as nat);
        let all = le_bytes(v, n);
        lemma_le_bytes_len(v / 256, (n - 1) as nat);
        assert(all.skip(1) =~= rest);
        lemma_le_value_of_bytes(v / 256, (n - 1) as nat);
    }
}

/// Reading bytes as a number and encoding it in as many bytes gives the bytes.
pub proof fn lemma_le_bytes_of_value(s: Seq<u8>)
    ensures
        le_bytes(le_value(s), s.len()) == s,
    decreases s.len(),
{
    if s.len() > 0 {
        lemma_le_bytes_of_value(s.skip(1));
        let v = le_value(s);
        assert(v % 256 == s[0] as nat);
        assert(v / 256 == le_value(s.skip(1)));
        assert(le_bytes(v, s.len()) =~= s);
    } else {
        assert(le_bytes(le_value(s), 0) =~= s);
    }
}

/// Appends the low `n` bytes of `value`, least significant first.
pub fn put_le(buf: &mut Vec<u8>, value: u128, n: usize)
    requires
        n <= 16,
    ensures
        final(buf)@ == old(buf)@ + le_bytes(value as nat, n as nat),
{
    let mut v: u128 = value;
    let mut i: usize = 0;
    while i < n
        invariant
            i <= n,
            old(buf)@ + le_bytes(value as nat, n as nat) == buf@ + le_bytes(v as nat, (n - i) as nat),
        decreases n - i,
    {
        let ghost before = buf@;
        buf.push((v % 256) as u8);
        proof {
            let tail = le_bytes((v / 256) as nat, (n - i - 1) as nat);
            assert(le_bytes(v as nat, (n - i) as nat) == seq![(v % 256) as u8] + tail);
            assert(before + (seq![(v % 256) as u8] + tail) =~= before.push((v % 256) as u8) + tail);
        }
        v = v / 256;
        i = i + 1;
    }
    assert(buf@ + le_bytes(v as nat, 0) =~= buf@);
}

/// Reads `n` bytes at `offset` as a number, least significant first.
pub fn get_le(src: &[u8], offset: usize, n: usize) -> (r: u128)
    requires
        n <= 16,
        offset + n <= src.len(),
    ensures
        r == le_value(src@.subrange(offset as int, offset + n)),
{
    let mut acc: u128 = 0;
    let mut i: usize = n;
    let ghost s = src@.subrange(offset as int, offset + n);
    while i > 0
        invariant
            i <= n <= 16,
            offset + n <= src.len(),
            s == src@.subrange(offset as int, offset + n),
            acc == le_value(s.skip(i as int)),
        decreases i,
    {
        i = i - 1;
        proof {
            let part = s.skip(i as int);
            assert(part.skip(1) =~= s.skip(i + 1));
            assert(part[0] == src@[offset + i]);
            lemma_le_value_bound(part.skip(1));
            lemma_pow256_monotone((n - i - 1) as nat, 15);
            lemma_pow256_big();
        }
        acc = acc * 256 + (src[offset + i] as u128);
    }
    assert(s.skip(0) =~= s);
    acc
}

proof fn lemma_pow256_monotone(i: nat, j: nat)
    requires
        i <= j,
    ensures
        pow256(i) <= pow256(j),
    decreases j,
{
    if i < j {
        lemma_pow256_monotone(i, (j - 1) as nat);
    }
}

proof fn lemma_pow256_big()
    ensures
        pow256(15) == 0x1_0000_0000_0000_0000_0000_0000_0000_00,
{
    reveal_with_fuel(pow256, 16);
}

/// Overwrites the start of `dst` with `src` and leaves the rest as it was.
pub fn write_front(dst: &mut [u8], src: &Vec<u8>)
    requires
        src.len() <= old(dst).len(),
    ensures
        final(dst)@ == src@ + old(dst)@.subrange(src.len() as int, old(dst).len() as int),
{
    let n = src.len();
    let mut i: usize = 0;
    while i < n
        invariant
            i <= n,
            n == src.len(),
            dst.len() == old(dst).len(),
            n <= dst.len(),
            forall|j: int| 0 <= j < i ==> dst@[j] == src@[j],
            forall|j: int| i <= j < dst.len() ==> dst@[j] == old(dst)@[j],
        decreases n - i,
    {
        dst[i] = src[i];
        i = i + 1;
    }
    assert(dst@ =~= src@ + old(dst)@.subrange(src.len() as int, old(dst).len() as int));
}

/// Appends the bytes of an array.
pub fn put_array<const N: usize>(buf: &mut Vec<u8>, bytes: &[u8; N])
    ensures
        final(buf)@ == old(buf)@ + bytes@,
{
    let mut i: usize = 0;
    while i < N
        invariant
            i <= N,
            bytes@.len() == N,
            buf@ == old(buf)@ + bytes@.subrange(0, i as int),
        decreases N - i,
    {
        buf.push(bytes[i]);
        assert(buf@ =~= old(buf)@ + bytes@.subrange(0, i + 1));
        i = i + 1;
    }
    assert(bytes@.subrange(0, N as int) =~= bytes@);
}

/// Reads an array of bytes at `offset`.
pub fn get_array<const N: usize>(src: &[u8], offset: usize) -> (r: [u8; N])
    requires
        offset + N <= src.len(),
    ensures
        r@ == src@.subrange(offset as int, offset + N),
{
    let mut out: [u8; N] = [0u8; N];
    let mut i: usize = 0;
    while i < N
        invariant
            i <= N,
            offset + N <= src.len(),
            out@.len() == N,
            forall|j: int| 0 <= j < i ==> out@[j] == src@[offset + j],
        decreases N - i,
    {
        out[i] = src[offset + i];
        i = i + 1;
    }
    assert(out@ =~= src@.subrange(offset as int, offset + N));
    out
}

/// The low `N` bytes of `value`, least significant first.
pub fn to_le<const N: usize>(value: u128) -> (r: [u8; N])
    requires
        N <= 16,
    ensures
        r@ == le_bytes(value as nat, N as nat),
{
    let mut out: [u8; N] = [0u8; N];
    let mut v: u128 = value;
    let mut i: usize = 0;
    while i < N
        invariant
            i <= N,
            out@.len() == N,
            le_bytes(value as nat, N as nat) == out@.subrange(0, i as int) + le_bytes(
                v as nat,
                (N - i) as nat,
            ),
        decreases N - i,
    {
        let ghost before = out@;
        out[i] = (v % 256) as u8;
        proof {
            let tail = le_bytes((v / 256) as nat, (N - i - 1) as nat);
            assert(le_bytes(v as nat, (N - i) as nat) == seq![(v % 256) as u8] + tail);
            assert(before.subrange(0, i as int) + (seq![(v % 256) as u8] + tail) =~= out@.subrange(
                0,
                i + 1,
            ) + tail);
        }
        v = v / 256;
        i = i + 1;
    }
    assert(out@.subrange(0, N as int) + le_bytes(v as nat, 0) =~= out@);
    out
}

/// The number that the bytes of an array stand for, least significant first.
pub fn from_le<const N: usize>(bytes: &[u8; N]) -> (r: u128)
    requires
        N <= 16,
    ensures
        r == le_value(bytes@),
{
    proof {
        assert(bytes@.subrange(0, N as int) =~= bytes@);
    }
    get_le(bytes.as_slice(), 0, N)
}

/// The 64-bit pattern of a signed number: itself, or itself plus 2^64 where
/// it is negative.
pub open spec fn twos(x: i64) -> nat {
    if x >= 0 {
        x as nat
    } else {
        (x + 0x1_0000_0000_0000_0000) as nat
    }
}

/// The signed number with a given 64-bit pattern.
pub open spec fn from_twos(v: nat) -> i64 {
    if v < 0x8000_0000_0000_0000 {
        v as i64
    } else {
        (v - 0x1_0000_0000_0000_0000) as i64
    }
}

/// A signed number is the one with its 64-bit pattern.
pub proof fn lemma_twos_round_trip(x: i64)
    ensures
        from_twos(twos(x)) == x,
        twos(x) < 0x1_0000_0000_0000_0000,
{
}

/// The 64-bit pattern of a signed number.
pub fn i64_bits(x: i64) -> (r: u64)
    ensures
        r == twos(x),
{
    if x >= 0 {
        x as u64
    } else {
        ((x + 0x7fff_ffff_ffff_ffff + 1) as u64) + 0x8000_0000_0000_0000
    }
}

/// The signed number with a given 64-bit pattern.
pub fn i64_from_bits(v: u64) -> (r: i64)
    ensures
        r == from_twos(v as nat),
{
    if v < 0x8000_0000_0000_0000 {
        v as i64
    } else {
        ((v - 0x8000_0000_0000_0000) as i64) - 0x7fff_ffff_ffff_ffff - 1
    }
}

} // verus!
