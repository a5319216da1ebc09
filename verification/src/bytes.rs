//! Fixed-width integer encodings and byte-sequence helpers shared by the
//! wire formats of the library.
use vstd::prelude::*;

verus! {

/// Big-endian encoding of a 16-bit value.
pub open spec fn be16(x: u16) -> Seq<u8> {
    seq![(x >> 8u16) as u8, (x & 0xffu16) as u8]
}

/// Big-endian encoding of a 32-bit value.
pub open spec fn be32(x: u32) -> Seq<u8> {
    seq![
        (x >> 24u32) as u8,
        ((x >> 16u32) & 0xffu32) as u8,
        ((x >> 8u32) & 0xffu32) as u8,
        (x & 0xffu32) as u8,
    ]
}

/// Little-endian encoding of a 16-bit value.
pub open spec fn le16(x: u16) -> Seq<u8> {
    seq![(x & 0xffu16) as u8, (x >> 8u16) as u8]
}

/// Little-endian encoding of a 32-bit value.
pub open spec fn le32(x: u32) -> Seq<u8> {
    seq![
        (x & 0xffu32) as u8,
        ((x >> 8u32) & 0xffu32) as u8,
        ((x >> 16u32) & 0xffu32) as u8,
        (x >> 24u32) as u8,
    ]
}

/// Little-endian encoding of a 64-bit value.
pub open spec fn le64(x: u64) -> Seq<u8> {
    seq![
        (x & 0xffu64) as u8,
        ((x >> 8u64) & 0xffu64) as u8,
        ((x >> 16u64) & 0xffu64) as u8,
        ((x >> 24u64) & 0xffu64) as u8,
        ((x >> 32u64) & 0xffu64) as u8,
        ((x >> 40u64) & 0xffu64) as u8,
        ((x >> 48u64) & 0xffu64) as u8,
        (x >> 56u64) as u8,
    ]
}

/// The 16-bit value whose big-endian bytes are `a, b`.
pub open spec fn from_be16(a: u8, b: u8) -> u16 {
    ((a as u16) << 8u16) | (b as u16)
}

/// The 32-bit value whose big-endian bytes are `a, b, c, d`.
pub open spec fn from_be32(a: u8, b: u8, c: u8, d: u8) -> u32 {
    ((a as u32) << 24u32) | ((b as u32) << 16u32) | ((c as u32) << 8u32) | (d as u32)
}

/// The 32-bit value whose little-endian bytes are `a, b, c, d`.
pub open spec fn from_le32(a: u8, b: u8, c: u8, d: u8) -> u32 {
    from_be32(d, c, b, a)
}

/// The 32-bit little-endian value stored at `at` in `s`.
pub open spec fn read_le32(s: Seq<u8>, at: int) -> u32 {
    from_le32(s[at], s[at + 1], s[at + 2], s[at + 3])
}

/// The 16-bit big-endian value stored at `at` in `s`.
pub open spec fn read_be16(s: Seq<u8>, at: int) -> u16 {
    from_be16(s[at], s[at + 1])
}

/// The 32-bit big-endian value stored at `at` in `s`.
pub open spec fn read_be32(s: Seq<u8>, at: int) -> u32 {
    from_be32(s[at], s[at + 1], s[at + 2], s[at + 3])
}

/// Bytewise exclusive or of `a` with the first `a.len()` bytes of `k`.
pub open spec fn xor_bytes(a: Seq<u8>, k: Seq<u8>) -> Seq<u8> {
    Seq::new(a.len(), |i: int| a[i] ^ k[i])
}

/// A sequence of `n` zero bytes.
pub open spec fn zeros(n: nat) -> Seq<u8> {
    Seq::new(n, |i: int| 0u8)
}

pub proof fn lemma_be16_roundtrip(x: u16)
    ensures
        from_be16((x >> 8u16) as u8, (x & 0xffu16) as u8) == x,
{
    assert(((((x >> 8u16) as u8) as u16) << 8u16) | (((x & 0xffu16) as u8) as u16) == x)
        by (bit_vector);
}

pub proof fn lemma_be32_roundtrip(x: u32)
    ensures
        from_be32(
            (x >> 24u32) as u8,
            ((x >> 16u32) & 0xffu32) as u8,
            ((x >> 8u32) & 0xffu32) as u8,
            (x & 0xffu32) as u8,
        ) == x,
{
    assert(((((x >> 24u32) as u8) as u32) << 24u32) | (((((x >> 16u32) & 0xffu32) as u8) as u32)
        << 16u32) | (((((x >> 8u32) & 0xffu32) as u8) as u32) << 8u32) | (((x & 0xffu32) as u8)
        as u32) == x) by (bit_vector);
}

pub proof fn lemma_xor_twice(x: u8, k: u8)
    ensures
        (x ^ k) ^ k == x,
{
    assert((x ^ k) ^ k == x) by (bit_vector);
}

/// Applying the same key stream twice gives back the data.
pub proof fn lemma_xor_bytes_twice(a: Seq<u8>, k: Seq<u8>)
    ensures
        xor_bytes(xor_bytes(a, k), k) == a,
{
    assert forall|i: int| 0 <= i < a.len() implies #[trigger] xor_bytes(xor_bytes(a, k), k)[i]
        == a[i] by {
        lemma_xor_twice(a[i], k[i]);
    }
    assert(xor_bytes(xor_bytes(a, k), k) =~= a);
}

/// Appends the big-endian bytes of `x`.
pub fn push_be16(v: &mut Vec<u8>, x: u16)
    ensures
        final(v)@ == old(v)@ + be16(x),
{
    v.push((x >> 8u16) as u8);
    v.push((x & 0xffu16) as u8);
    assert(final(v)@ =~= old(v)@ + be16(x));
}

/// Appends the big-endian bytes of `x`.
pub fn push_be32(v: &mut Vec<u8>, x: u32)
    ensures
        final(v)@ == old(v)@ + be32(x),
{
    v.push((x >> 24u32) as u8);
    v.push(((x >> 16u32) & 0xffu32) as u8);
    v.push(((x >> 8u32) & 0xffu32) as u8);
    v.push((x & 0xffu32) as u8);
    assert(final(v)@ =~= old(v)@ + be32(x));
}

/// Appends the little-endian bytes of `x`.
pub fn push_le16(v: &mut Vec<u8>, x: u16)
    ensures
        final(v)@ == old(v)@ + le16(x),
{
    v.push((x & 0xffu16) as u8);
    v.push((x >> 8u16) as u8);
    assert(v@ =~= old(v)@ + le16(x));
}

pub fn push_le32(v: &mut Vec<u8>, x: u32)
    ensures
        final(v)@ == old(v)@ + le32(x),
{
    v.push((x & 0xffu32) as u8);
    v.push(((x >> 8u32) & 0xffu32) as u8);
    v.push(((x >> 16u32) & 0xffu32) as u8);
    v.push((x >> 24u32) as u8);
    assert(final(v)@ =~= old(v)@ + le32(x));
}

/// Appends the little-endian bytes of `x`.
pub fn push_le64(v: &mut Vec<u8>, x: u64)
    ensures
        final(v)@ == old(v)@ + le64(x),
{
    v.push((x & 0xffu64) as u8);
    v.push(((x >> 8u64) & 0xffu64) as u8);
    v.push(((x >> 16u64) & 0xffu64) as u8);
    v.push(((x >> 24u64) & 0xffu64) as u8);
    v.push(((x >> 32u64) & 0xffu64) as u8);
    v.push(((x >> 40u64) & 0xffu64) as u8);
    v.push(((x >> 48u64) & 0xffu64) as u8);
    v.push((x >> 56u64) as u8);
    assert(final(v)@ =~= old(v)@ + le64(x));
}

/// Appends all of `s`.
pub fn push_all(v: &mut Vec<u8>, s: &[u8])
    ensures
        final(v)@ == old(v)@ + s@,
{
    let ghost start = v@;
    let mut i: usize = 0;
    while i < s.len()
        invariant
            i <= s@.len(),
            v@ == start + s@.take(i as int),
        decreases s@.len() - i,
    {
        v.push(s[i]);
        i = i + 1;
        assert(v@ =~= start + s@.take(i as int));
    }
    assert(s@.take(i as int) =~= s@);
}

/// `head` followed by zeros, `n` bytes in all.
pub fn padded32(head: &[u8; 32], n: usize) -> (out: Vec<u8>)
    requires
        n >= 32,
    ensures
        out@ == head@ + zeros((n - 32) as nat),
{
    let mut out: Vec<u8> = Vec::new();
    push_all(&mut out, head);
    let mut i: usize = 32;
    while i < n
        invariant
            32 <= i <= n,
            out@ == head@ + zeros((i - 32) as nat),
        decreases n - i,
    {
        out.push(0u8);
        i = i + 1;
        assert(out@ =~= head@ + zeros((i - 32) as nat));
    }
    out
}

/// The bytes `s[start..end]` as a new vector.
pub fn copy_range(s: &[u8], start: usize, end: usize) -> (out: Vec<u8>)
    requires
        start <= end <= s@.len(),
    ensures
        out@ == s@.subrange(start as int, end as int),
{
    let mut out: Vec<u8> = Vec::with_capacity(end - start);
    let mut i: usize = start;
    while i < end
        invariant
            start <= i <= end <= s@.len(),
            out@ == s@.subrange(start as int, i as int),
        decreases end - i,
    {
        out.push(s[i]);
        i = i + 1;
        assert(out@ =~= s@.subrange(start as int, i as int));
    }
    out
}

/// Whether `a` and `b` hold the same bytes, examining every byte of equal
/// length inputs whatever their contents.
pub fn constant_time_eq(a: &[u8], b: &[u8]) -> (r: bool)
    ensures
        r == (a@ == b@),
{
    if a.len() != b.len() {
        return false;
    }
    let mut diff: u8 = 0;
    let mut i: usize = 0;
    assert(a@.take(0) =~= b@.take(0));
    while i < a.len()
        invariant
            a@.len() == b@.len(),
            i <= a@.len(),
            (diff == 0) == (a@.take(i as int) == b@.take(i as int)),
        decreases a@.len() - i,
    {
        let x = a[i];
        let y = b[i];
        let nd = diff | (x ^ y);
        assert((nd == 0) == (diff == 0 && x == y)) by (bit_vector)
            requires
                nd == diff | (x ^ y),
        ;
        proof {
            if diff == 0 && x == y {
                assert(a@.take(i + 1) =~= a@.take(i as int).push(x));
                assert(b@.take(i + 1) =~= b@.take(i as int).push(y));
            } else if a@.take(i + 1) == b@.take(i + 1) {
                assert(a@.take(i + 1)[i as int] == x);
                assert(b@.take(i + 1)[i as int] == y);
                assert(a@.take(i as int) =~= a@.take(i + 1).take(i as int));
                assert(b@.take(i as int) =~= b@.take(i + 1).take(i as int));
            }
        }
        diff = nd;
        i = i + 1;
    }
    assert(a@.take(i as int) =~= a@);
    assert(b@.take(i as int) =~= b@);
    diff == 0
}


/// The little-endian 32-bit value at `at`.
pub fn load_le32(s: &[u8], at: usize) -> (r: u32)
    requires
        at + 4 <= s@.len(),
    ensures
        r == read_le32(s@, at as int),
{
    let _n = s.len();
    ((s[at + 3] as u32) << 24u32) | ((s[at + 2] as u32) << 16u32) | ((s[at + 1] as u32) << 8u32) | (s[at] as u32)
}

/// Reading back a little-endian encoding gives the value.
pub proof fn lemma_le32_roundtrip(x: u32)
    ensures
        read_le32(le32(x), 0) == x,
{
    lemma_be32_roundtrip(x);
}

/// The 64 bytes of `s` starting at `at`.
pub fn take64(s: &[u8], at: usize) -> (a: [u8; 64])
    requires
        at + 64 <= s@.len(),
    ensures
        a@ == s@.subrange(at as int, at + 64),
{
    let _n = s.len();
    let mut a = [0u8; 64];
    let mut i: usize = 0;
    while i < 64
        invariant
            i <= 64,
            at + 64 <= s@.len(),
            s@.len() <= usize::MAX,
            forall|j: int| 0 <= j < i ==> a@[j] == s@[at + j],
        decreases 64 - i,
    {
        a[i] = s[at + i];
        i = i + 1;
    }
    assert(a@ =~= s@.subrange(at as int, at + 64));
    a
}

/// The 32 bytes of `s` starting at `at`.
pub fn take32(s: &[u8], at: usize) -> (a: [u8; 32])
    requires
        at + 32 <= s@.len(),
    ensures
        a@ == s@.subrange(at as int, at + 32),
{
    let _n = s.len();
    let mut a = [0u8; 32];
    let mut i: usize = 0;
    while i < 32
        invariant
            i <= 32,
            at + 32 <= s@.len(),
            s@.len() <= usize::MAX,
            forall|j: int| 0 <= j < i ==> a@[j] == s@[at + j],
        decreases 32 - i,
    {
        a[i] = s[at + i];
        i = i + 1;
    }
    assert(a@ =~= s@.subrange(at as int, at + 32));
    a
}

/// The 12 bytes of `s` starting at `at`.
pub fn take12(s: &[u8], at: usize) -> (a: [u8; 12])
    requires
        at + 12 <= s@.len(),
    ensures
        a@ == s@.subrange(at as int, at + 12),
{
    let _n = s.len();
    let mut a = [0u8; 12];
    let mut i: usize = 0;
    while i < 12
        invariant
            i <= 12,
            at + 12 <= s@.len(),
            s@.len() <= usize::MAX,
            forall|j: int| 0 <= j < i ==> a@[j] == s@[at + j],
        decreases 12 - i,
    {
        a[i] = s[at + i];
        i = i + 1;
    }
    assert(a@ =~= s@.subrange(at as int, at + 12));
    a
}

} // verus!
