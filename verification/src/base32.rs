//! RFC 4648 base32 encoding without padding.
use vstd::prelude::*;
use crate::primitives;

verus! {

/// The base32 alphabet as ASCII codes: `A`..`Z` then `2`..`7`.
pub open spec fn alphabet_char(v: u8) -> u8 {
    if v < 26 { (65 + v) as u8 } else { (50 + (v - 26)) as u8 }
}

/// Number of characters in the unpadded encoding of `n` bytes.
pub open spec fn encoded_len(n: nat) -> nat {
    (8 * n + 4) / 5
}

/// Byte `k` of the input, or zero past its end.
pub open spec fn byte_or_zero(data: Seq<u8>, k: int) -> u8 {
    if 0 <= k < data.len() { data[k] } else { 0 }
}

/// The 5-bit group `i` of the big-endian bit string of `data`, padded with
/// zero bits at the end.
pub open spec fn group(data: Seq<u8>, i: int) -> u8 {
    let b = (5 * i) / 8;
    let off = ((5 * i) % 8) as u16;
    let w: u16 = ((byte_or_zero(data, b) as u16) << 8u16) | (byte_or_zero(data, b + 1) as u16);
    ((w >> ((11u16 - off) as u16)) & 0x1fu16) as u8
}

/// The base32 text of `data` as ASCII codes.
pub open spec fn spec_encode_base32(data: Seq<u8>) -> Seq<u8> {
    Seq::new(encoded_len(data.len()), |i: int| alphabet_char(group(data, i)))
}

/// The unpadded length, computed without forming `8 * n`.
proof fn lemma_encoded_len(n: nat)
    ensures
        encoded_len(n) == n + 3 * (n / 5) + (3 * (n % 5) + 4) / 5,
{
    assert((8 * n + 4) / 5 == n + 3 * (n / 5) + (3 * (n % 5) + 4) / 5) by (nonlinear_arith);
}

/// Where the 5-bit group `i` starts, computed without forming `5 * i`.
proof fn lemma_group_position(i: int)
    requires
        0 <= i,
    ensures
        (5 * i) / 8 == 5 * (i / 8) + (5 * (i % 8)) / 8,
        (5 * i) % 8 == (5 * (i % 8)) % 8,
{
    assert((5 * i) / 8 == 5 * (i / 8) + (5 * (i % 8)) / 8) by (nonlinear_arith)
        requires 0 <= i;
    assert((5 * i) % 8 == (5 * (i % 8)) % 8) by (nonlinear_arith)
        requires 0 <= i;
}

/// Encodes `data` into base32 ASCII codes.
pub fn encode_base32_bytes(data: &[u8]) -> (out: Vec<u8>)
    requires
        encoded_len(data@.len()) <= usize::MAX,
    ensures
        out@ == spec_encode_base32(data@),
{
    let n = data.len();
    proof { lemma_encoded_len(n as nat); }
    let total: usize = n + 3 * (n / 5) + (3 * (n % 5) + 4) / 5;
    let mut out: Vec<u8> = Vec::new();
    let mut i: usize = 0;
    while i < total
        invariant
            n == data@.len(),
            total == encoded_len(n as nat),
            i <= total,
            out@ =~= spec_encode_base32(data@).take(i as int),
        decreases total - i,
    {
        proof { lemma_group_position(i as int); }
        let r = i % 8;
        let b = 5 * (i / 8) + (5 * r) / 8;
        let off = ((5 * r) % 8) as u16;
        assert(b == (5 * i) / 8);
        let hi: u8 = if b < n { data[b] } else { 0 };
        let lo: u8 = if b < n && b + 1 < n { data[b + 1] } else { 0 };
        let w: u16 = ((hi as u16) << 8u16) | (lo as u16);
        let v: u8 = ((w >> (11u16 - off)) & 0x1fu16) as u8;
        assert(v == group(data@, i as int));
        assert(v < 32) by (bit_vector)
            requires
                v == ((w >> ((11u16 - off) as u16)) & 0x1fu16) as u8,
                off < 8,
        ;
        let c: u8 = if v < 26 { 65 + v } else { 50 + (v - 26) };
        out.push(c);
        i = i + 1;
    }
    out
}

/// Every code of the encoding is an ASCII letter or digit.
pub proof fn lemma_encoding_is_ascii(data: Seq<u8>)
    ensures
        forall|i: int| 0 <= i < spec_encode_base32(data).len() ==> {
            let c = #[trigger] spec_encode_base32(data)[i];
            (65 <= c <= 90) || (50 <= c <= 55)
        },
{
    assert forall|i: int| 0 <= i < spec_encode_base32(data).len() implies {
        let c = #[trigger] spec_encode_base32(data)[i];
        (65 <= c <= 90) || (50 <= c <= 55)
    } by {
        let g = group(data, i);
        let w: u16 = ((byte_or_zero(data, (5 * i) / 8) as u16) << 8u16) | (byte_or_zero(data, (5 * i) / 8 + 1) as u16);
        let off = ((5 * i) % 8) as u16;
        assert(g < 32) by (bit_vector)
            requires
                g == ((w >> ((11u16 - off) as u16)) & 0x1fu16) as u8,
        ;
    }
}

/// RFC 4648 base32 encoding without padding.
pub fn encode_base32(data: &[u8]) -> (s: String)
    requires
        encoded_len(data@.len()) <= usize::MAX,
    ensures
        s@ == primitives::ascii_chars(spec_encode_base32(data@)),
{
    let b = encode_base32_bytes(data);
    proof { lemma_encoding_is_ascii(data@); }
    primitives::ascii_string(b)
}


} // verus!
