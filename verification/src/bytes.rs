//! Little-endian encoding of integers, as the host interface passes them.

use vstd::prelude::*;

verus! {

/// The eight bytes of `x`, least significant first (`u64::to_le_bytes`).
pub open spec fn le_bytes(x: u64) -> Seq<u8> {
    seq![(x & 0xff) as u8, ((x >> 8u64) & 0xff) as u8, ((x >> 16u64) & 0xff) as u8,
         ((x >> 24u64) & 0xff) as u8, ((x >> 32u64) & 0xff) as u8, ((x >> 40u64) & 0xff) as u8,
         ((x >> 48u64) & 0xff) as u8, ((x >> 56u64) & 0xff) as u8]
}

/// The number whose little-endian bytes are `b[0..8]` (`u64::from_le_bytes`).
pub open spec fn from_le(b: Seq<u8>) -> u64
    recommends
        b.len() == 8,
{
    (b[0] as u64) | ((b[1] as u64) << 8) | ((b[2] as u64) << 16) | ((b[3] as u64) << 24)
        | ((b[4] as u64) << 32) | ((b[5] as u64) << 40) | ((b[6] as u64) << 48)
        | ((b[7] as u64) << 56)
}

/// Decoding the encoding of `x` gives back `x`.
pub proof fn lemma_from_le_of_le_bytes(x: u64)
    ensures
        from_le(le_bytes(x)) == x,
{
    let b = le_bytes(x);
    let (b0, b1, b2, b3, b4, b5, b6, b7) = (b[0], b[1], b[2], b[3], b[4], b[5], b[6], b[7]);
    assert(
        (b0 as u64) | ((b1 as u64) << 8) | ((b2 as u64) << 16) | ((b3 as u64) << 24)
        | ((b4 as u64) << 32) | ((b5 as u64) << 40) | ((b6 as u64) << 48) | ((b7 as u64) << 56) == x
    ) by (bit_vector)
        requires
            b0 == (x & 0xff) as u8,
            b1 == ((x >> 8u64) & 0xff) as u8,
            b2 == ((x >> 16u64) & 0xff) as u8,
            b3 == ((x >> 24u64) & 0xff) as u8,
            b4 == ((x >> 32u64) & 0xff) as u8,
            b5 == ((x >> 40u64) & 0xff) as u8,
            b6 == ((x >> 48u64) & 0xff) as u8,
            b7 == ((x >> 56u64) & 0xff) as u8,
    ;
}

/// Encoding the decoding of eight bytes gives back the bytes.
pub proof fn lemma_le_bytes_of_from_le(b: Seq<u8>)
    requires
        b.len() == 8,
    ensures
        le_bytes(from_le(b)) == b,
{
    let x = from_le(b);
    let (b0, b1, b2, b3, b4, b5, b6, b7) = (b[0], b[1], b[2], b[3], b[4], b[5], b[6], b[7]);
    assert(
        (x & 0xff) as u8 == b0 && ((x >> 8u64) & 0xff) as u8 == b1
        && ((x >> 16u64) & 0xff) as u8 == b2 && ((x >> 24u64) & 0xff) as u8 == b3
        && ((x >> 32u64) & 0xff) as u8 == b4 && ((x >> 40u64) & 0xff) as u8 == b5
        && ((x >> 48u64) & 0xff) as u8 == b6 && ((x >> 56u64) & 0xff) as u8 == b7
    ) by (bit_vector)
        requires
            x == (b0 as u64) | ((b1 as u64) << 8) | ((b2 as u64) << 16) | ((b3 as u64) << 24)
                | ((b4 as u64) << 32) | ((b5 as u64) << 40) | ((b6 as u64) << 48)
                | ((b7 as u64) << 56),
    ;
    assert(le_bytes(x) =~= b);
}

/// `u64::to_le_bytes`, as a vector.
pub fn u64_to_le_vec(x: u64) -> (v: Vec<u8>)
    ensures
        v@ == le_bytes(x),
{
    let mut v: Vec<u8> = Vec::new();
    v.push(#[verifier::truncate] ((x & 0xff) as u8));
    v.push(#[verifier::truncate] (((x >> 8u64) & 0xff) as u8));
    v.push(#[verifier::truncate] (((x >> 16u64) & 0xff) as u8));
    v.push(#[verifier::truncate] (((x >> 24u64) & 0xff) as u8));
    v.push(#[verifier::truncate] (((x >> 32u64) & 0xff) as u8));
    v.push(#[verifier::truncate] (((x >> 40u64) & 0xff) as u8));
    v.push(#[verifier::truncate] (((x >> 48u64) & 0xff) as u8));
    v.push(#[verifier::truncate] (((x >> 56u64) & 0xff) as u8));
    assert(v@ =~= le_bytes(x));
    v
}

/// `u64::from_le_bytes` on the first eight bytes of `b`.
pub fn u64_from_le_slice(b: &[u8]) -> (x: u64)
    requires
        b@.len() == 8,
    ensures
        x == from_le(b@),
{
    (b[0] as u64) | ((b[1] as u64) << 8) | ((b[2] as u64) << 16) | ((b[3] as u64) << 24)
        | ((b[4] as u64) << 32) | ((b[5] as u64) << 40) | ((b[6] as u64) << 48)
        | ((b[7] as u64) << 56)
}

/// Appends all of `bytes` to `v`.
pub fn extend_bytes(v: &mut Vec<u8>, bytes: &[u8])
    ensures
        final(v)@ == old(v)@ + bytes@,
{
    let n = bytes.len();
    let mut i: usize = 0;
    while i < n
        invariant
            n == bytes@.len(),
            i <= n,
            v@ == old(v)@ + bytes@.subrange(0, i as int),
        decreases n - i,
    {
        v.push(bytes[i]);
        assert(bytes@.subrange(0, i + 1) =~= bytes@.subrange(0, i as int).push(bytes@[i as int]));
        i = i + 1;
    }
    assert(bytes@.subrange(0, n as int) =~= bytes@);
}

} // verus!
