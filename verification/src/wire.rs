//! Little-endian integer encoding and byte-sequence helpers.
use vstd::prelude::*;

verus! {

pub open spec fn le2(x: u16) -> Seq<u8> {
    seq![x as u8, (x >> 8) as u8]
}

pub open spec fn le4(x: u32) -> Seq<u8> {
    seq![x as u8, (x >> 8) as u8, (x >> 16) as u8, (x >> 24) as u8]
}

pub open spec fn le8(x: u64) -> Seq<u8> {
    seq![
        x as u8,
        (x >> 8) as u8,
        (x >> 16) as u8,
        (x >> 24) as u8,
        (x >> 32) as u8,
        (x >> 40) as u8,
        (x >> 48) as u8,
        (x >> 56) as u8,
    ]
}

/// The `u16` whose little-endian bytes start at `b[i]`.
pub open spec fn from_le2(b: Seq<u8>, i: int) -> u16 {
    (b[i] as u16) | ((b[i + 1] as u16) << 8u16)
}

/// The `u32` whose little-endian bytes start at `b[i]`.
pub open spec fn from_le4(b: Seq<u8>, i: int) -> u32 {
    (b[i] as u32) | ((b[i + 1] as u32) << 8u32) | ((b[i + 2] as u32) << 16u32) | ((b[i + 3] as u32)
        << 24u32)
}

/// The `u64` whose little-endian bytes start at `b[i]`.
pub open spec fn from_le8(b: Seq<u8>, i: int) -> u64 {
    (b[i] as u64) | ((b[i + 1] as u64) << 8u64) | ((b[i + 2] as u64) << 16u64) | ((b[i + 3] as u64)
        << 24u64) | ((b[i + 4] as u64) << 32u64) | ((b[i + 5] as u64) << 40u64) | ((b[i + 6] as u64)
        << 48u64) | ((b[i + 7] as u64) << 56u64)
}

proof fn lemma_u16_bytes(x: u16)
    by (bit_vector)
    ensures
        ((x as u8) as u16) | ((((x >> 8) as u8) as u16) << 8u16) == x,
{
}

proof fn lemma_u32_bytes(x: u32)
    by (bit_vector)
    ensures
        ((x as u8) as u32) | ((((x >> 8) as u8) as u32) << 8u32) | ((((x >> 16) as u8) as u32)
            << 16u32) | ((((x >> 24) as u8) as u32) << 24u32) == x,
{
}

proof fn lemma_u64_bytes(x: u64)
    by (bit_vector)
    ensures
        ((x as u8) as u64) | ((((x >> 8) as u8) as u64) << 8u64) | ((((x >> 16) as u8) as u64)
            << 16u64) | ((((x >> 24) as u8) as u64) << 24u64) | ((((x >> 32) as u8) as u64)
            << 32u64) | ((((x >> 40) as u8) as u64) << 40u64) | ((((x >> 48) as u8) as u64)
            << 48u64) | ((((x >> 56) as u8) as u64) << 56u64) == x,
{
}

/// Decoding the encoding of `x`, wherever it stands, gives `x` back.
pub proof fn lemma_le2_roundtrip(x: u16, pre: Seq<u8>, post: Seq<u8>)
    ensures
        from_le2(pre + le2(x) + post, pre.len() as int) == x,
{
    let b = pre + le2(x) + post;
    let i = pre.len() as int;
    assert(b[i] == x as u8 && b[i + 1] == (x >> 8) as u8);
    lemma_u16_bytes(x);
}

/// Decoding the encoding of `x`, wherever it stands, gives `x` back.
pub proof fn lemma_le4_roundtrip(x: u32, pre: Seq<u8>, post: Seq<u8>)
    ensures
        from_le4(pre + le4(x) + post, pre.len() as int) == x,
{
    let b = pre + le4(x) + post;
    let i = pre.len() as int;
    assert(b[i] == x as u8 && b[i + 1] == (x >> 8) as u8 && b[i + 2] == (x >> 16) as u8 && b[i
        + 3] == (x >> 24) as u8);
    lemma_u32_bytes(x);
}

/// Decoding the encoding of `x`, wherever it stands, gives `x` back.
pub proof fn lemma_le8_roundtrip(x: u64, pre: Seq<u8>, post: Seq<u8>)
    ensures
        from_le8(pre + le8(x) + post, pre.len() as int) == x,
{
    let b = pre + le8(x) + post;
    let i = pre.len() as int;
    assert(b[i] == x as u8 && b[i + 1] == (x >> 8) as u8 && b[i + 2] == (x >> 16) as u8 && b[i
        + 3] == (x >> 24) as u8 && b[i + 4] == (x >> 32) as u8 && b[i + 5] == (x >> 40) as u8
        && b[i + 6] == (x >> 48) as u8 && b[i + 7] == (x >> 56) as u8);
    lemma_u64_bytes(x);
}

proof fn lemma_bytes_u16(a0: u8, a1: u8)
    by (bit_vector)
    ensures
        ((a0 as u16) | ((a1 as u16) << 8u16)) as u8 == a0,
        (((a0 as u16) | ((a1 as u16) << 8u16)) >> 8u16) as u8 == a1,
{
}

proof fn lemma_bytes_u32(a0: u8, a1: u8, a2: u8, a3: u8)
    by (bit_vector)
    ensures
        ((a0 as u32) | ((a1 as u32) << 8u32) | ((a2 as u32) << 16u32) | ((a3 as u32) << 24u32)) as u8 == a0,
        (((a0 as u32) | ((a1 as u32) << 8u32) | ((a2 as u32) << 16u32) | ((a3 as u32) << 24u32)) >> 8u32) as u8 == a1,
        (((a0 as u32) | ((a1 as u32) << 8u32) | ((a2 as u32) << 16u32) | ((a3 as u32) << 24u32)) >> 16u32) as u8 == a2,
        (((a0 as u32) | ((a1 as u32) << 8u32) | ((a2 as u32) << 16u32) | ((a3 as u32) << 24u32)) >> 24u32) as u8 == a3,
{
}

proof fn lemma_bytes_u64(a0: u8, a1: u8, a2: u8, a3: u8, a4: u8, a5: u8, a6: u8, a7: u8)
    by (bit_vector)
    ensures
        ({
            let x = (a0 as u64) | ((a1 as u64) << 8u64) | ((a2 as u64) << 16u64) | ((a3 as u64) << 24u64)
                | ((a4 as u64) << 32u64) | ((a5 as u64) << 40u64) | ((a6 as u64) << 48u64) | ((a7 as u64) << 56u64);
            &&& x as u8 == a0
            &&& (x >> 8u64) as u8 == a1
            &&& (x >> 16u64) as u8 == a2
            &&& (x >> 24u64) as u8 == a3
            &&& (x >> 32u64) as u8 == a4
            &&& (x >> 40u64) as u8 == a5
            &&& (x >> 48u64) as u8 == a6
            &&& (x >> 56u64) as u8 == a7
        }),
{
}

/// Encoding the value decoded from two bytes gives those bytes back.
pub proof fn lemma_le2_of_bytes(b: Seq<u8>, i: int)
    requires
        0 <= i,
        i + 2 <= b.len(),
    ensures
        le2(from_le2(b, i)) == b.subrange(i, i + 2),
{
    lemma_bytes_u16(b[i], b[i + 1]);
    assert(le2(from_le2(b, i)) =~= b.subrange(i, i + 2));
}

/// Encoding the value decoded from four bytes gives those bytes back.
pub proof fn lemma_le4_of_bytes(b: Seq<u8>, i: int)
    requires
        0 <= i,
        i + 4 <= b.len(),
    ensures
        le4(from_le4(b, i)) == b.subrange(i, i + 4),
{
    lemma_bytes_u32(b[i], b[i + 1], b[i + 2], b[i + 3]);
    assert(le4(from_le4(b, i)) =~= b.subrange(i, i + 4));
}

/// Encoding the value decoded from eight bytes gives those bytes back.
pub proof fn lemma_le8_of_bytes(b: Seq<u8>, i: int)
    requires
        0 <= i,
        i + 8 <= b.len(),
    ensures
        le8(from_le8(b, i)) == b.subrange(i, i + 8),
{
    lemma_bytes_u64(b[i], b[i + 1], b[i + 2], b[i + 3], b[i + 4], b[i + 5], b[i + 6], b[i + 7]);
    assert(le8(from_le8(b, i)) =~= b.subrange(i, i + 8));
}

pub fn push_u16_le(out: &mut Vec<u8>, x: u16)
    ensures
        final(out)@ == old(out)@ + le2(x),
{
    out.push(x as u8);
    out.push((x >> 8) as u8);
    assert(final(out)@ =~= old(out)@ + le2(x));
}

pub fn push_u32_le(out: &mut Vec<u8>, x: u32)
    ensures
        final(out)@ == old(out)@ + le4(x),
{
    out.push(x as u8);
    out.push((x >> 8) as u8);
    out.push((x >> 16) as u8);
    out.push((x >> 24) as u8);
    assert(final(out)@ =~= old(out)@ + le4(x));
}

pub fn push_u64_le(out: &mut Vec<u8>, x: u64)
    ensures
        final(out)@ == old(out)@ + le8(x),
{
    out.push(x as u8);
    out.push((x >> 8) as u8);
    out.push((x >> 16) as u8);
    out.push((x >> 24) as u8);
    out.push((x >> 32) as u8);
    out.push((x >> 40) as u8);
    out.push((x >> 48) as u8);
    out.push((x >> 56) as u8);
    assert(final(out)@ =~= old(out)@ + le8(x));
}

pub fn read_u16_le(b: &[u8], i: usize) -> (x: u16)
    requires
        i + 2 <= b@.len(),
    ensures
        x == from_le2(b@, i as int),
{
    (b[i] as u16) | ((b[i + 1] as u16) << 8u16)
}

pub fn read_u32_le(b: &[u8], i: usize) -> (x: u32)
    requires
        i + 4 <= b@.len(),
    ensures
        x == from_le4(b@, i as int),
{
    (b[i] as u32) | ((b[i + 1] as u32) << 8u32) | ((b[i + 2] as u32) << 16u32) | ((b[i + 3] as u32)
        << 24u32)
}

pub fn read_u64_le(b: &[u8], i: usize) -> (x: u64)
    requires
        i + 8 <= b@.len(),
    ensures
        x == from_le8(b@, i as int),
{
    (b[i] as u64) | ((b[i + 1] as u64) << 8u64) | ((b[i + 2] as u64) << 16u64) | ((b[i + 3] as u64)
        << 24u64) | ((b[i + 4] as u64) << 32u64) | ((b[i + 5] as u64) << 40u64) | ((b[i + 6] as u64)
        << 48u64) | ((b[i + 7] as u64) << 56u64)
}

/// Appends every byte of `src` to `out`.
pub fn extend_bytes(out: &mut Vec<u8>, src: &[u8])
    ensures
        final(out)@ == old(out)@ + src@,
{
    let mut i: usize = 0;
    while i < src.len()
        invariant
            i <= src@.len(),
            out@ == old(out)@ + src@.subrange(0, i as int),
        decreases src@.len() - i,
    {
        out.push(src[i]);
        i = i + 1;
        assert(out@ =~= old(out)@ + src@.subrange(0, i as int));
    }
    assert(src@.subrange(0, src@.len() as int) =~= src@);
}

/// A new vector holding `src[from..to]`.
pub fn copy_range(src: &[u8], from: usize, to: usize) -> (v: Vec<u8>)
    requires
        from <= to <= src@.len(),
    ensures
        v@ == src@.subrange(from as int, to as int),
{
    let mut v: Vec<u8> = Vec::with_capacity(to - from);
    let mut i: usize = from;
    while i < to
        invariant
            from <= i <= to,
            to <= src@.len(),
            v@ == src@.subrange(from as int, i as int),
        decreases to - i,
    {
        v.push(src[i]);
        i = i + 1;
        assert(v@ =~= src@.subrange(from as int, i as int));
    }
    v
}

/// Wrapping sum of the bytes of `s`, as a 32-bit accumulator computes it.
pub open spec fn byte_sum(s: Seq<u8>) -> u32
    decreases s.len(),
{
    if s.len() == 0 {
        0
    } else {
        byte_sum(s.drop_last()).wrapping_add(s.last() as u32)
    }
}

/// The plain sum of the bytes of `s`.
pub open spec fn bytes_total(s: Seq<u8>) -> nat
    decreases s.len(),
{
    if s.len() == 0 {
        0
    } else {
        bytes_total(s.drop_last()) + s.last() as nat
    }
}

/// The 32-bit wrapping sum is the plain sum of the bytes modulo 2^32.
pub proof fn lemma_byte_sum_is_total_mod(s: Seq<u8>)
    ensures
        byte_sum(s) as int == bytes_total(s) % 0x1_0000_0000,
    decreases s.len(),
{
    if s.len() > 0 {
        lemma_byte_sum_is_total_mod(s.drop_last());
        let t = bytes_total(s.drop_last()) as int;
        let b = s.last() as int;
        vstd::arithmetic::div_mod::lemma_add_mod_noop(t, b, 0x1_0000_0000);
        vstd::arithmetic::div_mod::lemma_small_mod(b as nat, 0x1_0000_0000);
        let x = byte_sum(s.drop_last()) as int;
        if x + b < 0x1_0000_0000 {
            vstd::arithmetic::div_mod::lemma_small_mod((x + b) as nat, 0x1_0000_0000);
        } else {
            vstd::arithmetic::div_mod::lemma_mod_sub_multiples_vanish(x + b, 0x1_0000_0000);
            vstd::arithmetic::div_mod::lemma_small_mod((x + b - 0x1_0000_0000) as nat, 0x1_0000_0000);
        }
    }
}

/// Sums the bytes of `data` with 32-bit wrap-around.
pub fn wrapping_byte_sum(data: &[u8]) -> (sum: u32)
    ensures
        sum == byte_sum(data@),
{
    let mut sum: u32 = 0;
    let mut i: usize = 0;
    while i < data.len()
        invariant
            i <= data@.len(),
            sum == byte_sum(data@.subrange(0, i as int)),
        decreases data@.len() - i,
    {
        assert(data@.subrange(0, i + 1 as int).drop_last() =~= data@.subrange(0, i as int));
        sum = sum.wrapping_add(data[i] as u32);
        i = i + 1;
    }
    assert(data@.subrange(0, data@.len() as int) =~= data@);
    sum
}

} // verus!
