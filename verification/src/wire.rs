//! Little-endian images of integers, as the processor and the loader lay
//! them out in memory.

use vstd::prelude::*;

verus! {

/// The two bytes of `x`, lowest first.
pub open spec fn le16(x: u16) -> Seq<u8> {
    seq![x as u8, (x >> 8) as u8]
}

/// The four bytes of `x`, lowest first.
pub open spec fn le32(x: u32) -> Seq<u8> {
    seq![x as u8, (x >> 8) as u8, (x >> 16) as u8, (x >> 24) as u8]
}

/// The eight bytes of `x`, lowest first.
pub open spec fn le64(x: u64) -> Seq<u8> {
    seq![
        x as u8,
        (x >> 8) as u8,
        (x >> 16) as u8,
        (x >> 24) as u8,
        (x >> 32) as u8,
        (x >> 40) as u8,
        (x >> 48) as u8,
        (x >> 56) as u8,
    ]
}

/// The 16-bit value whose image starts at `s[at]`.
pub open spec fn word16(s: Seq<u8>, at: int) -> u16 {
    (s[at] as u16) | ((s[at + 1] as u16) << 8)
}

/// The 32-bit value whose image starts at `s[at]`.
pub open spec fn word32(s: Seq<u8>, at: int) -> u32 {
    (s[at] as u32) | ((s[at + 1] as u32) << 8) | ((s[at + 2] as u32) << 16) | ((s[at + 3] as u32)
        << 24)
}

/// The 64-bit value whose image starts at `s[at]`.
pub open spec fn word64(s: Seq<u8>, at: int) -> u64 {
    (s[at] as u64) | ((s[at + 1] as u64) << 8) | ((s[at + 2] as u64) << 16) | ((s[at + 3] as u64)
        << 24) | ((s[at + 4] as u64) << 32) | ((s[at + 5] as u64) << 40) | ((s[at + 6] as u64)
        << 48) | ((s[at + 7] as u64) << 56)
}

/// `s` with the bytes of `image` laid over it from index `at` on.
pub open spec fn overlay(s: Seq<u8>, at: int, image: Seq<u8>) -> Seq<u8> {
    Seq::new(
        s.len(),
        |i: int|
            if at <= i < at + image.len() {
                image[i - at]
            } else {
                s[i]
            },
    )
}

/// Reads the 16-bit value stored at `bytes[at..at + 2]`.
pub fn read_u16(bytes: &[u8], at: usize) -> (x: u16)
    requires
        at + 2 <= bytes.len(),
    ensures
        x == word16(bytes@, at as int),
{
    (bytes[at] as u16) | ((bytes[at + 1] as u16) << 8)
}

/// Reads the 32-bit value stored at `bytes[at..at + 4]`.
pub fn read_u32(bytes: &[u8], at: usize) -> (x: u32)
    requires
        at + 4 <= bytes.len(),
    ensures
        x == word32(bytes@, at as int),
{
    (bytes[at] as u32) | ((bytes[at + 1] as u32) << 8) | ((bytes[at + 2] as u32) << 16) | ((bytes[at
        + 3] as u32) << 24)
}

/// Reads the 64-bit value stored at `bytes[at..at + 8]`.
pub fn read_u64(bytes: &[u8], at: usize) -> (x: u64)
    requires
        at + 8 <= bytes.len(),
    ensures
        x == word64(bytes@, at as int),
{
    (bytes[at] as u64) | ((bytes[at + 1] as u64) << 8) | ((bytes[at + 2] as u64) << 16) | ((bytes[at
        + 3] as u64) << 24) | ((bytes[at + 4] as u64) << 32) | ((bytes[at + 5] as u64) << 40) | ((
    bytes[at + 6] as u64) << 48) | ((bytes[at + 7] as u64) << 56)
}

/// Stores one byte at `out[at]`.
pub fn write_u8<const N: usize>(out: &mut [u8; N], at: usize, x: u8)
    requires
        at + 1 <= N,
    ensures
        final(out)@ == overlay(old(out)@, at as int, seq![x]),
{
    out[at] = x;
    assert(out@ =~= overlay(old(out)@, at as int, seq![x]));
}

/// Stores the image of `x` at `out[at..at + 2]`.
pub fn write_u16<const N: usize>(out: &mut [u8; N], at: usize, x: u16)
    requires
        at + 2 <= N,
    ensures
        final(out)@ == overlay(old(out)@, at as int, le16(x)),
{
    out[at] = #[verifier::truncate] (x as u8);
    out[at + 1] = #[verifier::truncate] ((x >> 8) as u8);
    assert(out@ =~= overlay(old(out)@, at as int, le16(x)));
}

/// Stores the image of `x` at `out[at..at + 4]`.
pub fn write_u32<const N: usize>(out: &mut [u8; N], at: usize, x: u32)
    requires
        at + 4 <= N,
    ensures
        final(out)@ == overlay(old(out)@, at as int, le32(x)),
{
    out[at] = #[verifier::truncate] (x as u8);
    out[at + 1] = #[verifier::truncate] ((x >> 8) as u8);
    out[at + 2] = #[verifier::truncate] ((x >> 16) as u8);
    out[at + 3] = #[verifier::truncate] ((x >> 24) as u8);
    assert(out@ =~= overlay(old(out)@, at as int, le32(x)));
}

/// Stores the image of `x` at `out[at..at + 8]`.
pub fn write_u64<const N: usize>(out: &mut [u8; N], at: usize, x: u64)
    requires
        at + 8 <= N,
    ensures
        final(out)@ == overlay(old(out)@, at as int, le64(x)),
{
    out[at] = #[verifier::truncate] (x as u8);
    out[at + 1] = #[verifier::truncate] ((x >> 8) as u8);
    out[at + 2] = #[verifier::truncate] ((x >> 16) as u8);
    out[at + 3] = #[verifier::truncate] ((x >> 24) as u8);
    out[at + 4] = #[verifier::truncate] ((x >> 32) as u8);
    out[at + 5] = #[verifier::truncate] ((x >> 40) as u8);
    out[at + 6] = #[verifier::truncate] ((x >> 48) as u8);
    out[at + 7] = #[verifier::truncate] ((x >> 56) as u8);
    assert(out@ =~= overlay(old(out)@, at as int, le64(x)));
}

/// Copies `src` to `out[at..at + M]`.
pub fn write_bytes<const N: usize, const M: usize>(out: &mut [u8; N], at: usize, src: &[u8; M])
    requires
        at + M <= N,
    ensures
        final(out)@ == overlay(old(out)@, at as int, src@),
{
    let mut i: usize = 0;
    while i < M
        invariant
            at + M <= N,
            i <= M,
            out@ == overlay(old(out)@, at as int, src@.take(i as int)),
        decreases M - i,
    {
        out[at + i] = src[i];
        i += 1;
        assert(out@ =~= overlay(old(out)@, at as int, src@.take(i as int)));
    }
    assert(src@.take(M as int) =~= src@);
}

proof fn lemma_join16(x: u16)
    by (bit_vector)
    ensures
        ((x as u8) as u16) | ((((x >> 8) as u8) as u16) << 8) == x,
{
}

proof fn lemma_join32(x: u32)
    by (bit_vector)
    ensures
        ((x as u8) as u32) | ((((x >> 8) as u8) as u32) << 8) | ((((x >> 16) as u8) as u32) << 16)
            | ((((x >> 24) as u8) as u32) << 24) == x,
{
}

proof fn lemma_join64(x: u64)
    by (bit_vector)
    ensures
        ((x as u8) as u64) | ((((x >> 8) as u8) as u64) << 8) | ((((x >> 16) as u8) as u64) << 16)
            | ((((x >> 24) as u8) as u64) << 24) | ((((x >> 32) as u8) as u64) << 32) | ((((x
            >> 40) as u8) as u64) << 40) | ((((x >> 48) as u8) as u64) << 48) | ((((x >> 56) as u8)
            as u64) << 56) == x,
{
}

/// Reading back the image of a 16-bit value gives that value, wherever
/// the image lies in a longer sequence.
pub proof fn lemma_word16_of_image(s: Seq<u8>, at: int, x: u16)
    requires
        0 <= at,
        at + 2 <= s.len(),
        s.subrange(at, at + 2) == le16(x),
    ensures
        word16(s, at) == x,
{
    let t = s.subrange(at, at + 2);
    assert(s[at] == t[0] && s[at + 1] == t[1]);
    lemma_join16(x);
}

/// Reading back the image of a 32-bit value gives that value.
pub proof fn lemma_word32_of_image(s: Seq<u8>, at: int, x: u32)
    requires
        0 <= at,
        at + 4 <= s.len(),
        s.subrange(at, at + 4) == le32(x),
    ensures
        word32(s, at) == x,
{
    let t = s.subrange(at, at + 4);
    assert(s[at] == t[0] && s[at + 1] == t[1] && s[at + 2] == t[2] && s[at + 3] == t[3]);
    lemma_join32(x);
}

/// Reading back the image of a 64-bit value gives that value.
pub proof fn lemma_word64_of_image(s: Seq<u8>, at: int, x: u64)
    requires
        0 <= at,
        at + 8 <= s.len(),
        s.subrange(at, at + 8) == le64(x),
    ensures
        word64(s, at) == x,
{
    let t = s.subrange(at, at + 8);
    assert(s[at] == t[0] && s[at + 1] == t[1] && s[at + 2] == t[2] && s[at + 3] == t[3]);
    assert(s[at + 4] == t[4] && s[at + 5] == t[5] && s[at + 6] == t[6] && s[at + 7] == t[7]);
    lemma_join64(x);
}

proof fn lemma_sum16(b0: u8, b1: u8)
    by (bit_vector)
    ensures
        (b0 as u16) | ((b1 as u16) << 8) == b0 + 0x100 * b1,
{
}

proof fn lemma_sum32(b0: u8, b1: u8, b2: u8, b3: u8)
    by (bit_vector)
    ensures
        (b0 as u32) | ((b1 as u32) << 8) | ((b2 as u32) << 16) | ((b3 as u32) << 24) == b0 + 0x100
            * b1 + 0x1_0000 * b2 + 0x100_0000 * b3,
{
}

proof fn lemma_sum64(b0: u8, b1: u8, b2: u8, b3: u8, b4: u8, b5: u8, b6: u8, b7: u8)
    by (bit_vector)
    ensures
        (b0 as u64) | ((b1 as u64) << 8) | ((b2 as u64) << 16) | ((b3 as u64) << 24) | ((b4 as u64)
            << 32) | ((b5 as u64) << 40) | ((b6 as u64) << 48) | ((b7 as u64) << 56) == b0 + 0x100
            * b1 + 0x1_0000 * b2 + 0x100_0000 * b3 + 0x1_0000_0000 * b4 + 0x100_0000_0000 * b5
            + 0x1_0000_0000_0000 * b6 + 0x100_0000_0000_0000 * b7,
{
}

/// The value of an image is the sum of its bytes, each weighted by the
/// power of 256 that belongs to its place: the first byte counts least.
pub proof fn lemma_word_values(s: Seq<u8>, at: int)
    ensures
        word16(s, at) == s[at] + 0x100 * s[at + 1],
        word32(s, at) == s[at] + 0x100 * s[at + 1] + 0x1_0000 * s[at + 2] + 0x100_0000 * s[at + 3],
        word64(s, at) == s[at] + 0x100 * s[at + 1] + 0x1_0000 * s[at + 2] + 0x100_0000 * s[at + 3]
            + 0x1_0000_0000 * s[at + 4] + 0x100_0000_0000 * s[at + 5] + 0x1_0000_0000_0000 * s[at
            + 6] + 0x100_0000_0000_0000 * s[at + 7],
{
    lemma_sum16(s[at], s[at + 1]);
    lemma_sum32(s[at], s[at + 1], s[at + 2], s[at + 3]);
    lemma_sum64(
        s[at],
        s[at + 1],
        s[at + 2],
        s[at + 3],
        s[at + 4],
        s[at + 5],
        s[at + 6],
        s[at + 7],
    );
}

} // verus!
