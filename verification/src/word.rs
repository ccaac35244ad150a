//! 64-bit words: bit rotation and the little-endian byte layout.

use vstd::prelude::*;

verus! {

/// Number of bits in a word.
pub const WORD_BITS: u32 = 64;

/// `x` with its bits moved `n` places towards the high end, the bits that
/// leave at the top coming back in at the bottom. Moving by a multiple of
/// 64 places changes nothing.
pub open spec fn rotl(x: u64, n: u32) -> u64 {
    let m = n % WORD_BITS;
    if m == 0 {
        x
    } else {
        (x << m) | (x >> (WORD_BITS - m) as u32)
    }
}

/// `x` with its bits moved `n` places towards the low end, the bits that
/// leave at the bottom coming back in at the top. Moving by a multiple of
/// 64 places changes nothing.
pub open spec fn rotr(x: u64, n: u32) -> u64 {
    let m = n % WORD_BITS;
    if m == 0 {
        x
    } else {
        (x >> m) | (x << (WORD_BITS - m) as u32)
    }
}

/// Rotates `x` left by `n` bits.
pub fn rotate_left(x: u64, n: u32) -> (r: u64)
    ensures
        r == rotl(x, n),
{
    let m = n % WORD_BITS;
    if m == 0 {
        x
    } else {
        (x << m) | (x >> (WORD_BITS - m))
    }
}

/// Rotates `x` right by `n` bits.
pub fn rotate_right(x: u64, n: u32) -> (r: u64)
    ensures
        r == rotr(x, n),
{
    let m = n % WORD_BITS;
    if m == 0 {
        x
    } else {
        (x >> m) | (x << (WORD_BITS - m))
    }
}

/// Rotating right undoes rotating left by the same amount.
pub proof fn lemma_rotr_undoes_rotl(x: u64, n: u32)
    ensures
        rotr(rotl(x, n), n) == x,
{
    let m = n % WORD_BITS;
    if m != 0 {
        let back = (64 - m) as u32;
        assert(((x << m) | (x >> back)) >> m | ((x << m) | (x >> back)) << back == x)
            by (bit_vector)
            requires
                0 < m < 64,
                back == 64 - m,
        ;
    }
}

/// Rotating left undoes rotating right by the same amount.
pub proof fn lemma_rotl_undoes_rotr(x: u64, n: u32)
    ensures
        rotl(rotr(x, n), n) == x,
{
    let m = n % WORD_BITS;
    if m != 0 {
        let back = (64 - m) as u32;
        assert(((x >> m) | (x << back)) << m | ((x >> m) | (x << back)) >> back == x)
            by (bit_vector)
            requires
                0 < m < 64,
                back == 64 - m,
        ;
    }
}

/// The byte of `x` that stands at place `k` when `x` is laid out with its
/// least significant byte first.
pub open spec fn le_byte(x: u64, k: int) -> u8
    recommends
        0 <= k < 8,
{
    ((x >> ((8 * k) as u64)) & 0xff) as u8
}

/// The eight bytes of `x`, least significant first.
pub open spec fn le_bytes(x: u64) -> Seq<u8> {
    Seq::new(8, |k: int| le_byte(x, k))
}

/// The word that eight bytes spell, the first being the least significant.
pub open spec fn le_word(b: Seq<u8>) -> u64
    recommends
        b.len() == 8,
{
    join_le(b[0], b[1], b[2], b[3], b[4], b[5], b[6], b[7])
}

/// The word with `b0` as its lowest byte and `b7` as its highest.
pub open spec fn join_le(b0: u8, b1: u8, b2: u8, b3: u8, b4: u8, b5: u8, b6: u8, b7: u8) -> u64 {
    (b0 as u64) | ((b1 as u64) << 8) | ((b2 as u64) << 16) | ((b3 as u64) << 24) | ((b4 as u64)
        << 32) | ((b5 as u64) << 40) | ((b6 as u64) << 48) | ((b7 as u64) << 56)
}

/// `data` with the eight bytes from `at` on replaced by the bytes of `x`.
pub open spec fn with_word(data: Seq<u8>, at: int, x: u64) -> Seq<u8> {
    Seq::new(
        data.len(),
        |i: int|
            if at <= i < at + 8 {
                le_byte(x, i - at)
            } else {
                data[i]
            },
    )
}

/// Splitting a word into bytes and joining them again gives the word back.
pub proof fn lemma_word_of_bytes(x: u64)
    ensures
        le_bytes(x).len() == 8,
        le_word(le_bytes(x)) == x,
{
    assert(join_le(
        ((x >> 0u64) & 0xff) as u8,
        ((x >> 8u64) & 0xff) as u8,
        ((x >> 16u64) & 0xff) as u8,
        ((x >> 24u64) & 0xff) as u8,
        ((x >> 32u64) & 0xff) as u8,
        ((x >> 40u64) & 0xff) as u8,
        ((x >> 48u64) & 0xff) as u8,
        ((x >> 56u64) & 0xff) as u8,
    ) == x) by (bit_vector);
}

/// Joining eight bytes into a word and splitting it again gives the bytes
/// back.
pub proof fn lemma_bytes_of_word(b: Seq<u8>)
    requires
        b.len() == 8,
    ensures
        le_bytes(le_word(b)) == b,
{
    let (b0, b1, b2, b3, b4, b5, b6, b7) = (b[0], b[1], b[2], b[3], b[4], b[5], b[6], b[7]);
    let x = join_le(b0, b1, b2, b3, b4, b5, b6, b7);
    assert(x == join_le(b0, b1, b2, b3, b4, b5, b6, b7) ==> {
        &&& ((x >> 0u64) & 0xff) as u8 == b0
        &&& ((x >> 8u64) & 0xff) as u8 == b1
        &&& ((x >> 16u64) & 0xff) as u8 == b2
        &&& ((x >> 24u64) & 0xff) as u8 == b3
        &&& ((x >> 32u64) & 0xff) as u8 == b4
        &&& ((x >> 40u64) & 0xff) as u8 == b5
        &&& ((x >> 48u64) & 0xff) as u8 == b6
        &&& ((x >> 56u64) & 0xff) as u8 == b7
    }) by (bit_vector);
    assert(le_bytes(x) =~= b);
}

/// Reads the little-endian word that starts at byte `at` of `data`.
pub fn load_le(data: &[u8], at: usize) -> (x: u64)
    requires
        at + 8 <= data@.len(),
    ensures
        x == le_word(data@.subrange(at as int, at + 8)),
{
    (data[at] as u64) | ((data[at + 1] as u64) << 8) | ((data[at + 2] as u64) << 16) | ((data[at
        + 3] as u64) << 24) | ((data[at + 4] as u64) << 32) | ((data[at + 5] as u64) << 40) | ((
    data[at + 6] as u64) << 48) | ((data[at + 7] as u64) << 56)
}

/// Writes `x` as eight little-endian bytes into `data`, starting at byte
/// `at`. The other bytes stay as they are.
pub fn store_le(data: &mut Vec<u8>, at: usize, x: u64)
    requires
        at + 8 <= old(data)@.len(),
    ensures
        final(data)@ == with_word(old(data)@, at as int, x),
{
    assert(at + 8 <= data.len());
    assert({
        &&& (x >> 0u64) & 0xff < 256
        &&& (x >> 8u64) & 0xff < 256
        &&& (x >> 16u64) & 0xff < 256
        &&& (x >> 24u64) & 0xff < 256
        &&& (x >> 32u64) & 0xff < 256
        &&& (x >> 40u64) & 0xff < 256
        &&& (x >> 48u64) & 0xff < 256
        &&& (x >> 56u64) & 0xff < 256
    }) by (bit_vector);
    data[at] = ((x >> 0u64) & 0xff) as u8;
    data[at + 1] = ((x >> 8u64) & 0xff) as u8;
    data[at + 2] = ((x >> 16u64) & 0xff) as u8;
    data[at + 3] = ((x >> 24u64) & 0xff) as u8;
    data[at + 4] = ((x >> 32u64) & 0xff) as u8;
    data[at + 5] = ((x >> 40u64) & 0xff) as u8;
    data[at + 6] = ((x >> 48u64) & 0xff) as u8;
    data[at + 7] = ((x >> 56u64) & 0xff) as u8;
}

} // verus!
