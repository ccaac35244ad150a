//! The three primitive transforms and their two fixed compositions.
//!
//! Each transform is stated as a function on byte sequences; the executable
//! functions change a buffer in place and are proved to compute exactly that
//! function.

use crate::key::KeyTable;
use crate::word::{le_byte, le_word, load_le, rotate_left, rotate_right, rotl, rotr, store_le};
use vstd::prelude::*;

verus! {

/// Number of bytes in a word, the unit of rotation.
pub const WORD_LEN: usize = 8;

/// Which way the pipeline runs.
#[derive(Clone, Copy, Debug, PartialEq, Eq, Structural)]
pub enum Direction {
    /// From the obfuscated form to the clear form.
    ToClear,
    /// From the clear form to the obfuscated form.
    ToObfuscated,
}

/// `data` with byte `i` XORed with byte `i mod key.len()` of `key`.
pub open spec fn xor_bytes(data: Seq<u8>, key: Seq<u8>) -> Seq<u8> {
    Seq::new(data.len(), |i: int| data[i] ^ key[i % key.len() as int])
}

/// Number of zero bytes that bring a buffer of `len` bytes up to a whole
/// number of words.
pub open spec fn padding(len: nat) -> nat {
    if len % 8 == 0 {
        0
    } else {
        (8 - len % 8) as nat
    }
}

/// `data` followed by the zero bytes that complete its last word.
pub open spec fn pad_bytes(data: Seq<u8>) -> Seq<u8> {
    data + Seq::new(padding(data.len()), |i: int| 0u8)
}

/// Word `w` of `data`, read as a little-endian integer.
pub open spec fn word_at(data: Seq<u8>, w: int) -> u64 {
    le_word(data.subrange(8 * w, 8 * w + 8))
}

/// The word `x`, standing at word index `w`, after rotation: by `w mod 64`
/// bits, to the left if `left`, else to the right.
pub open spec fn rotate_word(x: u64, w: int, left: bool) -> u64 {
    if left {
        rotl(x, (w % 64) as u32)
    } else {
        rotr(x, (w % 64) as u32)
    }
}

/// `data` with each of its words rotated according to its index.
///
/// Meant for a `data` made of whole words.
pub open spec fn rotate_bytes(data: Seq<u8>, left: bool) -> Seq<u8>
    recommends
        data.len() % 8 == 0,
{
    Seq::new(data.len(), |i: int| le_byte(rotate_word(word_at(data, i / 8), i / 8, left), i % 8))
}

/// `data` with the bytes at places `from` up to `to` XORed with the key, as
/// [`xor_bytes`] does it, and the others left alone.
pub open spec fn xor_span(data: Seq<u8>, key: Seq<u8>, from: int, to: int) -> Seq<u8> {
    Seq::new(
        data.len(),
        |i: int|
            if from <= i < to {
                data[i] ^ key[i % key.len() as int]
            } else {
                data[i]
            },
    )
}

/// `data` with the words at indices `from` up to `to` rotated, as
/// [`rotate_bytes`] does it, and the others left alone.
pub open spec fn rotate_span(data: Seq<u8>, left: bool, from: int, to: int) -> Seq<u8> {
    Seq::new(
        data.len(),
        |i: int|
            if from <= i / 8 < to {
                le_byte(rotate_word(word_at(data, i / 8), i / 8, left), i % 8)
            } else {
                data[i]
            },
    )
}

/// The clear form of `data`: XOR, then padding, then rotation to the left.
pub open spec fn decrypt_bytes(data: Seq<u8>, key: Seq<u8>) -> Seq<u8> {
    rotate_bytes(pad_bytes(xor_bytes(data, key)), true)
}

/// The obfuscated form of `data`: padding, then rotation to the right, then
/// XOR.
pub open spec fn encrypt_bytes(data: Seq<u8>, key: Seq<u8>) -> Seq<u8> {
    xor_bytes(rotate_bytes(pad_bytes(data), false), key)
}

/// What the pipeline makes of `data` in the given direction.
pub open spec fn transform_bytes(data: Seq<u8>, direction: Direction, key: Seq<u8>) -> Seq<u8> {
    match direction {
        Direction::ToClear => decrypt_bytes(data, key),
        Direction::ToObfuscated => encrypt_bytes(data, key),
    }
}

/// `len` rounded up to the next multiple of eight.
pub open spec fn padded_len(len: nat) -> nat {
    len + padding(len)
}

/// Stepping one place on steps one place on in the key, or back to its start.
proof fn lemma_next_key_place(i: int, key_len: int)
    by (nonlinear_arith)
    requires
        0 <= i,
        0 < key_len,
    ensures
        (i + 1) % key_len == if i % key_len + 1 == key_len {
            0
        } else {
            i % key_len + 1
        },
{
}

/// XORs the bytes of `data` at places `from` up to `to` with the key, each
/// with the key byte at its place modulo the key's length.
pub fn xor_range(data: &mut Vec<u8>, key: &[u8], from: usize, to: usize)
    requires
        from <= to <= old(data)@.len(),
        from < to ==> key@.len() > 0,
    ensures
        final(data)@ == xor_span(old(data)@, key@, from as int, to as int),
{
    if from == to {
        return ;
    }
    let key_len = key.len();
    let mut i: usize = from;
    let mut k: usize = from % key_len;
    while i < to
        invariant
            data@.len() == old(data)@.len(),
            key_len == key@.len(),
            key_len > 0,
            from <= i <= to <= data@.len(),
            k == i % key_len,
            forall|j: int| from <= j < i ==> data@[j] == old(data)@[j] ^ key@[j % key_len as int],
            forall|j: int| 0 <= j < from || i <= j < data@.len() ==> data@[j] == old(data)@[j],
        decreases to - i,
    {
        data[i] = data[i] ^ key[k];
        proof {
            lemma_next_key_place(i as int, key_len as int);
        }
        i += 1;
        k += 1;
        if k == key_len {
            k = 0;
        }
    }
}

/// XORs every byte of `data` with the key, which repeats from its start
/// whenever it runs out.
pub fn xor(data: &mut Vec<u8>, key: &[u8])
    requires
        old(data)@.len() > 0 ==> key@.len() > 0,
    ensures
        final(data)@ == xor_bytes(old(data)@, key@),
{
    let n = data.len();
    xor_range(data, key, 0, n);
}

/// Appends zero bytes until the length of `data` is a multiple of eight.
pub fn pad(data: &mut Vec<u8>)
    ensures
        final(data)@ == pad_bytes(old(data)@),
        final(data)@.len() % 8 == 0,
{
    let rem = data.len() % WORD_LEN;
    if rem != 0 {
        let mut r: usize = rem;
        while r < WORD_LEN
            invariant
                rem <= r <= WORD_LEN,
                rem == old(data)@.len() % 8,
                data@.len() == old(data)@.len() + (r - rem),
                forall|j: int| 0 <= j < old(data)@.len() ==> data@[j] == old(data)@[j],
                forall|j: int| old(data)@.len() <= j < data@.len() ==> data@[j] == 0,
            decreases WORD_LEN - r,
        {
            data.push(0);
            r += 1;
        }
    }
}

/// Rotates the words of `data` at indices `from` up to `to`, each by its
/// index modulo 64: to the left if `left`, else to the right.
pub fn rotate_range(data: &mut Vec<u8>, left: bool, from: usize, to: usize)
    requires
        from <= to,
        8 * to <= old(data)@.len(),
    ensures
        final(data)@ == rotate_span(old(data)@, left, from as int, to as int),
{
    let mut w: usize = from;
    while w < to
        invariant
            data@.len() == old(data)@.len(),
            from <= w <= to,
            8 * to <= data@.len(),
            forall|j: int|
                8 * from <= j < 8 * w ==> data@[j] == rotate_span(
                    old(data)@,
                    left,
                    from as int,
                    to as int,
                )[j],
            forall|j: int| 0 <= j < 8 * from || 8 * w <= j < data@.len() ==> data@[j] == old(
                data,
            )@[j],
        decreases to - w,
    {
        assert(8 * w + 8 <= data.len());
        let at = w * WORD_LEN;
        assert(data@.subrange(at as int, at + 8) =~= old(data)@.subrange(8 * w, 8 * w + 8));
        let value = load_le(data.as_slice(), at);
        let amount = (w % 64) as u32;
        let rotated = if left {
            rotate_left(value, amount)
        } else {
            rotate_right(value, amount)
        };
        store_le(data, at, rotated);
        w += 1;
    }
}

/// Rotates each word of `data` by its index modulo 64: to the left if
/// `left`, else to the right. Words are read and written little-endian.
pub fn rotate(data: &mut Vec<u8>, left: bool)
    requires
        old(data)@.len() % 8 == 0,
    ensures
        final(data)@ == rotate_bytes(old(data)@, left),
{
    let words = data.len() / WORD_LEN;
    rotate_range(data, left, 0, words);
}

/// Brings obfuscated `data` into the clear form: XOR with the key, padding to
/// whole words, rotation of each word to the left.
pub fn decrypt(data: Vec<u8>, key: &KeyTable) -> (clear: Vec<u8>)
    ensures
        clear@ == decrypt_bytes(data@, key@),
        clear@.len() == padded_len(data@.len()),
{
    let mut data = data;
    xor(&mut data, key.as_slice());
    pad(&mut data);
    rotate(&mut data, true);
    data
}

/// Brings clear `data` into the obfuscated form: padding to whole words,
/// rotation of each word to the right, XOR with the key.
pub fn encrypt(data: Vec<u8>, key: &KeyTable) -> (obfuscated: Vec<u8>)
    ensures
        obfuscated@ == encrypt_bytes(data@, key@),
        obfuscated@.len() == padded_len(data@.len()),
{
    let mut data = data;
    pad(&mut data);
    rotate(&mut data, false);
    xor(&mut data, key.as_slice());
    data
}

/// Runs the pipeline on `data` in the given direction.
pub fn transform(data: Vec<u8>, direction: Direction, key: &KeyTable) -> (out: Vec<u8>)
    ensures
        out@ == transform_bytes(data@, direction, key@),
        out@.len() == padded_len(data@.len()),
{
    match direction {
        Direction::ToClear => decrypt(data, key),
        Direction::ToObfuscated => encrypt(data, key),
    }
}

} // verus!
