//! Theorems about the transforms: what undoes what.

use crate::transform::{
    decrypt_bytes, encrypt_bytes, pad_bytes, padded_len, rotate_bytes, rotate_word, word_at,
    xor_bytes,
};
use crate::word::{
    le_byte, le_bytes, le_word, lemma_bytes_of_word, lemma_rotl_undoes_rotr,
    lemma_rotr_undoes_rotl, lemma_word_of_bytes,
};
use vstd::prelude::*;

verus! {

/// The cyclic XOR is its own inverse: applied twice with the same key, it
/// gives back the bytes it started from.
pub proof fn lemma_xor_twice(data: Seq<u8>, key: Seq<u8>)
    ensures
        xor_bytes(data, key).len() == data.len(),
        xor_bytes(xor_bytes(data, key), key) == data,
{
    let once = xor_bytes(data, key);
    let twice = xor_bytes(once, key);
    assert forall|i: int| 0 <= i < data.len() implies twice[i] == data[i] by {
        let a = data[i];
        let b = key[i % key.len() as int];
        assert((a ^ b) ^ b == a) by (bit_vector);
    }
}

/// Padding brings the length up to the next multiple of eight, keeps the
/// bytes that were there, and adds zeros only.
pub proof fn lemma_pad_shape(data: Seq<u8>)
    ensures
        pad_bytes(data).len() == padded_len(data.len()),
        pad_bytes(data).len() % 8 == 0,
        pad_bytes(data).len() < data.len() + 8,
        pad_bytes(data).subrange(0, data.len() as int) == data,
        forall|i: int| data.len() <= i < pad_bytes(data).len() ==> pad_bytes(data)[i] == 0,
{
    assert(pad_bytes(data).subrange(0, data.len() as int) =~= data);
}

/// Padding leaves a buffer of whole words as it is.
pub proof fn lemma_pad_aligned(data: Seq<u8>)
    requires
        data.len() % 8 == 0,
    ensures
        pad_bytes(data) == data,
{
    assert(pad_bytes(data) =~= data);
}

/// Padding is idempotent: padding a padded buffer changes nothing.
pub proof fn lemma_pad_twice(data: Seq<u8>)
    ensures
        pad_bytes(data).len() % 8 == 0,
        pad_bytes(pad_bytes(data)) == pad_bytes(data),
{
    lemma_pad_shape(data);
    lemma_pad_aligned(pad_bytes(data));
}

/// Word `w` of a rotated buffer is word `w` of the buffer, rotated.
pub proof fn lemma_rotated_word(data: Seq<u8>, left: bool, w: int)
    requires
        0 <= w,
        8 * w + 8 <= data.len(),
    ensures
        word_at(rotate_bytes(data, left), w) == rotate_word(word_at(data, w), w, left),
{
    let rotated = rotate_word(word_at(data, w), w, left);
    let window = rotate_bytes(data, left).subrange(8 * w, 8 * w + 8);
    assert(window =~= le_bytes(rotated));
    lemma_word_of_bytes(rotated);
}

/// On a buffer of whole words, rotating one way and then the other gives the
/// buffer back.
pub proof fn lemma_rotate_back(data: Seq<u8>, left: bool)
    requires
        data.len() % 8 == 0,
    ensures
        rotate_bytes(data, left).len() == data.len(),
        rotate_bytes(rotate_bytes(data, left), !left) == data,
{
    let there = rotate_bytes(data, left);
    let back = rotate_bytes(there, !left);
    assert forall|i: int| 0 <= i < data.len() implies back[i] == data[i] by {
        let w = i / 8;
        let k = i % 8;
        let amount = (w % 64) as u32;
        let window = data.subrange(8 * w, 8 * w + 8);
        lemma_rotated_word(data, left, w);
        if left {
            lemma_rotr_undoes_rotl(word_at(data, w), amount);
        } else {
            lemma_rotl_undoes_rotr(word_at(data, w), amount);
        }
        lemma_bytes_of_word(window);
        assert(le_bytes(le_word(window))[k] == le_byte(le_word(window), k));
    }
}

/// Clearing what was obfuscated gives back the input, padded to whole words.
pub proof fn lemma_decrypt_encrypt_padded(data: Seq<u8>, key: Seq<u8>)
    ensures
        decrypt_bytes(encrypt_bytes(data, key), key) == pad_bytes(data),
{
    let padded = pad_bytes(data);
    let turned = rotate_bytes(padded, false);
    lemma_pad_shape(data);
    lemma_xor_twice(turned, key);
    lemma_pad_aligned(turned);
    lemma_rotate_back(padded, false);
}

/// Obfuscating what was cleared gives back the input, followed by the key
/// bytes that met the padding.
pub proof fn lemma_encrypt_decrypt_padded(data: Seq<u8>, key: Seq<u8>)
    ensures
        encrypt_bytes(decrypt_bytes(data, key), key) == xor_bytes(
            pad_bytes(xor_bytes(data, key)),
            key,
        ),
        encrypt_bytes(decrypt_bytes(data, key), key).subrange(0, data.len() as int) == data,
{
    let mixed = xor_bytes(data, key);
    let padded = pad_bytes(mixed);
    let turned = rotate_bytes(padded, true);
    lemma_pad_shape(mixed);
    lemma_pad_aligned(turned);
    lemma_rotate_back(padded, true);
    lemma_xor_twice(data, key);
    assert(xor_bytes(padded, key).subrange(0, data.len() as int) =~= xor_bytes(mixed, key));
}

/// Round trip, clear form first: on a buffer of whole words, obfuscating the
/// cleared buffer restores it.
pub proof fn lemma_encrypt_undoes_decrypt(data: Seq<u8>, key: Seq<u8>)
    requires
        data.len() % 8 == 0,
    ensures
        encrypt_bytes(decrypt_bytes(data, key), key) == data,
{
    lemma_encrypt_decrypt_padded(data, key);
    lemma_xor_twice(data, key);
    lemma_pad_aligned(xor_bytes(data, key));
}

/// Round trip, obfuscated form first: on a buffer of whole words, clearing
/// the obfuscated buffer restores it.
pub proof fn lemma_decrypt_undoes_encrypt(data: Seq<u8>, key: Seq<u8>)
    requires
        data.len() % 8 == 0,
    ensures
        decrypt_bytes(encrypt_bytes(data, key), key) == data,
{
    lemma_decrypt_encrypt_padded(data, key);
    lemma_pad_aligned(data);
}

/// Either direction gives an output whose length is the input's, rounded up
/// to the next multiple of eight; an empty input gives an empty output.
pub proof fn lemma_output_len(data: Seq<u8>, key: Seq<u8>)
    ensures
        decrypt_bytes(data, key).len() == padded_len(data.len()),
        encrypt_bytes(data, key).len() == padded_len(data.len()),
        padded_len(data.len()) % 8 == 0,
        data.len() <= padded_len(data.len()) < data.len() + 8,
        data.len() == 0 ==> decrypt_bytes(data, key).len() == 0 && encrypt_bytes(data, key).len()
            == 0,
{
}

} // verus!
