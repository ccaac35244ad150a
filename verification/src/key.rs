//! The fixed-size key table that the cyclic XOR runs against.

use vstd::prelude::*;

verus! {

/// Number of bytes in a key table.
pub const KEY_LEN: usize = 512;

/// A key table: exactly [`KEY_LEN`] bytes, fixed once it is made.
///
/// Its view is the sequence of its bytes.
#[derive(Debug)]
pub struct KeyTable {
    bytes: [u8; KEY_LEN],
}

impl View for KeyTable {
    type V = Seq<u8>;

    closed spec fn view(&self) -> Seq<u8> {
        self.bytes@
    }
}

impl KeyTable {
    /// Every key table holds [`KEY_LEN`] bytes.
    pub proof fn lemma_len(self)
        ensures
            self@.len() == KEY_LEN,
    {
    }

    /// The key table that holds `bytes`.
    pub fn new(bytes: [u8; KEY_LEN]) -> (key: KeyTable)
        ensures
            key@ == bytes@,
    {
        KeyTable { bytes }
    }

    /// The key table that holds the bytes of `bytes`, if there are exactly
    /// [`KEY_LEN`] of them; `None` for any other length.
    pub fn from_slice(bytes: &[u8]) -> (key: Option<KeyTable>)
        ensures
            key is Some <==> bytes@.len() == KEY_LEN,
            key matches Some(k) ==> k@ == bytes@,
    {
        if bytes.len() != KEY_LEN {
            return None;
        }
        let mut table = [0u8; KEY_LEN];
        let mut i: usize = 0;
        while i < KEY_LEN
            invariant
                i <= KEY_LEN,
                bytes@.len() == KEY_LEN,
                forall|j: int| 0 <= j < i ==> table@[j] == bytes@[j],
            decreases KEY_LEN - i,
        {
            table[i] = bytes[i];
            i += 1;
        }
        assert(table@ =~= bytes@);
        Some(KeyTable { bytes: table })
    }

    /// The bytes of the table, in order.
    pub fn as_slice(&self) -> (bytes: &[u8])
        ensures
            bytes@ == self@,
            bytes@.len() == KEY_LEN,
    {
        self.bytes.as_slice()
    }
}

} // verus!
