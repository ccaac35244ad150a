//! What the caller did not pin: the archive's variant, told by the magic
//! bytes at its start, and the direction, hinted at by the file's name.
//!
//! Neither is ever guessed. Where the bytes or the name do not decide, the
//! answer is [`Resolved::Ambiguous`], and it is for the caller to ask.

use crate::key::KeyTable;
use crate::transform::Direction;
use vstd::prelude::*;
use vstd::string::StringSliceAdditionalSpecFns;

verus! {

/// The two kinds of archive, each with a key table and a magic signature of
/// its own.
#[derive(Clone, Copy, Debug, PartialEq, Eq, Structural)]
pub enum Variant {
    /// `chara.par`.
    Chara,
    /// `chara2.par`.
    Chara2,
}

/// A definite value, or the plain statement that the input does not decide.
#[derive(Debug, PartialEq, Eq)]
pub enum Resolved<T> {
    /// The input decides.
    Definite(T),
    /// The input does not decide: somebody has to be asked.
    Ambiguous,
}

/// Why no variant could be looked for.
#[derive(Clone, Copy, Debug, PartialEq, Eq, Structural)]
pub enum SelectError {
    /// The buffer is shorter than a magic signature.
    MalformedInput,
}

/// Number of bytes in a magic signature.
pub const MAGIC_LEN: usize = 4;

/// The four bytes that an archive of variant `Chara` starts with.
pub const CHARA_MAGIC: [u8; MAGIC_LEN] = [0xAC, 0xC5, 0x8B, 0x99];

/// The four bytes that an archive of variant `Chara2` starts with.
pub const CHARA2_MAGIC: [u8; MAGIC_LEN] = [0x01, 0x6E, 0x58, 0xE4];

/// The bytes of `.decrypted.par`, the ending of a cleared archive's name.
pub const CLEARED_SUFFIX: [u8; 14] = [
    0x2E, 0x64, 0x65, 0x63, 0x72, 0x79, 0x70, 0x74, 0x65, 0x64, 0x2E, 0x70, 0x61, 0x72,
];

/// The bytes of `.par`, the ending of an archive's name.
pub const ARCHIVE_SUFFIX: [u8; 4] = [0x2E, 0x70, 0x61, 0x72];

/// The two key tables, one for each variant.
#[derive(Debug)]
pub struct KeySet {
    /// The key table of `Chara`.
    pub chara: KeyTable,
    /// The key table of `Chara2`.
    pub chara2: KeyTable,
}

/// The magic signature of `variant`.
pub open spec fn magic_of(variant: Variant) -> Seq<u8> {
    match variant {
        Variant::Chara => CHARA_MAGIC@,
        Variant::Chara2 => CHARA2_MAGIC@,
    }
}

/// The variant that the first bytes of `data` tell.
///
/// A `data` too short to hold a signature is malformed; one that starts
/// with neither signature is ambiguous.
pub open spec fn detect(data: Seq<u8>) -> Result<Resolved<Variant>, SelectError> {
    if data.len() < MAGIC_LEN {
        Err(SelectError::MalformedInput)
    } else if CHARA_MAGIC@.is_prefix_of(data) {
        Ok(Resolved::Definite(Variant::Chara))
    } else if CHARA2_MAGIC@.is_prefix_of(data) {
        Ok(Resolved::Definite(Variant::Chara2))
    } else {
        Ok(Resolved::Ambiguous)
    }
}

/// The direction that a file name, given by its bytes, hints at: a cleared
/// archive is to be obfuscated, any other archive to be cleared, and a name
/// with neither ending tells nothing.
pub open spec fn direction_hint(name: Seq<u8>) -> Resolved<Direction> {
    if CLEARED_SUFFIX@.is_suffix_of(name) {
        Resolved::Definite(Direction::ToObfuscated)
    } else if ARCHIVE_SUFFIX@.is_suffix_of(name) {
        Resolved::Definite(Direction::ToClear)
    } else {
        Resolved::Ambiguous
    }
}

/// Detection by the bytes themselves: a buffer of four bytes or more is of
/// variant `Chara` if it starts with `AC C5 8B 99`, of variant `Chara2` if
/// it starts with `01 6E 58 E4`, and ambiguous in every other case. No fifth
/// byte is looked at.
pub proof fn lemma_detect_by_magic(data: Seq<u8>)
    requires
        data.len() >= MAGIC_LEN,
    ensures
        data[0] == 0xAC && data[1] == 0xC5 && data[2] == 0x8B && data[3] == 0x99 ==> detect(data)
            == Ok::<Resolved<Variant>, SelectError>(Resolved::Definite(Variant::Chara)),
        data[0] == 0x01 && data[1] == 0x6E && data[2] == 0x58 && data[3] == 0xE4 ==> detect(data)
            == Ok::<Resolved<Variant>, SelectError>(Resolved::Definite(Variant::Chara2)),
        !(data[0] == 0xAC && data[1] == 0xC5 && data[2] == 0x8B && data[3] == 0x99) && !(data[0]
            == 0x01 && data[1] == 0x6E && data[2] == 0x58 && data[3] == 0xE4) ==> detect(data)
            == Ok::<Resolved<Variant>, SelectError>(Resolved::Ambiguous),
        detect(data) == detect(data.subrange(0, MAGIC_LEN as int)),
{
    let first = data.subrange(0, MAGIC_LEN as int);
    assert(first[0] == data[0] && first[1] == data[1] && first[2] == data[2] && first[3]
        == data[3]);
    assert(CHARA_MAGIC@ == first <==> data[0] == 0xAC && data[1] == 0xC5 && data[2] == 0x8B
        && data[3] == 0x99);
    assert(CHARA2_MAGIC@ == first <==> data[0] == 0x01 && data[1] == 0x6E && data[2] == 0x58
        && data[3] == 0xE4);
}

/// Tells whether `data` starts with `prefix`.
pub fn starts_with(data: &[u8], prefix: &[u8]) -> (yes: bool)
    ensures
        yes == prefix@.is_prefix_of(data@),
{
    let n = prefix.len();
    if data.len() < n {
        return false;
    }
    let mut i: usize = 0;
    while i < n
        invariant
            i <= n,
            n == prefix@.len(),
            n <= data@.len(),
            forall|j: int| 0 <= j < i ==> data@[j] == prefix@[j],
        decreases n - i,
    {
        if data[i] != prefix[i] {
            return false;
        }
        i += 1;
    }
    true
}

/// Tells whether `data` ends with `suffix`.
pub fn ends_with(data: &[u8], suffix: &[u8]) -> (yes: bool)
    ensures
        yes == suffix@.is_suffix_of(data@),
{
    let n = suffix.len();
    if data.len() < n {
        return false;
    }
    let from = data.len() - n;
    let mut i: usize = 0;
    while i < n
        invariant
            i <= n,
            n == suffix@.len(),
            from + n == data.len(),
            forall|j: int| 0 <= j < i ==> data@[from + j] == suffix@[j],
        decreases n - i,
    {
        if data[from + i] != suffix[i] {
            return false;
        }
        i += 1;
    }
    true
}

impl Direction {
    /// The direction that stands at place `index` of a menu of the two:
    /// obfuscating first, clearing second. No other place holds one.
    pub open spec fn spec_from_index(index: usize) -> Option<Direction> {
        if index == 0 {
            Some(Direction::ToObfuscated)
        } else if index == 1 {
            Some(Direction::ToClear)
        } else {
            None
        }
    }

    /// The direction that was picked from a menu of the two, by its place.
    #[verifier::when_used_as_spec(spec_from_index)]
    pub fn from_index(index: usize) -> (picked: Option<Direction>)
        ensures
            picked == Direction::spec_from_index(index),
    {
        if index == 0 {
            Some(Direction::ToObfuscated)
        } else if index == 1 {
            Some(Direction::ToClear)
        } else {
            None
        }
    }

    /// The name of this direction on a menu.
    pub fn label(self) -> (label: &'static str)
        ensures
            label@ == match self {
                Direction::ToObfuscated => "Encrypt"@,
                Direction::ToClear => "Decrypt"@,
            },
    {
        match self {
            Direction::ToObfuscated => "Encrypt",
            Direction::ToClear => "Decrypt",
        }
    }

    /// The extension that the output of this direction goes by: a cleared
    /// archive is a `decrypted.par`, an obfuscated one a `par`.
    pub fn output_extension(self) -> (extension: &'static str)
        ensures
            extension@ == match self {
                Direction::ToClear => "decrypted.par"@,
                Direction::ToObfuscated => "par"@,
            },
    {
        match self {
            Direction::ToClear => "decrypted.par",
            Direction::ToObfuscated => "par",
        }
    }
}

impl Variant {
    /// The variant that stands at place `index` of a menu of the two:
    /// `Chara` first, `Chara2` second. No other place holds one.
    pub open spec fn spec_from_index(index: usize) -> Option<Variant> {
        if index == 0 {
            Some(Variant::Chara)
        } else if index == 1 {
            Some(Variant::Chara2)
        } else {
            None
        }
    }

    /// The variant that was picked from a menu of the two, by its place.
    #[verifier::when_used_as_spec(spec_from_index)]
    pub fn from_index(index: usize) -> (picked: Option<Variant>)
        ensures
            picked == Variant::spec_from_index(index),
    {
        if index == 0 {
            Some(Variant::Chara)
        } else if index == 1 {
            Some(Variant::Chara2)
        } else {
            None
        }
    }

    /// The name of this variant on a menu: that of its archive.
    pub fn label(self) -> (label: &'static str)
        ensures
            label@ == match self {
                Variant::Chara => "chara.par"@,
                Variant::Chara2 => "chara2.par"@,
            },
    {
        match self {
            Variant::Chara => "chara.par",
            Variant::Chara2 => "chara2.par",
        }
    }

    /// The magic signature of this variant.
    pub fn magic(self) -> (magic: [u8; MAGIC_LEN])
        ensures
            magic@ == magic_of(self),
    {
        match self {
            Variant::Chara => CHARA_MAGIC,
            Variant::Chara2 => CHARA2_MAGIC,
        }
    }
}

impl KeySet {
    /// The key table of `variant`.
    pub open spec fn spec_key(self, variant: Variant) -> KeyTable {
        match variant {
            Variant::Chara => self.chara,
            Variant::Chara2 => self.chara2,
        }
    }

    /// The key table of `variant`.
    pub fn key(&self, variant: Variant) -> (key: &KeyTable)
        ensures
            *key == self.spec_key(variant),
    {
        match variant {
            Variant::Chara => &self.chara,
            Variant::Chara2 => &self.chara2,
        }
    }
}

/// Tells the variant of an archive from its first four bytes.
pub fn detect_variant(data: &[u8]) -> (found: Result<Resolved<Variant>, SelectError>)
    ensures
        found == detect(data@),
{
    if data.len() < MAGIC_LEN {
        Err(SelectError::MalformedInput)
    } else if starts_with(data, CHARA_MAGIC.as_slice()) {
        Ok(Resolved::Definite(Variant::Chara))
    } else if starts_with(data, CHARA2_MAGIC.as_slice()) {
        Ok(Resolved::Definite(Variant::Chara2))
    } else {
        Ok(Resolved::Ambiguous)
    }
}

/// Picks the key table for an archive by its first four bytes.
pub fn select_key<'a>(data: &[u8], keys: &'a KeySet) -> (found: Result<
    Resolved<&'a KeyTable>,
    SelectError,
>)
    ensures
        found == match detect(data@) {
            Ok(Resolved::Definite(variant)) => Ok(Resolved::Definite(&keys.spec_key(variant))),
            Ok(Resolved::Ambiguous) => Ok(Resolved::Ambiguous),
            Err(e) => Err(e),
        },
{
    match detect_variant(data) {
        Ok(Resolved::Definite(variant)) => Ok(Resolved::Definite(keys.key(variant))),
        Ok(Resolved::Ambiguous) => Ok(Resolved::Ambiguous),
        Err(e) => Err(e),
    }
}

/// The direction that a file's name hints at: a name that ends in
/// `.decrypted.par` asks for obfuscation, another that ends in `.par` for
/// clearing. No other name decides.
pub fn direction_from_name(name: &str) -> (found: Resolved<Direction>)
    ensures
        found == direction_hint(name.spec_bytes()),
{
    let bytes = name.as_bytes();
    if ends_with(bytes, CLEARED_SUFFIX.as_slice()) {
        Resolved::Definite(Direction::ToObfuscated)
    } else if ends_with(bytes, ARCHIVE_SUFFIX.as_slice()) {
        Resolved::Definite(Direction::ToClear)
    } else {
        Resolved::Ambiguous
    }
}

} // verus!
