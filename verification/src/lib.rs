//! Reversible byte transform for `chara.par` archives: cyclic XOR against a
//! fixed 512-byte key table, zero padding to whole 8-byte words, and a
//! per-word bit rotation whose amount follows the word's index.
//!
//! - [`word`]: rotation of a 64-bit word and its little-endian bytes.
//! - [`key`]: the key table.
//! - [`transform`]: the three transforms and the two pipelines made of them.
//! - [`roundtrip`]: what the transforms undo, proved.
//! - [`select`]: telling the variant by magic bytes and the direction by name.
//! - [`job`]: a pipeline run in steps, for progress reports.

pub mod job;
pub mod key;
pub mod roundtrip;
pub mod select;
pub mod transform;
pub mod word;
