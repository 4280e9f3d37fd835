//! Verification of file sets against a manifest of expected MD5 digests.
//!
//! A manifest is a line-oriented text file in which each entry names a file
//! together with the lowercase hexadecimal digest its content is expected to
//! have.  The crate parses such manifests into a work list, computes streaming
//! digests block by block, classifies every entry as correct, incorrect or
//! failed, keeps shared aggregate counts for observers, and reports outcomes
//! over a channel as they happen.

pub mod hash_pair;
pub mod digest;
pub mod manifest;
pub mod status;
pub mod engine;

use vstd::prelude::*;

verus! {

/// A single lowercase hexadecimal digit, as digests and manifests use them.
pub open spec fn is_lower_hex_digit(c: char) -> bool {
    ('0' <= c && c <= '9') || ('a' <= c && c <= 'f')
}

} // verus!
