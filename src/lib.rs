//! Authenticated, optionally compressed envelopes for messages and files exchanged between
//! holders of Curve25519 key pairs.
use vstd::prelude::*;

pub mod keys;
pub mod outside;
pub mod seqs;
pub mod text;
pub mod framer;
pub mod packer;
pub mod codec;
pub mod laws;
pub mod database;

pub use keys::{PublicKey, SecretKey};
pub use text::remove_whitespace;
pub use codec::{Type, Decoded, DecodedData, encode, decode, encode_with_nonce};
pub use packer::validate_file_name;

verus! {

/// The kinds of failure that encoding and decoding report.
#[derive(PartialEq, Eq, Debug, Clone, Copy, Structural)]
pub enum GqgError {
    InvalidOuterEncoding,
    InvalidInnerEncoding,
    InvalidFileName,
    AuthFailure,
    DecompressFailure,
}

/// Whether the body is stored as it is or compressed.
#[derive(PartialEq, Eq, Debug, Clone, Copy, Structural)]
pub enum EncodeFlags {
    Raw,
    Compressed,
}

} // verus!
