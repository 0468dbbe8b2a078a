//! Calls into base64, lz4-compress and sodiumoxide, with the contracts that
//! the rest of the library relies on.
use vstd::prelude::*;
use crate::keys::{PublicKey, SecretKey, PUBLIC_KEY_LEN, NONCE_LEN};

verus! {

/// A character of the standard base64 alphabet, padding included.
pub open spec fn is_base64_char(c: char) -> bool {
    ('A' <= c && c <= 'Z') || ('a' <= c && c <= 'z') || ('0' <= c && c <= '9') || c == '+'
        || c == '/' || c == '='
}

/// The standard base64 text (with padding) of a byte sequence.
pub uninterp spec fn base64_of(b: Seq<u8>) -> Seq<char>;

/// What standard base64 decoding gives for a text, or `None` where it is rejected.
pub uninterp spec fn base64_decoded(s: Seq<char>) -> Option<Seq<u8>>;

/// The lz4 block that lz4-compress produces for a byte sequence.
pub uninterp spec fn lz4_of(b: Seq<u8>) -> Seq<u8>;

/// What lz4-compress decompresses a block to, or `None` where the block is malformed.
pub uninterp spec fn lz4_decompressed(b: Seq<u8>) -> Option<Seq<u8>>;

/// The Curve25519 public key that belongs to a secret key.
pub uninterp spec fn public_key_of(sk: Seq<u8>) -> Seq<u8>;

/// The authenticated ciphertext of `m` under nonce `n`, from the holder of secret key `sk`
/// to the holder of the secret key that belongs to `pk`.
pub uninterp spec fn sealed_box(m: Seq<u8>, n: Seq<u8>, pk: Seq<u8>, sk: Seq<u8>) -> Seq<u8>;

/// The plaintext of ciphertext `c` under nonce `n`, sent by the holder of the secret key that
/// belongs to `pk` to the holder of `sk`; `None` where authentication fails.
pub uninterp spec fn opened_box(c: Seq<u8>, n: Seq<u8>, pk: Seq<u8>, sk: Seq<u8>) -> Option<Seq<u8>>;

/// Relies on base64::encode (standard alphabet, padded): the text depends on the bytes alone
/// and uses only the base64 alphabet.
#[verifier::external_body]
pub(crate) fn base64_encode(b: &[u8]) -> (r: Vec<char>)
    ensures
        r@ == base64_of(b@),
        forall|i: int| 0 <= i < r@.len() ==> is_base64_char(#[trigger] r@[i]),
{
    base64::encode(b).chars().collect()
}

/// Relies on base64::decode (standard alphabet, padded): the result depends on the text alone.
#[verifier::external_body]
pub(crate) fn base64_decode(s: &[char]) -> (r: Option<Vec<u8>>)
    ensures
        match r {
            Some(v) => base64_decoded(s@) == Some(v@),
            None => base64_decoded(s@) is None,
        },
{
    let text: String = s.iter().collect();
    base64::decode(text).ok()
}

/// Relies on lz4_compress::compress: the block depends on the input alone.
#[verifier::external_body]
pub(crate) fn lz4_compress(b: &[u8]) -> (r: Vec<u8>)
    ensures
        r@ == lz4_of(b@),
{
    lz4_compress::compress(b)
}

/// Relies on lz4_compress::decompress, which reports a malformed block as an error and
/// depends on the input alone.
#[verifier::external_body]
pub(crate) fn lz4_decompress(b: &[u8]) -> (r: Option<Vec<u8>>)
    ensures
        match r {
            Some(v) => lz4_decompressed(b@) == Some(v@),
            None => lz4_decompressed(b@) is None,
        },
{
    lz4_compress::decompress(b).ok()
}

/// Relies on sodiumoxide's box_::gen_nonce, which draws a nonce from a secure random source.
#[verifier::external_body]
pub(crate) fn random_nonce() -> (r: [u8; NONCE_LEN]) {
    sodiumoxide::crypto::box_::gen_nonce().0
}

/// Relies on sodiumoxide's box_::gen_keypair, which draws a secret key at random.
#[verifier::external_body]
pub(crate) fn random_secret_key() -> (r: SecretKey) {
    SecretKey { bytes: (sodiumoxide::crypto::box_::gen_keypair().1).0 }
}

/// Relies on sodiumoxide's box_::SecretKey::public_key: the public key depends on the
/// secret key alone.
#[verifier::external_body]
pub(crate) fn derive_public_key(sk: &SecretKey) -> (r: PublicKey)
    ensures
        r.bytes@ == public_key_of(sk.bytes@),
{
    PublicKey { bytes: sodiumoxide::crypto::box_::SecretKey(sk.bytes).public_key().0 }
}

/// The first 31 bytes of `pk` are those of `q`, and so is its last byte once the top bit,
/// which Curve25519 ignores, is cleared.
pub open spec fn same_point_bytes(pk: Seq<u8>, q: Seq<u8>) -> bool {
    &&& forall|i: int| 0 <= i < 31 ==> pk[i] == q[i]
    &&& pk[31] & 0x7fu8 == q[31]
}

/// A public key of small order, which libsodium refuses in the key agreement (its
/// `has_small_order` list): 0, 1, the two points of order 8, and p - 1, p, p + 1.
pub open spec fn small_order(pk: Seq<u8>) -> bool {
    &&& pk.len() == PUBLIC_KEY_LEN
    &&& {
        ||| (pk[0] == 0u8 || pk[0] == 1u8) && (forall|i: int| 1 <= i < 31 ==> pk[i] == 0u8)
            && pk[31] & 0x7fu8 == 0u8
        ||| 0xecu8 <= pk[0] <= 0xeeu8 && (forall|i: int| 1 <= i < 31 ==> pk[i] == 0xffu8)
            && pk[31] & 0x7fu8 == 0x7fu8
        ||| same_point_bytes(pk, seq![
            0xe0u8, 0xeb, 0x7a, 0x7c, 0x3b, 0x41, 0xb8, 0xae, 0x16, 0x56, 0xe3, 0xfa, 0xf1, 0x9f,
            0xc4, 0x6a, 0xda, 0x09, 0x8d, 0xeb, 0x9c, 0x32, 0xb1, 0xfd, 0x86, 0x62, 0x05, 0x16,
            0x5f, 0x49, 0xb8, 0x00,
        ])
        ||| same_point_bytes(pk, seq![
            0x5fu8, 0x9c, 0x95, 0xbc, 0xa3, 0x50, 0x8c, 0x24, 0xb1, 0xd0, 0xb1, 0x55, 0x9c, 0x83,
            0xef, 0x5b, 0x04, 0x44, 0x5c, 0xc4, 0x58, 0x1c, 0x8e, 0x86, 0xd8, 0x22, 0x4e, 0xdd,
            0xd0, 0x9f, 0x11, 0x57,
        ])
    }
}

/// Relies on sodiumoxide's box_::seal: the result is the message's length plus a 16-byte
/// tag. Where the recipient key is not of small order the ciphertext depends on the four
/// arguments alone; for a small-order key libsodium writes nothing and the bytes are left
/// unspecified.
#[verifier::external_body]
pub(crate) fn box_seal(m: &[u8], n: &[u8; NONCE_LEN], pk: &PublicKey, sk: &SecretKey) -> (r: Vec<u8>)
    ensures
        !small_order(pk.bytes@) ==> r@ == sealed_box(m@, n@, pk.bytes@, sk.bytes@),
        r@.len() == m@.len() + 16,
{
    let nonce = sodiumoxide::crypto::box_::Nonce(*n);
    let pk = sodiumoxide::crypto::box_::PublicKey(pk.bytes);
    let sk = sodiumoxide::crypto::box_::SecretKey(sk.bytes);
    sodiumoxide::crypto::box_::seal(m, &nonce, &pk, &sk)
}

/// Relies on sodiumoxide's box_::open: it fails exactly where the tag does not verify, and
/// depends on its four arguments alone.
#[verifier::external_body]
pub(crate) fn box_open(c: &[u8], n: &[u8; NONCE_LEN], pk: &[u8; PUBLIC_KEY_LEN], sk: &SecretKey) -> (r: Option<Vec<u8>>)
    ensures
        match r {
            Some(v) => opened_box(c@, n@, pk@, sk.bytes@) == Some(v@),
            None => opened_box(c@, n@, pk@, sk.bytes@) is None,
        },
{
    let nonce = sodiumoxide::crypto::box_::Nonce(*n);
    let pk = sodiumoxide::crypto::box_::PublicKey(*pk);
    let sk = sodiumoxide::crypto::box_::SecretKey(sk.bytes);
    sodiumoxide::crypto::box_::open(c, &nonce, &pk, &sk).ok()
}

} // verus!
