//! Key material of the Curve25519 box construction, held as plain bytes.
use vstd::prelude::*;

verus! {

/// Length in bytes of a public key.
pub const PUBLIC_KEY_LEN: usize = 32;

/// Length in bytes of a secret key.
pub const SECRET_KEY_LEN: usize = 32;

/// Length in bytes of a nonce.
pub const NONCE_LEN: usize = 24;

/// A public key of the box construction.
#[derive(Clone, Copy, PartialEq, Eq, Debug)]
pub struct PublicKey {
    pub bytes: [u8; PUBLIC_KEY_LEN],
}

/// A secret key of the box construction.
#[derive(Clone, Copy, PartialEq, Eq, Debug)]
pub struct SecretKey {
    pub bytes: [u8; SECRET_KEY_LEN],
}

impl PublicKey {
    /// The public key with the given bytes.
    pub fn from_slice(b: &[u8]) -> (r: PublicKey)
        requires
            b@.len() == PUBLIC_KEY_LEN,
        ensures
            r.bytes@ == b@,
    {
        let mut bytes = [0u8; PUBLIC_KEY_LEN];
        let mut i: usize = 0;
        while i < PUBLIC_KEY_LEN
            invariant
                i <= PUBLIC_KEY_LEN,
                b@.len() == PUBLIC_KEY_LEN,
                forall|j: int| 0 <= j < i ==> bytes@[j] == b@[j],
            decreases PUBLIC_KEY_LEN - i,
        {
            bytes[i] = b[i];
            i = i + 1;
        }
        assert(bytes@ =~= b@);
        PublicKey { bytes }
    }
}

impl SecretKey {
    /// The secret key with the given bytes.
    pub fn from_slice(b: &[u8]) -> (r: SecretKey)
        requires
            b@.len() == SECRET_KEY_LEN,
        ensures
            r.bytes@ == b@,
    {
        let mut bytes = [0u8; SECRET_KEY_LEN];
        let mut i: usize = 0;
        while i < SECRET_KEY_LEN
            invariant
                i <= SECRET_KEY_LEN,
                b@.len() == SECRET_KEY_LEN,
                forall|j: int| 0 <= j < i ==> bytes@[j] == b@[j],
            decreases SECRET_KEY_LEN - i,
        {
            bytes[i] = b[i];
            i = i + 1;
        }
        assert(bytes@ =~= b@);
        SecretKey { bytes }
    }
}

/// The nonce with the given bytes.
pub fn nonce_from_slice(b: &[u8]) -> (r: [u8; NONCE_LEN])
    requires
        b@.len() == NONCE_LEN,
    ensures
        r@ == b@,
{
    let mut bytes = [0u8; NONCE_LEN];
    let mut i: usize = 0;
    while i < NONCE_LEN
        invariant
            i <= NONCE_LEN,
            b@.len() == NONCE_LEN,
            forall|j: int| 0 <= j < i ==> bytes@[j] == b@[j],
        decreases NONCE_LEN - i,
    {
        bytes[i] = b[i];
        i = i + 1;
    }
    assert(bytes@ =~= b@);
    bytes
}

} // verus!
