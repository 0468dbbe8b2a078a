//! The plaintext inside an envelope: an optional file name ended by a zero byte, a
//! compression tag, and the body.
use vstd::prelude::*;
use vstd::utf8::{valid_utf8, decode_utf8};
use vstd::string::StringSliceAdditionalSpecFns;
use crate::{EncodeFlags, GqgError};
use crate::outside::{lz4_of, lz4_decompressed, lz4_compress, lz4_decompress};
use crate::seqs::{copy_range, append_all};
use crate::text::utf8_text;

verus! {

/// Longest file name, in bytes.
pub const MAX_FILE_NAME_LEN: usize = 32;

/// Tag byte of a body stored as it is.
pub const TAG_RAW: u8 = 0;

/// Tag byte of a compressed body.
pub const TAG_COMPRESSED: u8 = 1;

/// A file name (as UTF-8 bytes) that may travel in an envelope: 1 to 32 bytes, no `/` or
/// `\`, and no `..`.
pub open spec fn valid_file_name(b: Seq<u8>) -> bool {
    &&& 1 <= b.len() <= MAX_FILE_NAME_LEN
    &&& forall|i: int| 0 <= i < b.len() ==> b[i] != 47u8 && b[i] != 92u8
    &&& forall|i: int| 0 <= i < b.len() - 1 ==> !(#[trigger] b[i] == 46u8 && b[i + 1] == 46u8)
}

/// The plaintext for an optional file name, a compression choice and a body.
pub open spec fn pack_bytes(name: Option<Seq<u8>>, compressed: bool, data: Seq<u8>) -> Seq<u8> {
    let head = match name {
        Some(n) => n.push(0u8),
        None => Seq::<u8>::empty(),
    };
    if compressed {
        head + seq![TAG_COMPRESSED] + lz4_of(data)
    } else {
        head + seq![TAG_RAW] + data
    }
}

/// `k` is the position of the first zero byte of `p`.
pub open spec fn is_first_zero(p: Seq<u8>, k: int) -> bool {
    0 <= k < p.len() && p[k] == 0 && forall|j: int| 0 <= j < k ==> p[j] != 0
}

/// The body that the bytes after a file name stand for: a tag byte and what follows it.
pub open spec fn unpack_body(rest: Seq<u8>) -> Result<Seq<u8>, GqgError> {
    if rest.len() == 0 {
        Err(GqgError::InvalidInnerEncoding)
    } else if rest[0] == TAG_RAW {
        Ok(rest.skip(1))
    } else if rest[0] == TAG_COMPRESSED {
        match lz4_decompressed(rest.skip(1)) {
            Some(d) => Ok(d),
            None => Err(GqgError::DecompressFailure),
        }
    } else {
        Err(GqgError::InvalidInnerEncoding)
    }
}

/// The file name (for a file) and the body that a plaintext stands for.
pub open spec fn unpack_bytes(is_file: bool, p: Seq<u8>) -> Result<(Option<Seq<char>>, Seq<u8>), GqgError> {
    if !is_file {
        match unpack_body(p) {
            Ok(d) => Ok((None, d)),
            Err(e) => Err(e),
        }
    } else if !(exists|k: int| is_first_zero(p, k)) {
        Err(GqgError::InvalidOuterEncoding)
    } else {
        let k = choose|k: int| is_first_zero(p, k);
        let name = p.subrange(0, k);
        if !valid_utf8(name) || !valid_file_name(name) {
            Err(GqgError::InvalidFileName)
        } else {
            match unpack_body(p.skip(k + 1)) {
                Ok(d) => Ok((Some(decode_utf8(name)), d)),
                Err(e) => Err(e),
            }
        }
    }
}

/// Tests whether a file name may travel in an envelope.
pub fn validate_file_name(file_name: &str) -> (r: bool)
    ensures
        r == valid_file_name(file_name.spec_bytes()),
{
    let b = file_name.as_bytes();
    valid_name_bytes(b)
}

/// Tests whether UTF-8 bytes form a file name that may travel in an envelope.
pub fn valid_name_bytes(b: &[u8]) -> (r: bool)
    ensures
        r == valid_file_name(b@),
{
    if b.len() > MAX_FILE_NAME_LEN || b.len() == 0 {
        return false;
    }
    let mut i: usize = 0;
    while i < b.len()
        invariant
            i <= b@.len(),
            forall|j: int| 0 <= j < i ==> b@[j] != 47u8 && b@[j] != 92u8,
            forall|j: int| 0 <= j < i && j < b@.len() - 1 ==> !(#[trigger] b@[j] == 46u8 && b@[j + 1] == 46u8),
        decreases b@.len() - i,
    {
        if b[i] == 47u8 || b[i] == 92u8 {
            return false;
        }
        if i + 1 < b.len() && b[i] == 46u8 && b[i + 1] == 46u8 {
            return false;
        }
        i = i + 1;
    }
    true
}

/// Builds the plaintext for an optional (already checked) file name, a compression choice
/// and a body.
pub fn pack(name: Option<&[u8]>, flags: EncodeFlags, data: &[u8]) -> (r: Vec<u8>)
    ensures
        r@ == pack_bytes(
            match name {
                Some(n) => Some(n@),
                None => None,
            },
            flags == EncodeFlags::Compressed,
            data@,
        ),
{
    let mut out: Vec<u8> = Vec::new();
    match name {
        Some(n) => {
            append_all(&mut out, n);
            out.push(0u8);
        },
        None => {},
    }
    match flags {
        EncodeFlags::Raw => {
            out.push(TAG_RAW);
            append_all(&mut out, data);
        },
        EncodeFlags::Compressed => {
            out.push(TAG_COMPRESSED);
            let c = lz4_compress(data);
            append_all(&mut out, c.as_slice());
        },
    }
    out
}

/// Reads the body out of the bytes that follow the file name.
pub fn unpack_tagged(rest: &[u8]) -> (r: Result<Vec<u8>, GqgError>)
    ensures
        match r {
            Ok(d) => unpack_body(rest@) == Ok::<Seq<u8>, GqgError>(d@),
            Err(e) => unpack_body(rest@) == Err::<Seq<u8>, GqgError>(e),
        },
{
    if rest.len() == 0 {
        return Err(GqgError::InvalidInnerEncoding);
    }
    let body = copy_range(rest, 1, rest.len());
    assert(body@ == rest@.skip(1));
    if rest[0] == TAG_RAW {
        Ok(body)
    } else if rest[0] == TAG_COMPRESSED {
        match lz4_decompress(body.as_slice()) {
            Some(d) => Ok(d),
            None => Err(GqgError::DecompressFailure),
        }
    } else {
        Err(GqgError::InvalidInnerEncoding)
    }
}

/// Reads the file name (for a file) and the body out of a plaintext.
pub fn unpack(is_file: bool, p: &[u8]) -> (r: Result<(Option<String>, Vec<u8>), GqgError>)
    ensures
        match r {
            Ok((name, d)) => unpack_bytes(is_file, p@) == Ok::<(Option<Seq<char>>, Seq<u8>), GqgError>((
                match name {
                    Some(t) => Some(t@),
                    None => None,
                },
                d@,
            )),
            Err(e) => unpack_bytes(is_file, p@) == Err::<(Option<Seq<char>>, Seq<u8>), GqgError>(e),
        },
{
    if !is_file {
        return match unpack_tagged(p) {
            Ok(d) => Ok((None, d)),
            Err(e) => Err(e),
        };
    }
    let mut k: usize = 0;
    while k < p.len() && p[k] != 0u8
        invariant
            k <= p@.len(),
            forall|j: int| 0 <= j < k ==> p@[j] != 0,
        decreases p@.len() - k,
    {
        k = k + 1;
    }
    if k == p.len() {
        assert(!(exists|k: int| is_first_zero(p@, k)));
        return Err(GqgError::InvalidOuterEncoding);
    }
    assert(is_first_zero(p@, k as int));
    proof {
        let c = choose|c: int| is_first_zero(p@, c);
        assert(c == k as int) by {
            if c < k as int {
                assert(p@[c] != 0);
            } else if c > k as int {
                assert(p@[k as int] != 0);
            }
        }
    }
    let name_bytes = copy_range(p, 0, k);
    let name = match utf8_text(name_bytes.as_slice()) {
        Some(t) => t,
        None => {
            return Err(GqgError::InvalidFileName);
        },
    };
    if !valid_name_bytes(name_bytes.as_slice()) {
        return Err(GqgError::InvalidFileName);
    }
    let rest = copy_range(p, k + 1, p.len());
    assert(rest@ == p@.skip(k + 1));
    match unpack_tagged(rest.as_slice()) {
        Ok(d) => Ok((Some(name), d)),
        Err(e) => Err(e),
    }
}

} // verus!
