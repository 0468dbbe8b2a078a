//! Encoding and decoding of whole envelopes: pack, seal, frame, and back.
use vstd::prelude::*;
use vstd::utf8::encode_utf8;
use crate::{EncodeFlags, GqgError};
use crate::keys::{PublicKey, SecretKey, PUBLIC_KEY_LEN, NONCE_LEN, nonce_from_slice};
use crate::outside::{small_order, public_key_of, sealed_box, opened_box, derive_public_key, box_seal, box_open, random_nonce};
use crate::framer::{frame_text, unframe_text, printable_envelope, frame, unframe};
use crate::packer::{valid_file_name, pack_bytes, unpack_bytes, validate_file_name, pack, unpack};
use crate::seqs::{copy_range, append_all};
use crate::text::{strip_white_space, remove_whitespace, chars_of, string_of};

verus! {

/// What an envelope holds: a message, or a file with its name.
pub enum Type<'a> {
    Message,
    File { file_name: &'a String },
}

/// The contents recovered from an envelope.
#[derive(PartialEq, Eq, Debug, Clone)]
pub enum DecodedData {
    Message { contents: Vec<u8> },
    File { file_name: String, contents: Vec<u8> },
}

/// The sender's public key and the contents recovered from an envelope.
#[derive(PartialEq, Eq, Debug, Clone)]
pub struct Decoded {
    pub sender: PublicKey,
    pub data: DecodedData,
}

/// A decoded envelope as values: the sender's key, the file name of a file, the contents.
pub struct DecodedView {
    pub sender: Seq<u8>,
    pub file_name: Option<Seq<char>>,
    pub contents: Seq<u8>,
}

impl View for Decoded {
    type V = DecodedView;

    open spec fn view(&self) -> DecodedView {
        match self.data {
            DecodedData::Message { contents } => DecodedView {
                sender: self.sender.bytes@,
                file_name: None,
                contents: contents@,
            },
            DecodedData::File { file_name, contents } => DecodedView {
                sender: self.sender.bytes@,
                file_name: Some(file_name@),
                contents: contents@,
            },
        }
    }
}

/// The UTF-8 bytes of the file name that travels with a file, `None` for a message.
pub open spec fn name_bytes_of(typ: Type) -> Option<Seq<u8>> {
    match typ {
        Type::Message => None,
        Type::File { file_name } => Some(encode_utf8(file_name@)),
    }
}

/// The variant is a file whose name may not travel in an envelope.
pub open spec fn bad_file_name(typ: Type) -> bool {
    match typ {
        Type::Message => false,
        Type::File { file_name } => !valid_file_name(encode_utf8(file_name@)),
    }
}

/// The raw bytes under the base64 layer: sender key, nonce, sealed plaintext.
pub open spec fn sealed_payload(
    sk: Seq<u8>,
    to: Seq<u8>,
    name: Option<Seq<u8>>,
    compressed: bool,
    data: Seq<u8>,
    nonce: Seq<u8>,
) -> Seq<u8> {
    public_key_of(sk) + nonce + sealed_box(pack_bytes(name, compressed, data), nonce, to, sk)
}

/// The envelope text from secret key `sk` to public key `to` with the given nonce.
pub open spec fn envelope_text(
    sk: Seq<u8>,
    to: Seq<u8>,
    is_file: bool,
    name: Option<Seq<u8>>,
    compressed: bool,
    data: Seq<u8>,
    nonce: Seq<u8>,
) -> Seq<char> {
    frame_text(is_file, sealed_payload(sk, to, name, compressed, data, nonce))
}

/// `s` is an envelope from secret key `sk` to public key `to` with the given nonce: printable,
/// carrying the sender's public key, the nonce and a sealed part 16 bytes longer than the
/// plaintext, which is the box of the plaintext where `to` is not of small order.
pub open spec fn sealed_envelope(
    s: Seq<char>,
    sk: Seq<u8>,
    to: Seq<u8>,
    typ: Type,
    flags: EncodeFlags,
    data: Seq<u8>,
    nonce: Seq<u8>,
) -> bool {
    let is_file = typ is File;
    let name = name_bytes_of(typ);
    let compressed = flags == EncodeFlags::Compressed;
    &&& printable_envelope(s, is_file)
    &&& exists|c: Seq<u8>|
        c.len() == pack_bytes(name, compressed, data).len() + 16
            && s == #[trigger] frame_text(is_file, public_key_of(sk) + nonce + c)
    &&& !small_order(to) ==> s == envelope_text(sk, to, is_file, name, compressed, data, nonce)
}

/// What decoding the raw bytes under the base64 layer gives to the holder of `sk`.
pub open spec fn decode_payload(sk: Seq<u8>, is_file: bool, raw: Seq<u8>) -> Result<DecodedView, GqgError> {
    if raw.len() < PUBLIC_KEY_LEN + NONCE_LEN {
        Err(GqgError::InvalidOuterEncoding)
    } else {
        let sender = raw.subrange(0, PUBLIC_KEY_LEN as int);
        let nonce = raw.subrange(PUBLIC_KEY_LEN as int, (PUBLIC_KEY_LEN + NONCE_LEN) as int);
        match opened_box(raw.skip((PUBLIC_KEY_LEN + NONCE_LEN) as int), nonce, sender, sk) {
            None => Err(GqgError::AuthFailure),
            Some(plain) => match unpack_bytes(is_file, plain) {
                Ok((file_name, contents)) => Ok(DecodedView { sender, file_name, contents }),
                Err(e) => Err(e),
            },
        }
    }
}

/// What decoding envelope text gives to the holder of `sk`.
pub open spec fn decode_text(sk: Seq<u8>, s: Seq<char>) -> Result<DecodedView, GqgError> {
    match unframe_text(strip_white_space(s)) {
        Ok((is_file, raw)) => decode_payload(sk, is_file, raw),
        Err(e) => Err(e),
    }
}

/// Encodes `data` from the holder of `from` to the holder of the secret key behind `to`,
/// with a nonce chosen by the caller.
pub fn encode_with_nonce(
    from: &SecretKey,
    to: &PublicKey,
    typ: Type,
    flags: EncodeFlags,
    data: &[u8],
    nonce: &[u8; NONCE_LEN],
) -> (r: Result<String, GqgError>)
    ensures
        bad_file_name(typ) ==> r == Err::<String, GqgError>(GqgError::InvalidFileName),
        !bad_file_name(typ) ==> r is Ok && sealed_envelope(
            r->Ok_0@,
            from.bytes@,
            to.bytes@,
            typ,
            flags,
            data@,
            nonce@,
        ),
{
    let is_file: bool;
    let plain = match typ {
        Type::Message => {
            is_file = false;
            pack(None, flags, data)
        },
        Type::File { file_name } => {
            if !validate_file_name(file_name.as_str()) {
                return Err(GqgError::InvalidFileName);
            }
            is_file = true;
            pack(Some(file_name.as_str().as_bytes()), flags, data)
        },
    };
    let sender = derive_public_key(from);
    let mut raw: Vec<u8> = Vec::new();
    append_all(&mut raw, sender.bytes.as_slice());
    append_all(&mut raw, nonce.as_slice());
    let sealed = box_seal(plain.as_slice(), nonce, to, from);
    append_all(&mut raw, sealed.as_slice());
    let text = frame(is_file, raw.as_slice());
    let r = string_of(text.as_slice());
    assert(raw@ == public_key_of(from.bytes@) + nonce@ + sealed@);
    assert(r@ == frame_text(is_file, public_key_of(from.bytes@) + nonce@ + sealed@));
    Ok(r)
}

/// Encodes `data` from the holder of `from` to the holder of the secret key behind `to`,
/// under a fresh random nonce.
pub fn encode(from: &SecretKey, to: &PublicKey, typ: Type, flags: EncodeFlags, data: &[u8]) -> (r: Result<String, GqgError>)
    ensures
        bad_file_name(typ) ==> r == Err::<String, GqgError>(GqgError::InvalidFileName),
        !bad_file_name(typ) ==> r is Ok && exists|nonce: Seq<u8>|
            nonce.len() == NONCE_LEN && #[trigger] sealed_envelope(
                r->Ok_0@,
                from.bytes@,
                to.bytes@,
                typ,
                flags,
                data@,
                nonce,
            ),
{
    match typ {
        Type::File { file_name } => {
            if !validate_file_name(file_name.as_str()) {
                return Err(GqgError::InvalidFileName);
            }
        },
        Type::Message => {},
    }
    let nonce = random_nonce();
    encode_with_nonce(from, to, typ, flags, data, &nonce)
}

/// Decodes envelope text addressed to the holder of `myself`; white space in the text is
/// ignored.
pub fn decode(myself: &SecretKey, payload: String) -> (r: Result<Decoded, GqgError>)
    ensures
        match r {
            Ok(d) => decode_text(myself.bytes@, payload@) == Ok::<DecodedView, GqgError>(d@),
            Err(e) => decode_text(myself.bytes@, payload@) == Err::<DecodedView, GqgError>(e),
        },
{
    let mut payload = payload;
    remove_whitespace(&mut payload);
    let chars = chars_of(payload.as_str());
    let (is_file, raw) = match unframe(chars.as_slice()) {
        Ok(v) => v,
        Err(e) => {
            return Err(e);
        },
    };
    if raw.len() < PUBLIC_KEY_LEN + NONCE_LEN {
        return Err(GqgError::InvalidOuterEncoding);
    }
    let sender_bytes = copy_range(raw.as_slice(), 0, PUBLIC_KEY_LEN);
    let sender = PublicKey::from_slice(sender_bytes.as_slice());
    let nonce_bytes = copy_range(raw.as_slice(), PUBLIC_KEY_LEN, PUBLIC_KEY_LEN + NONCE_LEN);
    let nonce = nonce_from_slice(nonce_bytes.as_slice());
    let sealed = copy_range(raw.as_slice(), PUBLIC_KEY_LEN + NONCE_LEN, raw.len());
    assert(sealed@ == raw@.skip((PUBLIC_KEY_LEN + NONCE_LEN) as int));
    let plain = match box_open(sealed.as_slice(), &nonce, &sender.bytes, myself) {
        Some(p) => p,
        None => {
            return Err(GqgError::AuthFailure);
        },
    };
    let (name, contents) = match unpack(is_file, plain.as_slice()) {
        Ok(v) => v,
        Err(e) => {
            return Err(e);
        },
    };
    let data = match name {
        Some(file_name) => DecodedData::File { file_name, contents },
        None => DecodedData::Message { contents },
    };
    Ok(Decoded { sender, data })
}

} // verus!
