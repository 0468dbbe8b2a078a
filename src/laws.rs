//! Laws of the envelope format, stated over the spec functions of the other modules.
use vstd::prelude::*;
use vstd::utf8::{encode_utf8, encode_utf8_valid_utf8, encode_utf8_decode_utf8};
use crate::GqgError;
use crate::keys::{PublicKey, SecretKey, PUBLIC_KEY_LEN, NONCE_LEN};
use crate::outside::{
    is_base64_char, base64_of, base64_decoded, lz4_of, lz4_decompressed, public_key_of,
    sealed_box, opened_box,
};
use crate::text::{is_white_space, strip_white_space};
use crate::framer::{HEADER_MESSAGE, HEADER_FILE, header_of, frame_text, unframe_text};
use crate::packer::{valid_file_name, pack_bytes, is_first_zero, unpack_body, unpack_bytes, TAG_RAW, TAG_COMPRESSED};
use crate::codec::{DecodedView, sealed_payload, envelope_text, decode_payload, decode_text};

verus! {

/// Base64 decoding gives back the bytes that were encoded.
pub open spec fn base64_inverts() -> bool {
    forall|b: Seq<u8>| #[trigger] base64_decoded(base64_of(b)) == Some(b)
}

/// Base64 text uses only the base64 alphabet.
pub open spec fn base64_alphabet_only() -> bool {
    forall|b: Seq<u8>, i: int| 0 <= i < base64_of(b).len() ==> is_base64_char(#[trigger] base64_of(b)[i])
}

/// Decompressing a compressed block gives back the bytes that were compressed.
pub open spec fn lz4_inverts() -> bool {
    forall|d: Seq<u8>| #[trigger] lz4_decompressed(lz4_of(d)) == Some(d)
}

/// Opening, with the recipient's secret key and the sender's public key, a box sealed with the
/// sender's secret key and the recipient's public key gives back the plaintext.
pub open spec fn box_inverts() -> bool {
    forall|m: Seq<u8>, n: Seq<u8>, a: Seq<u8>, b: Seq<u8>|
        #[trigger] opened_box(sealed_box(m, n, public_key_of(b), a), n, public_key_of(a), b) == Some(m)
}

proof fn lemma_filter_all<A>(s: Seq<A>, pred: spec_fn(A) -> bool)
    requires
        forall|i: int| 0 <= i < s.len() ==> pred(s[i]),
    ensures
        s.filter(pred) == s,
    decreases s.len(),
{
    reveal(Seq::filter);
    if s.len() > 0 {
        lemma_filter_all(s.drop_last(), pred);
        assert(s.drop_last().push(s.last()) == s);
    }
}

proof fn lemma_headers()
    ensures
        HEADER_MESSAGE@ == seq!['[', 'G', 'Q', 'G', '1', '-', 'M', 'E', 'S', 'S', 'A', 'G', 'E'],
        HEADER_FILE@ == seq!['[', 'G', 'Q', 'G', '1', '-', 'F', 'I', 'L', 'E'],
{
    reveal_strlit("[GQG1-MESSAGE");
    reveal_strlit("[GQG1-FILE");
    assert(HEADER_MESSAGE@ =~= seq!['[', 'G', 'Q', 'G', '1', '-', 'M', 'E', 'S', 'S', 'A', 'G', 'E']);
    assert(HEADER_FILE@ =~= seq!['[', 'G', 'Q', 'G', '1', '-', 'F', 'I', 'L', 'E']);
}

proof fn lemma_frame_no_white_space(is_file: bool, raw: Seq<u8>)
    requires
        base64_alphabet_only(),
    ensures
        strip_white_space(frame_text(is_file, raw)) == frame_text(is_file, raw),
{
    lemma_headers();
    let h = header_of(is_file);
    let b = base64_of(raw);
    let t = frame_text(is_file, raw);
    assert(t.len() == h.len() + b.len() + 2);
    assert forall|i: int| 0 <= i < t.len() implies !is_white_space(#[trigger] t[i]) by {
        if i < h.len() {
            assert(t[i] == h[i]);
        } else if i == h.len() {
            assert(t[i] == ':');
        } else if i < h.len() + 1 + b.len() {
            assert(t[i] == b[i - h.len() - 1]);
            assert(is_base64_char(b[i - h.len() - 1]));
        } else {
            assert(t[i] == ']');
        }
    }
    lemma_filter_all(t, |c: char| !is_white_space(c));
}

/// Envelope text holds no white space, and unframing it gives back its variant and raw bytes.
proof fn lemma_unframe_frame(is_file: bool, raw: Seq<u8>)
    requires
        base64_inverts(),
    ensures
        unframe_text(frame_text(is_file, raw)) == Ok::<(bool, Seq<u8>), GqgError>((is_file, raw)),
{
    lemma_headers();
    let h = header_of(is_file);
    let b = base64_of(raw);
    let t = frame_text(is_file, raw);
    assert(t.subrange(0, h.len() as int) =~= h);
    if is_file {
        assert(t[6] == 'F');
        if t.len() >= 13 {
            assert(t.subrange(0, 13)[6] == t[6]);
        }
        assert(!HEADER_MESSAGE@.is_prefix_of(t));
    }
    let rest = t.skip(h.len() as int);
    assert(rest =~= seq![':'] + b + seq![']']);
    assert(rest.subrange(1, rest.len() - 1) =~= b);
}

/// A plaintext built from a valid file name without zero bytes (or none), a compression
/// choice and a body is read back as that name and body.
pub proof fn lemma_pack_round_trip(name: Option<Seq<char>>, compressed: bool, data: Seq<u8>)
    requires
        lz4_inverts(),
        name matches Some(n) ==> valid_file_name(encode_utf8(n))
            && forall|i: int| 0 <= i < encode_utf8(n).len() ==> #[trigger] encode_utf8(n)[i] != 0u8,
    ensures
        unpack_bytes(
            name is Some,
            pack_bytes(
                match name {
                    Some(n) => Some(encode_utf8(n)),
                    None => None,
                },
                compressed,
                data,
            ),
        ) == Ok::<(Option<Seq<char>>, Seq<u8>), GqgError>((name, data)),
{
    let body = if compressed { lz4_of(data) } else { data };
    let tag = if compressed { TAG_COMPRESSED } else { TAG_RAW };
    let tail = seq![tag] + body;
    assert(tail.skip(1) =~= body);
    assert(unpack_body(tail) == Ok::<Seq<u8>, GqgError>(data));
    match name {
        None => {
            assert(pack_bytes(None, compressed, data) =~= tail);
        },
        Some(n) => {
            let nb = encode_utf8(n);
            let p = pack_bytes(Some(nb), compressed, data);
            assert(p =~= nb.push(0u8) + tail);
            let k = nb.len() as int;
            assert(is_first_zero(p, k));
            let c = choose|c: int| is_first_zero(p, c);
            assert(c == k) by {
                if c < k {
                    assert(p[c] == nb[c]);
                } else if c > k {
                    assert(p[k] == 0u8);
                }
            }
            assert(p.subrange(0, k) =~= nb);
            assert(p.skip(k + 1) =~= tail);
            encode_utf8_valid_utf8(n);
            encode_utf8_decode_utf8(n);
        },
    }
}

proof fn lemma_payload_round_trip(
    sk_a: SecretKey,
    pk_a: PublicKey,
    sk_b: SecretKey,
    pk_b: PublicKey,
    name: Option<Seq<char>>,
    compressed: bool,
    data: Seq<u8>,
    nonce: Seq<u8>,
)
    requires
        pk_a.bytes@ == public_key_of(sk_a.bytes@),
        pk_b.bytes@ == public_key_of(sk_b.bytes@),
        nonce.len() == NONCE_LEN,
        unpack_bytes(
            name is Some,
            pack_bytes(
                match name {
                    Some(n) => Some(encode_utf8(n)),
                    None => None,
                },
                compressed,
                data,
            ),
        ) == Ok::<(Option<Seq<char>>, Seq<u8>), GqgError>((name, data)),
        box_inverts(),
    ensures
        decode_payload(
            sk_b.bytes@,
            name is Some,
            sealed_payload(
                sk_a.bytes@,
                pk_b.bytes@,
                match name {
                    Some(n) => Some(encode_utf8(n)),
                    None => None,
                },
                compressed,
                data,
                nonce,
            ),
        ) == Ok::<DecodedView, GqgError>(DecodedView { sender: pk_a.bytes@, file_name: name, contents: data }),
{
    let nb = match name {
        Some(n) => Some(encode_utf8(n)),
        None => None,
    };
    let raw = sealed_payload(sk_a.bytes@, pk_b.bytes@, nb, compressed, data, nonce);
    let plain = pack_bytes(nb, compressed, data);
    let sealed = sealed_box(plain, nonce, pk_b.bytes@, sk_a.bytes@);
    assert(pk_a.bytes@.len() == PUBLIC_KEY_LEN);
    assert(raw.subrange(0, PUBLIC_KEY_LEN as int) =~= pk_a.bytes@);
    assert(raw.subrange(PUBLIC_KEY_LEN as int, (PUBLIC_KEY_LEN + NONCE_LEN) as int) =~= nonce);
    assert(raw.skip((PUBLIC_KEY_LEN + NONCE_LEN) as int) =~= sealed);
    assert(opened_box(sealed, nonce, public_key_of(sk_a.bytes@), sk_b.bytes@) == Some(plain));
}

/// Decoding, with the recipient's secret key, an envelope that the sender encoded to the
/// recipient's public key gives back the sender's public key, the variant, the file name and
/// the data. This holds for file names whose UTF-8 bytes hold no zero byte, and rests on base64,
/// lz4 and the box construction each undoing their own encoding.
pub proof fn lemma_round_trip(
    sk_a: SecretKey,
    pk_a: PublicKey,
    sk_b: SecretKey,
    pk_b: PublicKey,
    name: Option<Seq<char>>,
    compressed: bool,
    data: Seq<u8>,
    nonce: Seq<u8>,
)
    requires
        pk_a.bytes@ == public_key_of(sk_a.bytes@),
        pk_b.bytes@ == public_key_of(sk_b.bytes@),
        nonce.len() == NONCE_LEN,
        name matches Some(n) ==> valid_file_name(encode_utf8(n))
            && forall|i: int| 0 <= i < encode_utf8(n).len() ==> #[trigger] encode_utf8(n)[i] != 0u8,
        base64_inverts(),
        base64_alphabet_only(),
        lz4_inverts(),
        box_inverts(),
    ensures
        decode_text(
            sk_b.bytes@,
            envelope_text(
                sk_a.bytes@,
                pk_b.bytes@,
                name is Some,
                match name {
                    Some(n) => Some(encode_utf8(n)),
                    None => None,
                },
                compressed,
                data,
                nonce,
            ),
        ) == Ok::<DecodedView, GqgError>(DecodedView { sender: pk_a.bytes@, file_name: name, contents: data }),
{
    let nb = match name {
        Some(n) => Some(encode_utf8(n)),
        None => None,
    };
    let raw = sealed_payload(sk_a.bytes@, pk_b.bytes@, nb, compressed, data, nonce);
    lemma_frame_no_white_space(name is Some, raw);
    lemma_unframe_frame(name is Some, raw);
    lemma_pack_round_trip(name, compressed, data);
    lemma_payload_round_trip(sk_a, pk_a, sk_b, pk_b, name, compressed, data, nonce);
}

/// Envelope text (with white space taken out) is refused as `InvalidOuterEncoding` when it
/// starts with neither header, lacks the closing bracket, lacks the colon after the header,
/// holds a body that is not base64, or carries fewer raw bytes than a public key and a nonce.
pub proof fn lemma_malformed_envelopes(sk: Seq<u8>, s: Seq<char>, h: Seq<char>, body: Seq<char>)
    requires
        h == HEADER_MESSAGE@ || h == HEADER_FILE@,
    ensures
        ({
            let t = strip_white_space(s);
            &&& (!HEADER_MESSAGE@.is_prefix_of(t) && !HEADER_FILE@.is_prefix_of(t))
                ==> decode_text(sk, s) == Err::<DecodedView, GqgError>(GqgError::InvalidOuterEncoding)
            &&& (t.len() == 0 || t.last() != ']')
                ==> decode_text(sk, s) == Err::<DecodedView, GqgError>(GqgError::InvalidOuterEncoding)
            &&& (h.is_prefix_of(t) && (t.len() == h.len() || t[h.len() as int] != ':'))
                ==> decode_text(sk, s) == Err::<DecodedView, GqgError>(GqgError::InvalidOuterEncoding)
            &&& (t == h + seq![':'] + body + seq![']'] && base64_decoded(body) is None)
                ==> decode_text(sk, s) == Err::<DecodedView, GqgError>(GqgError::InvalidOuterEncoding)
            &&& (t == h + seq![':'] + body + seq![']'] && base64_decoded(body) is Some
                && base64_decoded(body)->0.len() < PUBLIC_KEY_LEN + NONCE_LEN)
                ==> decode_text(sk, s) == Err::<DecodedView, GqgError>(GqgError::InvalidOuterEncoding)
        }),
{
    lemma_headers();
    let t = strip_white_space(s);
    if HEADER_MESSAGE@.is_prefix_of(t) && HEADER_FILE@.is_prefix_of(t) {
        assert(t[6] == HEADER_MESSAGE@[6]);
        assert(t[6] == HEADER_FILE@[6]);
    }
    if HEADER_MESSAGE@.is_prefix_of(t) || HEADER_FILE@.is_prefix_of(t) {
        let g = if HEADER_MESSAGE@.is_prefix_of(t) { HEADER_MESSAGE@ } else { HEADER_FILE@ };
        let rest = t.skip(g.len() as int);
        if rest.len() > 0 {
            assert(rest.last() == t.last());
            assert(rest[0] == t[g.len() as int]);
        }
        if h.is_prefix_of(t) {
            assert(g == h) by {
                if g != h {
                    assert(t[6] == g[6]);
                    assert(t[6] == h[6]);
                }
            }
        }
        if t == h + seq![':'] + body + seq![']'] {
            assert(h.is_prefix_of(t)) by {
                assert(t.subrange(0, h.len() as int) =~= h);
            }
            assert(g == h) by {
                if g != h {
                    assert(t[6] == g[6]);
                    assert(t[6] == h[6]);
                }
            }
            assert(rest =~= seq![':'] + body + seq![']']);
            assert(rest.subrange(1, rest.len() - 1) =~= body);
        }
    }
}

/// A file envelope whose opened plaintext holds no zero byte, and so no end to the file name,
/// is refused as `InvalidOuterEncoding`.
pub proof fn lemma_missing_name_separator(sk: Seq<u8>, raw: Seq<u8>, plain: Seq<u8>)
    requires
        raw.len() >= PUBLIC_KEY_LEN + NONCE_LEN,
        opened_box(
            raw.skip((PUBLIC_KEY_LEN + NONCE_LEN) as int),
            raw.subrange(PUBLIC_KEY_LEN as int, (PUBLIC_KEY_LEN + NONCE_LEN) as int),
            raw.subrange(0, PUBLIC_KEY_LEN as int),
            sk,
        ) == Some(plain),
        forall|i: int| 0 <= i < plain.len() ==> plain[i] != 0u8,
    ensures
        decode_payload(sk, true, raw) == Err::<DecodedView, GqgError>(GqgError::InvalidOuterEncoding),
{
    assert(!(exists|k: int| is_first_zero(plain, k)));
}

/// After the file name, an empty remainder or a tag byte other than the two known ones is
/// refused as `InvalidInnerEncoding`, and a compressed body that does not decompress as
/// `DecompressFailure`.
pub proof fn lemma_tag_handling(rest: Seq<u8>)
    ensures
        rest.len() == 0 ==> unpack_body(rest) == Err::<Seq<u8>, GqgError>(GqgError::InvalidInnerEncoding),
        rest.len() > 0 && rest[0] != TAG_RAW && rest[0] != TAG_COMPRESSED
            ==> unpack_body(rest) == Err::<Seq<u8>, GqgError>(GqgError::InvalidInnerEncoding),
        rest.len() > 0 && rest[0] == TAG_COMPRESSED && lz4_decompressed(rest.skip(1)) is None
            ==> unpack_body(rest) == Err::<Seq<u8>, GqgError>(GqgError::DecompressFailure),
{
}

/// Decoding accepts an envelope only where the box construction verified its ciphertext
/// under the nonce and sender key that the envelope carries; the contents then come from the
/// plaintext that it gave.
pub proof fn lemma_accepted_envelopes_are_authenticated(sk: Seq<u8>, s: Seq<char>)
    requires
        decode_text(sk, s) is Ok,
    ensures
        exists|is_file: bool, raw: Seq<u8>, plain: Seq<u8>|
            unframe_text(strip_white_space(s)) == Ok::<(bool, Seq<u8>), GqgError>((is_file, raw))
                && raw.len() >= PUBLIC_KEY_LEN + NONCE_LEN
                && #[trigger] opened_box(
                    raw.skip((PUBLIC_KEY_LEN + NONCE_LEN) as int),
                    raw.subrange(PUBLIC_KEY_LEN as int, (PUBLIC_KEY_LEN + NONCE_LEN) as int),
                    raw.subrange(0, PUBLIC_KEY_LEN as int),
                    sk,
                ) == Some(plain)
                && #[trigger] unpack_bytes(is_file, plain) == Ok::<(Option<Seq<char>>, Seq<u8>), GqgError>((
                    decode_text(sk, s)->Ok_0.file_name,
                    decode_text(sk, s)->Ok_0.contents,
                )),
{
    let (is_file, raw) = unframe_text(strip_white_space(s))->Ok_0;
    let plain = opened_box(
        raw.skip((PUBLIC_KEY_LEN + NONCE_LEN) as int),
        raw.subrange(PUBLIC_KEY_LEN as int, (PUBLIC_KEY_LEN + NONCE_LEN) as int),
        raw.subrange(0, PUBLIC_KEY_LEN as int),
        sk,
    )->0;
    assert(unpack_bytes(is_file, plain) == Ok::<(Option<Seq<char>>, Seq<u8>), GqgError>((
        decode_text(sk, s)->Ok_0.file_name,
        decode_text(sk, s)->Ok_0.contents,
    )));
}

} // verus!
