use gqg::framer::HEADER_MESSAGE;
use gqg::{decode, encode, encode_with_nonce, Decoded, DecodedData, EncodeFlags, GqgError, PublicKey, SecretKey, Type};
use sodiumoxide::crypto::box_;

fn keypair() -> (PublicKey, SecretKey) {
    let (pk, sk) = box_::gen_keypair();
    (PublicKey { bytes: pk.0 }, SecretKey { bytes: sk.0 })
}

fn msg_of_length(len: usize) -> Vec<u8> {
    let mut v: Vec<u8> = Vec::with_capacity(len);
    for _ in 0..len {
        v.push(0x41);
    }
    v
}

/// Seals a hand-made plaintext from `from` to `to` and frames it as the given header.
fn craft(header: &str, from: &SecretKey, to: &PublicKey, plain: &[u8]) -> String {
    let sk = box_::SecretKey(from.bytes);
    let pk = box_::PublicKey(to.bytes);
    let nonce = box_::gen_nonce();
    let mut raw: Vec<u8> = Vec::new();
    raw.extend_from_slice(&sk.public_key().0);
    raw.extend_from_slice(&nonce.0);
    raw.extend_from_slice(&box_::seal(plain, &nonce, &pk, &sk));
    format!("{}:{}]", header, base64::encode(&raw))
}

#[test]
fn test_decode_malformed_ascii() {
    let (_, to_sk) = keypair();
    for text in [
        "[GQG1-ENCRYPTED-MESSAGE",
        "[GQG1-ENCRYPTED-MESSAGE]",
        "[GQG1-ENCRYPTED-MESSAGE:]",
        "[GQG1-ENCRYPTED-MESSAGE::]",
        "[GQG1-ENCRYPTED-MESSAGE:::]",
        "[GQG1-ENCRYPTED-MESSAGE:::",
        "[GQG1-ENCRYPTED-FILE",
        "[GQG1-ENCRYPTED-FILE]",
        "[GQG1-ENCRYPTED-FILE:]",
        "[GQG1-ENCRYPTED-FILE::]",
        "[GQG1-ENCRYPTED-FILE:::]",
        "[GQG1-ENCRYPTED-FILE:::",
    ] {
        assert_eq!(decode(&to_sk, text.to_string()), Err(GqgError::InvalidOuterEncoding));
    }
}

#[test]
fn test_msg_errors_binary() {
    let (_, from_sk) = keypair();
    let (to_pk, to_sk) = keypair();
    let msg_data = msg_of_length(0x123);
    let msg = encode(&from_sk, &to_pk, Type::Message, EncodeFlags::Compressed, &msg_data).unwrap();
    let msg_base64: &str = &msg[HEADER_MESSAGE.len() + 1..msg.len() - 1];
    let mut msg_inner = base64::decode(msg_base64).unwrap();
    for i in 0..8 * msg_inner.len() {
        msg_inner[i / 8] ^= 1 << (i % 8);
        let mut corrupted_msg = String::new();
        corrupted_msg.push_str(HEADER_MESSAGE);
        corrupted_msg.push(':');
        corrupted_msg.push_str(&base64::encode(&msg_inner));
        corrupted_msg.push_str("]");
        // Curve25519 ignores the top bit of a public key.
        if i != 255 {
            assert!(
                decode(&to_sk, corrupted_msg.clone()) == Err(GqgError::AuthFailure)
                    || decode(&to_sk, corrupted_msg.clone()) == Err(GqgError::InvalidOuterEncoding)
            );
        }
        msg_inner[i / 8] ^= 1 << (i % 8);
    }
    let mut uncorrupted_msg = String::new();
    uncorrupted_msg.push_str(HEADER_MESSAGE);
    uncorrupted_msg.push(':');
    uncorrupted_msg.push_str(&base64::encode(&msg_inner));
    uncorrupted_msg.push_str("]");
    assert!(decode(&to_sk, uncorrupted_msg.clone()).is_ok());
}

#[test]
fn test_encode_decode_message() {
    let (from_pk, from_sk) = keypair();
    let (to_pk, to_sk) = keypair();
    for i in 0..12 {
        for j in 0..16 {
            let msg_data = msg_of_length((1 << i) + j);
            let msg = encode(&from_sk, &to_pk, Type::Message, EncodeFlags::Raw, &msg_data).unwrap();
            let msg = decode(&to_sk, msg).unwrap();
            assert_eq!(
                msg,
                Decoded { sender: from_pk.clone(), data: DecodedData::Message { contents: msg_data.clone() } }
            );
            let msg = encode(&from_sk, &to_pk, Type::Message, EncodeFlags::Compressed, &msg_data).unwrap();
            let msg = decode(&to_sk, msg).unwrap();
            assert_eq!(
                msg,
                Decoded { sender: from_pk.clone(), data: DecodedData::Message { contents: msg_data.clone() } }
            );
        }
    }
}

#[test]
fn hi_message_scenario() {
    let (pk_a, sk_a) = keypair();
    let (pk_b, sk_b) = keypair();
    let text = encode(&sk_a, &pk_b, Type::Message, EncodeFlags::Raw, b"hi").unwrap();
    assert_eq!(
        decode(&sk_b, text),
        Ok(Decoded { sender: pk_a, data: DecodedData::Message { contents: b"hi".to_vec() } })
    );
}

#[test]
fn file_round_trip_both_flags() {
    let (pk_a, sk_a) = keypair();
    let (pk_b, sk_b) = keypair();
    let name = "notes.txt".to_string();
    for len in [0usize, 1, 17, 4096] {
        let data: Vec<u8> = (0..len).map(|i| (i * 7 % 251) as u8).collect();
        for flags in [EncodeFlags::Raw, EncodeFlags::Compressed] {
            let text = encode(&sk_a, &pk_b, Type::File { file_name: &name }, flags, &data).unwrap();
            assert!(text.starts_with("[GQG1-FILE:"));
            assert_eq!(
                decode(&sk_b, text),
                Ok(Decoded {
                    sender: pk_a,
                    data: DecodedData::File { file_name: name.clone(), contents: data.clone() }
                })
            );
        }
    }
}

#[test]
fn empty_message_round_trip() {
    let (pk_a, sk_a) = keypair();
    let (pk_b, sk_b) = keypair();
    for flags in [EncodeFlags::Raw, EncodeFlags::Compressed] {
        let text = encode(&sk_a, &pk_b, Type::Message, flags, b"").unwrap();
        assert_eq!(
            decode(&sk_b, text),
            Ok(Decoded { sender: pk_a, data: DecodedData::Message { contents: Vec::new() } })
        );
    }
}

#[test]
fn whitespace_in_envelope_is_ignored() {
    let (pk_a, sk_a) = keypair();
    let (pk_b, sk_b) = keypair();
    let text = encode(&sk_a, &pk_b, Type::Message, EncodeFlags::Raw, b"wrapped").unwrap();
    let mut wrapped = String::new();
    for (i, c) in text.chars().enumerate() {
        if i % 10 == 0 {
            wrapped.push_str("\n \t");
        }
        wrapped.push(c);
    }
    wrapped.push_str("\r\n");
    assert_eq!(
        decode(&sk_b, wrapped),
        Ok(Decoded { sender: pk_a, data: DecodedData::Message { contents: b"wrapped".to_vec() } })
    );
}

#[test]
fn envelope_with_fixed_nonce_is_deterministic() {
    let (_, sk_a) = keypair();
    let (pk_b, _) = keypair();
    let nonce = [9u8; 24];
    let one = encode_with_nonce(&sk_a, &pk_b, Type::Message, EncodeFlags::Raw, b"x", &nonce).unwrap();
    let two = encode_with_nonce(&sk_a, &pk_b, Type::Message, EncodeFlags::Raw, b"x", &nonce).unwrap();
    assert_eq!(one, two);
    assert!(one.starts_with("[GQG1-MESSAGE:"));
    assert!(one.ends_with("]"));
    let raw = base64::decode(&one["[GQG1-MESSAGE:".len()..one.len() - 1]).unwrap();
    assert_eq!(raw.len(), 32 + 24 + 2 + 16);
    assert_eq!(&raw[32..56], &nonce[..]);
}

#[test]
fn bad_file_names_are_refused_at_encode() {
    let (_, sk_a) = keypair();
    let (pk_b, _) = keypair();
    let long = "a".repeat(33);
    for name in ["", long.as_str(), "a/b", "a\\b", "..", "x..y"] {
        let name = name.to_string();
        assert_eq!(
            encode(&sk_a, &pk_b, Type::File { file_name: &name }, EncodeFlags::Raw, b"data"),
            Err(GqgError::InvalidFileName)
        );
    }
    let ok = "a".repeat(32);
    assert!(encode(&sk_a, &pk_b, Type::File { file_name: &ok }, EncodeFlags::Raw, b"data").is_ok());
}

#[test]
fn wrong_recipient_is_auth_failure() {
    let (_, sk_a) = keypair();
    let (pk_b, _) = keypair();
    let (_, sk_c) = keypair();
    let text = encode(&sk_a, &pk_b, Type::Message, EncodeFlags::Raw, b"secret").unwrap();
    assert_eq!(decode(&sk_c, text), Err(GqgError::AuthFailure));
}

#[test]
fn malformed_envelopes_are_outer_errors() {
    let (_, sk) = keypair();
    let short = format!("[GQG1-MESSAGE:{}]", base64::encode([1u8; 55]));
    for text in [
        "[GQG1-MESSAGE:AAAA",
        "[GQG1-MESSAGEAAAA]",
        "[GQG1-MESSAGE:@@@@]",
        "[GQG2-MESSAGE:AAAA]",
        "[gqg1-message:AAAA]",
        "",
        short.as_str(),
    ] {
        assert_eq!(decode(&sk, text.to_string()), Err(GqgError::InvalidOuterEncoding));
    }
}

#[test]
fn crafted_plaintexts_give_each_error() {
    let (_, sk_a) = keypair();
    let (pk_b, sk_b) = keypair();
    let cases: Vec<(&str, Vec<u8>, GqgError)> = vec![
        (HEADER_MESSAGE, vec![], GqgError::InvalidInnerEncoding),
        (HEADER_MESSAGE, vec![2, 1, 2], GqgError::InvalidInnerEncoding),
        (HEADER_MESSAGE, vec![255], GqgError::InvalidInnerEncoding),
        (HEADER_MESSAGE, vec![1, 0x10, b'a', 2, 0], GqgError::DecompressFailure),
        ("[GQG1-FILE", b"name.txt".to_vec(), GqgError::InvalidOuterEncoding),
        ("[GQG1-FILE", vec![0xff, 0xfe, 0, 0, b'x'], GqgError::InvalidFileName),
        ("[GQG1-FILE", b"a/b\0\0x".to_vec(), GqgError::InvalidFileName),
        ("[GQG1-FILE", b"..\0\0x".to_vec(), GqgError::InvalidFileName),
        ("[GQG1-FILE", b"\0\0x".to_vec(), GqgError::InvalidFileName),
        ("[GQG1-FILE", b"f\0".to_vec(), GqgError::InvalidInnerEncoding),
    ];
    for (header, plain, err) in cases {
        let text = craft(header, &sk_a, &pk_b, &plain);
        assert_eq!(decode(&sk_b, text), Err(err));
    }
    let text = craft("[GQG1-FILE", &sk_a, &pk_b, b"f\0\x01\x11a\x01\x00");
    match decode(&sk_b, text).unwrap().data {
        DecodedData::File { file_name, contents } => {
            assert_eq!(file_name, "f");
            assert_eq!(contents, b"aaaaaa".to_vec());
        }
        other => panic!("unexpected {:?}", other),
    }
}

#[test]
fn compressed_envelope_differs_from_raw() {
    let nonce = [3u8; 24];
    let (_, sk_a) = keypair();
    let (pk_b, _) = keypair();
    let data = msg_of_length(1000);
    let raw = encode_with_nonce(&sk_a, &pk_b, Type::Message, EncodeFlags::Raw, &data, &nonce).unwrap();
    let packed = encode_with_nonce(&sk_a, &pk_b, Type::Message, EncodeFlags::Compressed, &data, &nonce).unwrap();
    assert!(packed.len() < raw.len());
}
