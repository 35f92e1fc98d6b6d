use lanchgo::bytes::{
    bytes_eq, contains_bytes, eq_ignore_case_bytes, hex_to_offer_id, offer_id_to_hex,
    starts_with_bytes, to_lower_bytes,
};
use lanchgo::codec::{decode_foft, encode_foft, FileOffer, OfferKind, FILE_PROTOCOL_VERSION};
use lanchgo::mobile::{
    build_MANCH, encrypt_message_phone, manch_json, parse_mencm_payload, validate_mfoft,
};
use lanchgo::channel::{Channel, SecureMessage};
use lanchgo::crypto::derive_key;
use base64::Engine;

fn sample_offer() -> FileOffer {
    FileOffer {
        offer_id: (0u8..16).collect(),
        name: b"a.txt".to_vec(),
        size: 10,
        kind: OfferKind::SingleFile,
        protocol_version: FILE_PROTOCOL_VERSION,
        tcp_port: 4040,
    }
}

#[test]
fn foft_round_trip() {
    let offer = sample_offer();
    let packet = encode_foft(&offer);
    assert_eq!(&packet[0..4], b"FOFT");
    let decoded = decode_foft(&packet).expect("well-formed unit must decode");
    assert_eq!(decoded.offer_id, offer.offer_id);
    assert_eq!(decoded.name, offer.name);
    assert_eq!(decoded.size, offer.size);
    assert!(matches!(decoded.kind, OfferKind::SingleFile));
    assert_eq!(decoded.protocol_version, offer.protocol_version);
    assert_eq!(decoded.tcp_port, offer.tcp_port);
}

#[test]
fn foft_round_trip_zip_bundle() {
    let mut offer = sample_offer();
    offer.kind = OfferKind::ZipBundle;
    offer.size = 123_456_789;
    let decoded = decode_foft(&encode_foft(&offer)).unwrap();
    assert!(matches!(decoded.kind, OfferKind::ZipBundle));
    assert_eq!(decoded.size, 123_456_789);
}

#[test]
fn foft_version_mismatch_is_rejected() {
    let mut offer = sample_offer();
    offer.protocol_version = FILE_PROTOCOL_VERSION.wrapping_add(1);
    let packet = encode_foft(&offer);
    assert!(decode_foft(&packet).is_none());
}

#[test]
fn foft_bad_magic_and_framing_rejected() {
    let offer = sample_offer();
    let packet = encode_foft(&offer);

    let mut bad_magic = packet.clone();
    bad_magic[0] = b'X';
    assert!(decode_foft(&bad_magic).is_none());

    let mut truncated = packet.clone();
    truncated.pop();
    assert!(decode_foft(&truncated).is_none());

    let mut extended = packet.clone();
    extended.push(0);
    assert!(decode_foft(&extended).is_none());

    let mut bad_kind = packet;
    bad_kind[21] = 7;
    assert!(decode_foft(&bad_kind).is_none());

    assert!(decode_foft(b"FOFT").is_none());
}

#[test]
fn offer_id_hex_exact_value() {
    let id: Vec<u8> = vec![
        0x00, 0xff, 0x10, 0x2a, 0x3b, 0x4c, 0x5d, 0x6e, 0x7f, 0x80, 0x91, 0xa2, 0xb3, 0xc4, 0xd5,
        0xe6,
    ];
    let hex = offer_id_to_hex(&id);
    assert_eq!(hex, b"00ff102a3b4c5d6e7f8091a2b3c4d5e6".to_vec());
}

#[test]
fn offer_id_hex_bijection() {
    let id: Vec<u8> = (100u8..116).collect();
    let hex = offer_id_to_hex(&id);
    assert_eq!(hex.len(), 32);
    let back = hex_to_offer_id(&hex).expect("well-formed hex decodes");
    assert_eq!(back, id);

    // The other direction: decoding a well-formed string and re-encoding
    // reproduces it.
    let h = b"0123456789abcdef0123456789abcdef".to_vec();
    let bytes = hex_to_offer_id(&h).unwrap();
    assert_eq!(offer_id_to_hex(&bytes), h);
}

#[test]
fn offer_id_hex_rejects_malformed_input() {
    assert!(hex_to_offer_id(b"0123456789abcdef0123456789abcde").is_none()); // 31 chars
    assert!(hex_to_offer_id(b"0123456789abcdef0123456789abcdef0").is_none()); // 33 chars
    assert!(hex_to_offer_id(b"0123456789ABCDEF0123456789abcdef").is_none()); // uppercase
    assert!(hex_to_offer_id(b"0123456789abcdeg0123456789abcdef").is_none()); // non-hex
    assert!(hex_to_offer_id(b"").is_none());
}

#[test]
fn mencm_frame_and_parse() {
    let key = derive_key(13_131_313, &vec![3u8; 16]);
    let packet = encrypt_message_phone(&key, b"hi there");
    assert_eq!(&packet[0..5], b"MENCM");
    let (nonce, ct) = parse_mencm_payload(&packet[5..]).expect("long enough");
    assert_eq!(nonce.len(), 12);
    assert_eq!(ct.len(), b"hi there".len() + 16);
    let plain = lanchgo::mobile::decrypt_message_phone(&key, &nonce, &ct).unwrap();
    assert_eq!(plain, b"hi there".to_vec());

    assert!(parse_mencm_payload(&[0u8; 12]).is_none());
    assert!(parse_mencm_payload(&[0u8; 13]).is_some());
}

#[test]
fn manch_json_exact_shape() {
    let validation = SecureMessage { nonce: vec![0; 12], ciphertext: vec![0; 4] };
    let salt = vec![0u8; 16];
    let json = manch_json(&salt, &validation);
    let expected = format!(
        "{{\"salt\":\"{}\",\"validation\":{{\"nonce\":\"{}\",\"ciphertext\":\"{}\"}}}}",
        "AAAAAAAAAAAAAAAAAAAAAA==", "AAAAAAAAAAAAAAAA", "AAAAAA=="
    );
    assert_eq!(String::from_utf8(json).unwrap(), expected);
}

#[test]
fn build_manch_is_valid_json_with_base64_salt() {
    let channel = Channel::new(24_682_468);
    let json_bytes = build_MANCH(&channel);
    let v: serde_json::Value = serde_json::from_slice(&json_bytes).expect("valid JSON");
    let salt_b64 = v["salt"].as_str().unwrap();
    let salt = base64::engine::general_purpose::STANDARD.decode(salt_b64).unwrap();
    assert_eq!(salt, channel.salt);
    let nonce = base64::engine::general_purpose::STANDARD
        .decode(v["validation"]["nonce"].as_str().unwrap())
        .unwrap();
    assert_eq!(nonce.len(), 12);
    let ct = base64::engine::general_purpose::STANDARD
        .decode(v["validation"]["ciphertext"].as_str().unwrap())
        .unwrap();
    // The sealed validation text decrypts under the channel key.
    let plain = lanchgo::mobile::decrypt_message_phone(&channel.key, &nonce, &ct).unwrap();
    assert_eq!(plain, b"SECURE_OK".to_vec());
}

#[test]
fn validate_mfoft_accepts_only_well_formed_fields() {
    let hex = b"0123456789abcdef0123456789abcdef";
    let offer = validate_mfoft(hex, b"photo.jpg", 2048, b"SingleFile", FILE_PROTOCOL_VERSION, 4040)
        .expect("valid fields");
    assert_eq!(offer.offer_id, hex_to_offer_id(hex).unwrap());
    assert_eq!(offer.name, b"photo.jpg".to_vec());
    assert_eq!(offer.size, 2048);
    assert!(matches!(offer.kind, OfferKind::SingleFile));
    assert_eq!(offer.tcp_port, 4040);

    assert!(validate_mfoft(hex, b"p", 1, b"SingleFile", FILE_PROTOCOL_VERSION + 1, 1).is_none());
    assert!(validate_mfoft(hex, b"p", 1, b"ZipBundle", FILE_PROTOCOL_VERSION, 1).is_none());
    assert!(validate_mfoft(b"nothex", b"p", 1, b"SingleFile", FILE_PROTOCOL_VERSION, 1).is_none());
}

#[test]
fn byte_helpers_behave() {
    assert!(bytes_eq(b"abc", b"abc"));
    assert!(!bytes_eq(b"abc", b"abd"));
    assert!(!bytes_eq(b"abc", b"ab"));

    assert_eq!(to_lower_bytes(b"MiXeD 123!"), b"mixed 123!".to_vec());
    assert!(eq_ignore_case_bytes(b"PING", b"ping"));
    assert!(!eq_ignore_case_bytes(b"PING", b"pong"));

    assert!(contains_bytes(b"say nutella now", b"nutella"));
    assert!(!contains_bytes(b"say nothing now", b"nutella"));
    assert!(contains_bytes(b"abc", b""));
    assert!(!contains_bytes(b"ab", b"abc"));

    assert!(starts_with_bytes(b"MANCH{}", b"MANCH"));
    assert!(!starts_with_bytes(b"MANC", b"MANCH"));
}

#[test]
fn foft_name_length_edges() {
    let mut offer = sample_offer();
    offer.name = Vec::new();
    let decoded = decode_foft(&encode_foft(&offer)).unwrap();
    assert!(decoded.name.is_empty());

    offer.name = vec![b'x'; 300];
    let decoded = decode_foft(&encode_foft(&offer)).unwrap();
    assert_eq!(decoded.name.len(), 300);
}
