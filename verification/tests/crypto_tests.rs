use p2p_core::aead::{
    decrypt, decrypt_network_data, decrypt_text, encrypt, encrypt_network_data,
    encrypt_with_nonce, DecryptError,
};
use p2p_core::keys::{derive_key, derive_key_from_seed, KeyMaterial};

const ENCRYPTION_KEY: [u8; 32] = [
    0x4b, 0x32, 0x9b, 0x79, 0x53, 0x74, 0xb5, 0x3d, 0x56, 0xe2, 0x5e, 0xd7, 0x55, 0x81, 0xe8, 0xb6,
    0x44, 0xe9, 0x98, 0xb1, 0x71, 0x96, 0x28, 0xf6, 0x48, 0x31, 0x95, 0x4f, 0x14, 0x10, 0x47, 0x4b,
];

const SIGNING_KEY: [u8; 32] = [
    0x0a, 0xb0, 0x53, 0x5f, 0xd8, 0xf1, 0x3f, 0x0e, 0xb9, 0xcd, 0x1f, 0x64, 0x7c, 0xe1, 0x16, 0x7f,
    0x24, 0xb4, 0x01, 0x15, 0x93, 0x0d, 0xd7, 0xb3, 0x87, 0x4d, 0x99, 0x63, 0x43, 0x5b, 0xa6, 0xd1,
];

fn hex(bytes: &[u8]) -> String {
    let mut out = String::new();
    for b in bytes {
        out.push_str(&format!("{:02x}", b));
    }
    out
}

#[test]
fn derive_gives_the_digest_of_seed_purpose_and_separator() {
    assert_eq!(derive_key(b"test seed", "encryption"), ENCRYPTION_KEY);
    assert_eq!(derive_key(b"test seed", "signing"), SIGNING_KEY);
    assert_eq!(
        hex(&derive_key(b"test seed", "identity")),
        "ce26a62001557baeec64e6e78adb4751ddaef0022cebe309ed206332d5c427c5"
    );
    assert_eq!(
        hex(&derive_key(b"test seed", "network")),
        "307304a660e5910dcb935765797c1a58a988725f27efcd2bac762d62d9f637be"
    );
}

#[test]
fn derive_is_deterministic_and_separates_purposes() {
    let first = derive_key(b"test seed", "encryption");
    let second = derive_key(b"test seed", "encryption");
    assert_eq!(first, second);
    assert_ne!(derive_key(b"test seed", "encryption"), derive_key(b"test seed", "signing"));
    assert_ne!(derive_key(b"test seed", "encryption"), derive_key(b"other seed", "encryption"));
}

#[test]
fn derive_accepts_an_empty_seed() {
    assert_eq!(
        hex(&derive_key(b"", "encryption")),
        "98e0c77eeb94b4b6eca074a990837b793f35b7ae9dcc03aac04c3ff3b8cb740d"
    );
}

#[test]
fn seed_phrase_key_is_the_key_for_the_empty_purpose() {
    assert_eq!(
        hex(&derive_key_from_seed("test seed")),
        "4969f799c13dfcf031e61592db0cfd6d28ef7f05a613fe29fea6d8c1d9dbb77e"
    );
    assert_eq!(derive_key_from_seed("correct horse"), derive_key(b"correct horse", ""));
    assert_eq!(
        hex(&derive_key_from_seed("correct horse")),
        "1a24473371cf66a1a2be298f1fb840b15e9484fe8ffb35983547308f02e942d1"
    );
}

#[test]
fn key_material_holds_one_key_per_purpose() {
    let keys = KeyMaterial::derive(b"test seed");
    assert_eq!(keys.encryption, ENCRYPTION_KEY);
    assert_eq!(keys.signing, SIGNING_KEY);
    assert_eq!(keys.identity, derive_key(b"test seed", "identity"));
    assert_eq!(keys.network, derive_key(b"test seed", "network"));
}

#[test]
fn sealing_with_a_given_nonce_gives_the_known_blob() {
    let nonce: [u8; 12] = [0, 1, 2, 3, 4, 5, 6, 7, 8, 9, 10, 11];
    let blob = encrypt_with_nonce(&ENCRYPTION_KEY, &nonce, b"hello peer").unwrap();
    assert_eq!(
        hex(&blob),
        "000102030405060708090a0b78049944c21742531abbdf063c8e1347ae7d630ee098b6632a6d"
    );
    assert_eq!(decrypt(&ENCRYPTION_KEY, &blob).unwrap(), b"hello peer".to_vec());
}

#[test]
fn sealing_matches_the_published_vectors() {
    let zero_key = [0u8; 32];
    let zero_nonce = [0u8; 12];
    let empty = encrypt_with_nonce(&zero_key, &zero_nonce, b"").unwrap();
    assert_eq!(hex(&empty), "000000000000000000000000530f8afbc74536b9a963b4f1c4cb738b");
    let block = encrypt_with_nonce(&zero_key, &zero_nonce, &[0u8; 16]).unwrap();
    assert_eq!(
        hex(&block),
        "000000000000000000000000cea7403d4d606b6e074ec5d3baf39d18d0d1c8a799996bf0265b98b5d48ab919"
    );
    assert_eq!(decrypt(&zero_key, &block).unwrap(), vec![0u8; 16]);
    assert_eq!(decrypt(&zero_key, &empty).unwrap(), Vec::<u8>::new());
}

#[test]
fn encryption_round_trip() {
    let key = derive_key(b"round trip", "encryption");
    for plaintext in [&b""[..], &b"a"[..], &b"hello peer"[..], &[0xFFu8; 1000][..]] {
        let blob = encrypt(&key, plaintext).unwrap();
        assert_eq!(blob.len(), 12 + plaintext.len() + 16);
        assert_eq!(decrypt(&key, &blob).unwrap(), plaintext.to_vec());
    }
}

#[test]
fn nonce_is_fresh_for_every_blob() {
    let key = derive_key(b"nonce", "encryption");
    let first = encrypt(&key, b"same plaintext").unwrap();
    let second = encrypt(&key, b"same plaintext").unwrap();
    assert_ne!(first, second);
    assert_ne!(first[..12], second[..12]);
}

#[test]
fn flipping_any_bit_is_detected() {
    let key = derive_key(b"tamper", "encryption");
    let blob = encrypt(&key, b"hello peer").unwrap();
    for index in 0..blob.len() {
        for bit in 0..8 {
            let mut altered = blob.clone();
            altered[index] ^= 1 << bit;
            assert_eq!(
                decrypt(&key, &altered),
                Err(DecryptError::AuthenticationFailed),
                "byte {} bit {}",
                index,
                bit
            );
        }
    }
}

#[test]
fn short_blobs_are_refused() {
    let key = derive_key(b"short", "encryption");
    assert_eq!(decrypt(&key, &[]), Err(DecryptError::TooShort));
    assert_eq!(decrypt(&key, &[0u8; 11]), Err(DecryptError::TooShort));
    assert_eq!(decrypt(&key, &[0u8; 12]), Err(DecryptError::AuthenticationFailed));
    assert_eq!(decrypt(&key, &[0u8; 27]), Err(DecryptError::AuthenticationFailed));
    assert_eq!(decrypt(&key, &[0u8; 28]), Err(DecryptError::AuthenticationFailed));
}

#[test]
fn blobs_without_room_for_a_tag_are_refused() {
    let key = derive_key(b"short", "encryption");
    for len in 12..28usize {
        let blob = vec![0u8; len];
        assert_eq!(decrypt(&key, &blob), Err(DecryptError::AuthenticationFailed), "{} bytes", len);
        assert_eq!(decrypt_text(&key, &blob), Err(DecryptError::AuthenticationFailed));
    }
    assert!(decrypt_network_data(vec![0u8; 12], "test seed".to_string()).is_err());
    assert_eq!(
        decrypt_network_data(vec![0u8; 27], "test seed".to_string()),
        Err(DecryptError::AuthenticationFailed)
    );
    let sealed_empty = encrypt(&key, b"").unwrap();
    assert_eq!(sealed_empty.len(), 28);
    assert_eq!(decrypt_text(&key, &sealed_empty).unwrap(), "");
}

#[test]
fn text_that_is_not_utf8_is_refused() {
    let key = derive_key(b"text", "encryption");
    let blob = encrypt(&key, &[0xFF, 0xFE]).unwrap();
    assert_eq!(decrypt(&key, &blob).unwrap(), vec![0xFF, 0xFE]);
    assert_eq!(decrypt_text(&key, &blob), Err(DecryptError::InvalidUtf8));
    let blob = encrypt(&key, "grüße".as_bytes()).unwrap();
    assert_eq!(decrypt_text(&key, &blob).unwrap(), "grüße");
}

#[test]
fn end_to_end_with_derived_keys() {
    let key = derive_key(b"test seed", "encryption");
    let blob = encrypt(&key, b"hello peer").unwrap();
    assert_eq!(decrypt_text(&key, &blob).unwrap(), "hello peer");
    let other = derive_key(b"test seed", "signing");
    assert_eq!(decrypt(&other, &blob), Err(DecryptError::AuthenticationFailed));
    assert_eq!(decrypt_text(&other, &blob), Err(DecryptError::AuthenticationFailed));
}

#[test]
fn network_data_round_trip_under_a_seed_phrase() {
    let blob = encrypt_network_data(String::from("192.168.1.7:4000"), String::from("test seed")).unwrap();
    assert_eq!(blob.len(), 12 + 16 + 16);
    assert_eq!(
        decrypt_network_data(blob.clone(), String::from("test seed")).unwrap(),
        "192.168.1.7:4000"
    );
    assert_eq!(
        decrypt_network_data(blob.clone(), String::from("wrong seed")),
        Err(DecryptError::AuthenticationFailed)
    );
    assert_eq!(decrypt_network_data(vec![1, 2, 3], String::from("test seed")), Err(DecryptError::TooShort));
    let key = derive_key_from_seed("test seed");
    assert_eq!(decrypt_text(&key, &blob).unwrap(), "192.168.1.7:4000");
}
