use p2p_core::identity::{
    derive_seed_from_phrase, generate_seed_phrase, seed_phrase_from_entropy, validate_seed_phrase,
    InvalidSecret,
};
use p2p_core::keys::derive_key;

fn repeat(word: &str, times: usize, last: &str) -> String {
    let mut words: Vec<&str> = vec![word; times];
    words.push(last);
    words.join(" ")
}

fn hex_of(bytes: &[u8]) -> String {
    let mut out = String::new();
    for b in bytes {
        out.push_str(&format!("{:02x}", b));
    }
    out
}

#[test]
fn phrase_of_known_entropy() {
    assert_eq!(seed_phrase_from_entropy(&[0u8; 32]), repeat("abandon", 23, "art"));
    assert_eq!(seed_phrase_from_entropy(&[0xFFu8; 32]), repeat("zoo", 23, "vote"));
    assert_eq!(
        seed_phrase_from_entropy(&[0x7Fu8; 32]),
        "legal winner thank year wave sausage worth useful legal winner thank year wave sausage \
         worth useful legal winner thank year wave sausage worth title"
    );
}

#[test]
fn generated_phrase_has_24_words_and_is_valid() {
    let phrase = generate_seed_phrase();
    assert_eq!(phrase.split(' ').count(), 24);
    assert!(validate_seed_phrase(phrase.clone()));
    assert!(derive_seed_from_phrase(phrase.clone(), None).is_ok());
    assert_ne!(phrase, generate_seed_phrase());
}

#[test]
fn validation_follows_word_count_word_list_and_checksum() {
    assert!(validate_seed_phrase(repeat("abandon", 23, "art")));
    assert!(validate_seed_phrase(repeat("abandon", 11, "about")));
    assert!(validate_seed_phrase(format!("  {}\n", repeat("abandon", 11, "about"))));
    assert!(!validate_seed_phrase(repeat("abandon", 11, "abandon")));
    assert!(!validate_seed_phrase(repeat("abandon", 10, "about")));
    assert!(!validate_seed_phrase(repeat("abandon", 11, "xyzzy")));
    assert!(!validate_seed_phrase(String::from("hello world")));
    assert!(!validate_seed_phrase(String::new()));
    assert!(!validate_seed_phrase(repeat("Abandon", 11, "about")));
}

#[test]
fn seed_of_known_phrases() {
    let long = repeat("abandon", 23, "art");
    let seed = derive_seed_from_phrase(long.clone(), Some(String::from("TREZOR"))).unwrap();
    assert_eq!(seed.len(), 64);
    assert_eq!(
        hex_of(&seed),
        "bda85446c68413707090a52022edd26a1c9462295029f2e60cd7c4f2bbd3097170af7a4d73245cafa9c3cca8d561a7c3de6f5d4a10be8ed2a5e608d68f92fcc8"
    );
    let seed = derive_seed_from_phrase(long.clone(), None).unwrap();
    assert_eq!(
        hex_of(&seed),
        "408b285c123836004f4b8842c89324c1f01382450c0d439af345ba7fc49acf705489c6fc77dbd4e3dc1dd8cc6bc9f043db8ada1e243c4a0eafb290d399480840"
    );
    assert_eq!(derive_seed_from_phrase(long, Some(String::new())).unwrap(), seed);
    let short = repeat("abandon", 11, "about");
    assert_eq!(
        hex_of(&derive_seed_from_phrase(short.clone(), Some(String::from("TREZOR"))).unwrap()),
        "c55257c360c07c72029aebc1b53c05ed0362ada38ead3e3e9efa3708e53495531f09a6987599d18264c1e1c92f2cf141630c7a3c4ab7c81b2f001698e7463b04"
    );
    assert_eq!(
        hex_of(&derive_seed_from_phrase(short, None).unwrap()),
        "5eb00bbddcf069084889a8ab9155568165f5c453ccb85e70811aaed6f6da5fc19a5ac40b389cd370d086206dec8aa6c43daea6690f20ad3d8d48b2d2ce9e38e4"
    );
}

#[test]
fn invalid_phrases_give_no_seed() {
    assert_eq!(
        derive_seed_from_phrase(String::from("hello world"), None),
        Err(InvalidSecret::BadWordCount(2))
    );
    assert_eq!(derive_seed_from_phrase(String::new(), None), Err(InvalidSecret::BadWordCount(0)));
    assert_eq!(
        derive_seed_from_phrase(repeat("abandon", 25, "art"), None),
        Err(InvalidSecret::BadWordCount(26))
    );
    assert_eq!(
        derive_seed_from_phrase(String::from("abandon abandon abandon xyzzy abandon abandon abandon abandon abandon abandon abandon about"), None),
        Err(InvalidSecret::UnknownWord(3))
    );
    assert_eq!(
        derive_seed_from_phrase(repeat("abandon", 11, "abandon"), Some(String::from("TREZOR"))),
        Err(InvalidSecret::InvalidChecksum)
    );
}

#[test]
fn seed_feeds_key_derivation() {
    let seed = derive_seed_from_phrase(repeat("abandon", 11, "about"), None).unwrap();
    let key = derive_key(&seed, "encryption");
    assert_eq!(key, derive_key(&seed, "encryption"));
    assert_ne!(key, derive_key(&seed, "signing"));
    assert_ne!(key, derive_key(&[], "encryption"));
}
