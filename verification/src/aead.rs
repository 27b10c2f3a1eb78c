//! Authenticated encryption of payloads under a derived key.
//!
//! A sealed blob is a 96-bit nonce followed by what AES-256-GCM makes of the
//! plaintext under that nonce: the ciphertext and its 128-bit tag. The nonce
//! is public and travels with the blob; it is drawn afresh for every blob.

use vstd::prelude::*;
use vstd::slice::*;
use vstd::utf8::*;
use aes_gcm::aead::Aead;
use aes_gcm::aead::KeyInit;
use rand::RngCore;
use crate::buffer::append_bytes;
use crate::keys::{derive_key_from_seed, derived_key};
use crate::text::text_from_utf8;

verus! {

/// The error of the `aes-gcm` crate, carried through unread: it holds
/// nothing beyond the fact of failure.
#[verifier::external_type_specification]
#[verifier::external_body]
pub struct ExAeadError(aes_gcm::Error);

/// Why a payload was not sealed.
#[derive(Debug, Clone, Copy, PartialEq, Eq, Structural)]
pub enum EncryptError {
    /// The plaintext is longer than one nonce may cover.
    PlaintextTooLong,
}

/// Why a blob was not opened.
#[derive(Debug, Clone, Copy, PartialEq, Eq, Structural)]
pub enum DecryptError {
    /// The blob is shorter than a nonce.
    TooShort,
    /// The tag does not verify: the blob was altered, or sealed under another
    /// key.
    AuthenticationFailed,
    /// The blob opens, but not to UTF-8 text.
    InvalidUtf8,
}

/// What AES-256-GCM makes of a plaintext under a key and a nonce, with no
/// associated data: the ciphertext followed by the tag.
pub uninterp spec fn aes256_gcm_seal(key: Seq<u8>, nonce: Seq<u8>, plaintext: Seq<u8>) -> Seq<u8>;

/// What AES-256-GCM recovers from a ciphertext and tag under a key and a
/// nonce, or `None` where it refuses them.
pub uninterp spec fn aes256_gcm_open(key: Seq<u8>, nonce: Seq<u8>, sealed: Seq<u8>) -> Option<
    Seq<u8>,
>;

/// Width of a nonce, in bytes.
pub open spec fn nonce_len() -> int {
    12
}

/// Width of a tag, in bytes.
pub open spec fn tag_len() -> int {
    16
}

/// The longest plaintext that one nonce may cover, in bytes.
pub open spec fn max_plaintext_len() -> int {
    0x10_0000_0000
}

/// `Aead::encrypt` of `Aes256Gcm` in the `aes-gcm` crate, keyed by
/// `KeyInit::new`. It refuses exactly the plaintexts over the length limit.
/// Otherwise the result depends on the three arguments alone, is sixteen
/// bytes longer than the plaintext, and is what the same key and nonce open
/// to that plaintext again.
#[verifier::external_body]
fn gcm_seal(key: &[u8; 32], nonce: &[u8; 12], plaintext: &[u8]) -> (r: Result<
    Vec<u8>,
    aes_gcm::Error,
>)
    ensures
        r is Ok <==> plaintext@.len() <= max_plaintext_len(),
        r matches Ok(sealed) ==> {
            &&& sealed@ == aes256_gcm_seal(key@, nonce@, plaintext@)
            &&& sealed@.len() == plaintext@.len() + tag_len()
            &&& aes256_gcm_open(key@, nonce@, sealed@) == Some(plaintext@)
        },
{
    let cipher = aes_gcm::Aes256Gcm::new(aes_gcm::Key::<aes_gcm::Aes256Gcm>::from_slice(key));
    cipher.encrypt(aes_gcm::Nonce::from_slice(nonce), plaintext)
}

/// `Aead::decrypt` of `Aes256Gcm` in the `aes-gcm` crate, keyed by
/// `KeyInit::new`. Whether it accepts, and the plaintext it then gives,
/// depend on the three arguments alone; an accepted input is sixteen bytes
/// longer than its plaintext.
#[verifier::external_body]
fn gcm_open(key: &[u8; 32], nonce: &[u8; 12], sealed: &[u8]) -> (r: Result<Vec<u8>, aes_gcm::Error>)
    ensures
        match r {
            Ok(plaintext) => aes256_gcm_open(key@, nonce@, sealed@) == Some(plaintext@)
                && sealed@.len() == plaintext@.len() + tag_len(),
            Err(_) => aes256_gcm_open(key@, nonce@, sealed@) is None,
        },
{
    let cipher = aes_gcm::Aes256Gcm::new(aes_gcm::Key::<aes_gcm::Aes256Gcm>::from_slice(key));
    cipher.decrypt(aes_gcm::Nonce::from_slice(nonce), sealed)
}

/// `RngCore::fill_bytes` on `rand::thread_rng()`: twelve bytes from the
/// thread's cryptographically secure generator. Nothing is claimed of them.
#[verifier::external_body]
fn random_nonce() -> (nonce: [u8; 12]) {
    let mut nonce = [0u8; 12];
    rand::thread_rng().fill_bytes(&mut nonce);
    nonce
}

/// The blob that seals `plaintext` under `key` with `nonce`.
pub open spec fn sealed_blob(key: Seq<u8>, nonce: Seq<u8>, plaintext: Seq<u8>) -> Seq<u8> {
    nonce + aes256_gcm_seal(key, nonce, plaintext)
}

/// What a blob opens to under `key`.
pub open spec fn opened_blob(key: Seq<u8>, blob: Seq<u8>) -> Result<Seq<u8>, DecryptError> {
    if blob.len() < nonce_len() {
        Err(DecryptError::TooShort)
    } else {
        match aes256_gcm_open(key, blob.subrange(0, nonce_len()), blob.skip(nonce_len())) {
            Some(plaintext) => Ok(plaintext),
            None => Err(DecryptError::AuthenticationFailed),
        }
    }
}

/// The text that a blob opens to under `key`.
pub open spec fn opened_text(key: Seq<u8>, blob: Seq<u8>) -> Result<Seq<char>, DecryptError> {
    match opened_blob(key, blob) {
        Ok(plaintext) => if valid_utf8(plaintext) {
            Ok(decode_utf8(plaintext))
        } else {
            Err(DecryptError::InvalidUtf8)
        },
        Err(e) => Err(e),
    }
}

/// Seals `plaintext` under `key` with the given nonce. The caller answers for
/// never using a nonce twice under one key.
pub fn encrypt_with_nonce(key: &[u8; 32], nonce: &[u8; 12], plaintext: &[u8]) -> (r: Result<
    Vec<u8>,
    EncryptError,
>)
    ensures
        r is Ok <==> plaintext@.len() <= max_plaintext_len(),
        r matches Ok(blob) ==> {
            &&& blob@ == sealed_blob(key@, nonce@, plaintext@)
            &&& blob@.len() == nonce_len() + plaintext@.len() + tag_len()
            &&& opened_blob(key@, blob@) == Ok::<Seq<u8>, DecryptError>(plaintext@)
        },
        r matches Err(e) ==> e == EncryptError::PlaintextTooLong,
{
    match gcm_seal(key, nonce, plaintext) {
        Ok(sealed) => {
            let mut blob: Vec<u8> = Vec::with_capacity(12);
            append_bytes(&mut blob, nonce.as_slice());
            append_bytes(&mut blob, sealed.as_slice());
            assert(blob@.subrange(0, nonce_len()) == nonce@);
            assert(blob@.skip(nonce_len()) == sealed@);
            Ok(blob)
        },
        Err(_) => Err(EncryptError::PlaintextTooLong),
    }
}

/// Seals `plaintext` under `key` with a nonce drawn for this call. Whatever
/// nonce was drawn, the blob starts with it and opens under `key` to the
/// plaintext.
pub fn encrypt(key: &[u8; 32], plaintext: &[u8]) -> (r: Result<Vec<u8>, EncryptError>)
    ensures
        r is Ok <==> plaintext@.len() <= max_plaintext_len(),
        r matches Ok(blob) ==> {
            &&& blob@.len() == nonce_len() + plaintext@.len() + tag_len()
            &&& blob@ == sealed_blob(key@, blob@.subrange(0, nonce_len()), plaintext@)
            &&& opened_blob(key@, blob@) == Ok::<Seq<u8>, DecryptError>(plaintext@)
        },
        r matches Err(e) ==> e == EncryptError::PlaintextTooLong,
{
    let nonce = random_nonce();
    let r = encrypt_with_nonce(key, &nonce, plaintext);
    assert(r matches Ok(blob) ==> blob@.subrange(0, nonce_len()) == nonce@);
    r
}

/// Opens a blob under `key`. It fails where the blob is shorter than a nonce,
/// and where the tag does not verify. A blob with no room for a tag behind
/// its nonce is always refused: what opens is a nonce and a tag longer than
/// its plaintext.
pub fn decrypt(key: &[u8; 32], blob: &[u8]) -> (r: Result<Vec<u8>, DecryptError>)
    ensures
        match r {
            Ok(plaintext) => opened_blob(key@, blob@) == Ok::<Seq<u8>, DecryptError>(plaintext@),
            Err(e) => opened_blob(key@, blob@) == Err::<Seq<u8>, DecryptError>(e),
        },
        r matches Ok(plaintext) ==> blob@.len() == nonce_len() + plaintext@.len() + tag_len(),
        blob@.len() < nonce_len() + tag_len() ==> r is Err,
{
    if blob.len() < 12 {
        return Err(DecryptError::TooShort);
    }
    let mut nonce: [u8; 12] = [0u8; 12];
    let mut i: usize = 0;
    while i < 12
        invariant
            i <= 12,
            blob@.len() >= 12,
            forall|j: int| 0 <= j < i ==> nonce@[j] == blob@[j],
        decreases 12 - i,
    {
        nonce[i] = blob[i];
        i += 1;
    }
    assert(nonce@ == blob@.subrange(0, nonce_len()));
    let sealed = slice_subrange(blob, 12, blob.len());
    assert(sealed@ == blob@.skip(nonce_len()));
    match gcm_open(key, &nonce, sealed) {
        Ok(plaintext) => Ok(plaintext),
        Err(_) => Err(DecryptError::AuthenticationFailed),
    }
}

/// Opens a blob that seals text. Beyond what `decrypt` refuses, it refuses a
/// blob that opens to bytes that are not UTF-8.
pub fn decrypt_text(key: &[u8; 32], blob: &[u8]) -> (r: Result<String, DecryptError>)
    ensures
        match r {
            Ok(text) => opened_text(key@, blob@) == Ok::<Seq<char>, DecryptError>(text@),
            Err(e) => opened_text(key@, blob@) == Err::<Seq<char>, DecryptError>(e),
        },
        r matches Ok(text) ==> blob@.len() == nonce_len() + encode_utf8(text@).len() + tag_len(),
        blob@.len() < nonce_len() + tag_len() ==> r is Err,
{
    match decrypt(key, blob) {
        Ok(plaintext) => {
            proof {
                if valid_utf8(plaintext@) {
                    decode_utf8_encode_utf8(plaintext@);
                }
            }
            match text_from_utf8(plaintext) {
                Ok(text) => Ok(text),
                Err(_) => Err(DecryptError::InvalidUtf8),
            }
        },
        Err(e) => Err(e),
    }
}

/// Seals a text under the key of a seed phrase, with a fresh nonce.
pub fn encrypt_network_data(data: String, seed_phrase: String) -> (r: Result<Vec<u8>, EncryptError>)
    ensures
        r is Ok <==> encode_utf8(data@).len() <= max_plaintext_len(),
        r matches Ok(blob) ==> {
            let key = derived_key(encode_utf8(seed_phrase@), Seq::<char>::empty());
            &&& blob@.len() == nonce_len() + encode_utf8(data@).len() + tag_len()
            &&& blob@ == sealed_blob(key, blob@.subrange(0, nonce_len()), encode_utf8(data@))
            &&& opened_text(key, blob@) == Ok::<Seq<char>, DecryptError>(data@)
        },
        r matches Err(e) ==> e == EncryptError::PlaintextTooLong,
{
    let key = derive_key_from_seed(seed_phrase.as_str());
    let r = encrypt(&key, data.as_str().as_bytes());
    proof {
        encode_utf8_valid_utf8(data@);
        encode_utf8_decode_utf8(data@);
    }
    r
}

/// Opens, under the key of a seed phrase, a blob that seals text. A blob
/// with no room for a tag behind its nonce is always refused.
pub fn decrypt_network_data(encrypted_data: Vec<u8>, seed_phrase: String) -> (r: Result<
    String,
    DecryptError,
>)
    ensures
        match r {
            Ok(text) => opened_text(
                derived_key(encode_utf8(seed_phrase@), Seq::<char>::empty()),
                encrypted_data@,
            ) == Ok::<Seq<char>, DecryptError>(text@),
            Err(e) => opened_text(
                derived_key(encode_utf8(seed_phrase@), Seq::<char>::empty()),
                encrypted_data@,
            ) == Err::<Seq<char>, DecryptError>(e),
        },
        r matches Ok(text) ==> encrypted_data@.len() == nonce_len() + encode_utf8(text@).len()
            + tag_len(),
        encrypted_data@.len() < nonce_len() + tag_len() ==> r is Err,
{
    let key = derive_key_from_seed(seed_phrase.as_str());
    decrypt_text(&key, encrypted_data.as_slice())
}

/// Two blobs sealed with different nonces differ, whatever they seal: a fresh
/// nonce alone makes a blob unlike every earlier one.
pub proof fn lemma_nonce_tells_blobs_apart(
    key: Seq<u8>,
    nonce_a: Seq<u8>,
    plaintext_a: Seq<u8>,
    nonce_b: Seq<u8>,
    plaintext_b: Seq<u8>,
)
    requires
        nonce_a.len() == nonce_len(),
        nonce_b.len() == nonce_len(),
        nonce_a != nonce_b,
    ensures
        sealed_blob(key, nonce_a, plaintext_a) != sealed_blob(key, nonce_b, plaintext_b),
{
    let a = sealed_blob(key, nonce_a, plaintext_a);
    let b = sealed_blob(key, nonce_b, plaintext_b);
    assert(a.subrange(0, nonce_len()) == nonce_a);
    assert(b.subrange(0, nonce_len()) == nonce_b);
}

} // verus!
