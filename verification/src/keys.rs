//! Purpose-scoped keys out of one shared secret.
//!
//! A key is the SHA-256 digest of the secret, the purpose's label and a fixed
//! domain separator, in that order.

use vstd::prelude::*;
use vstd::utf8::*;
use sha2::Digest;
use crate::buffer::append_bytes;

verus! {

/// The SHA-256 digest of a byte string.
pub uninterp spec fn sha256_digest(data: Seq<u8>) -> Seq<u8>;

/// `Sha256::digest` of the `sha2` crate: the 32-byte SHA-256 digest of `data`.
/// The digest is a function of the bytes alone, which is all that is claimed.
#[verifier::external_body]
fn sha256(data: &[u8]) -> (digest: [u8; 32])
    ensures
        digest@ == sha256_digest(data@),
{
    sha2::Sha256::digest(data).into()
}

/// The separator that closes every hash input, so that keys of this
/// application are not those of another that hashes the same secret.
pub open spec fn domain_separator() -> Seq<u8> {
    encode_utf8("network_data_encryption"@)
}

/// What is hashed for a secret and a purpose.
pub open spec fn key_preimage(seed: Seq<u8>, purpose: Seq<char>) -> Seq<u8> {
    seed + encode_utf8(purpose) + domain_separator()
}

/// The key of a secret for a purpose.
pub open spec fn derived_key(seed: Seq<u8>, purpose: Seq<char>) -> Seq<u8> {
    sha256_digest(key_preimage(seed, purpose))
}

/// The keys of one secret.
pub struct KeyMaterial {
    pub encryption: [u8; 32],
    pub signing: [u8; 32],
    pub identity: [u8; 32],
    pub network: [u8; 32],
}

/// Derives the 256-bit key of `seed` for `purpose`. An empty seed is
/// accepted; its keys depend on the purpose alone.
pub fn derive_key(seed: &[u8], purpose: &str) -> (key: [u8; 32])
    ensures
        key@ == derived_key(seed@, purpose@),
{
    let mut input: Vec<u8> = Vec::new();
    append_bytes(&mut input, seed);
    append_bytes(&mut input, purpose.as_bytes());
    append_bytes(&mut input, "network_data_encryption".as_bytes());
    assert(input@ == key_preimage(seed@, purpose@));
    sha256(input.as_slice())
}

/// Derives the key under which a seed phrase seals network data: the key of
/// the phrase's bytes for the empty purpose.
pub fn derive_key_from_seed(seed_phrase: &str) -> (key: [u8; 32])
    ensures
        key@ == derived_key(encode_utf8(seed_phrase@), Seq::<char>::empty()),
{
    let key = derive_key(seed_phrase.as_bytes(), "");
    proof {
        reveal_strlit("");
        assert(""@ == Seq::<char>::empty());
    }
    key
}

impl KeyMaterial {
    /// Derives the four keys of `seed`, each for its own purpose.
    pub fn derive(seed: &[u8]) -> (keys: KeyMaterial)
        ensures
            keys.encryption@ == derived_key(seed@, "encryption"@),
            keys.signing@ == derived_key(seed@, "signing"@),
            keys.identity@ == derived_key(seed@, "identity"@),
            keys.network@ == derived_key(seed@, "network"@),
    {
        KeyMaterial {
            encryption: derive_key(seed, "encryption"),
            signing: derive_key(seed, "signing"),
            identity: derive_key(seed, "identity"),
            network: derive_key(seed, "network"),
        }
    }
}

/// Derivation is deterministic: the same secret and purpose give the same key.
pub proof fn lemma_derivation_deterministic(
    seed_a: Seq<u8>,
    purpose_a: Seq<char>,
    seed_b: Seq<u8>,
    purpose_b: Seq<char>,
)
    requires
        seed_a == seed_b,
        purpose_a == purpose_b,
    ensures
        derived_key(seed_a, purpose_a) == derived_key(seed_b, purpose_b),
{
}

/// Under one secret, two different purposes never hash the same input: their
/// keys are digests of different byte strings.
pub proof fn lemma_purposes_hash_apart(seed: Seq<u8>, purpose_a: Seq<char>, purpose_b: Seq<char>)
    requires
        purpose_a != purpose_b,
    ensures
        key_preimage(seed, purpose_a) != key_preimage(seed, purpose_b),
{
    let a = encode_utf8(purpose_a);
    let b = encode_utf8(purpose_b);
    let d = domain_separator();
    encode_utf8_decode_utf8(purpose_a);
    encode_utf8_decode_utf8(purpose_b);
    assert(a != b);
    if key_preimage(seed, purpose_a) == key_preimage(seed, purpose_b) {
        let x = seed + a + d;
        let y = seed + b + d;
        assert(x.len() == y.len());
        assert(a.len() == b.len());
        assert forall|i: int| 0 <= i < a.len() implies a[i] == b[i] by {
            assert(x[seed.len() + i] == a[i]);
            assert(y[seed.len() + i] == b[i]);
        }
        assert(a =~= b);
    }
}

} // verus!
