//! Secret phrases: making one, checking one, and stretching one into the seed
//! from which keys are derived.
//!
//! The word list, the checksum and the stretching are BIP39's, done by the
//! `bip39` crate. A phrase is read in English and as it stands, without
//! normalising it first.

use vstd::prelude::*;
use rand::Rng;

verus! {

/// Why a phrase gave no seed.
#[derive(Debug, Clone, Copy, PartialEq, Eq)]
pub enum InvalidSecret {
    /// The phrase has this many words, which is none of 12, 15, 18, 21 and 24.
    BadWordCount(usize),
    /// The word at this place, counted from zero, is not in the word list.
    UnknownWord(usize),
    /// The words do not bear out their checksum.
    InvalidChecksum,
    /// Another fault, which reading a phrase does not give.
    Other,
}

/// The English mnemonic phrase that BIP39 gives to an entropy.
pub uninterp spec fn bip39_phrase(entropy: Seq<u8>) -> Seq<char>;

/// A text is a valid English mnemonic phrase of BIP39.
pub uninterp spec fn bip39_valid(phrase: Seq<char>) -> bool;

/// The seed that BIP39 stretches a phrase and a passphrase into, or `None`
/// where the phrase is not valid.
pub uninterp spec fn bip39_seed(phrase: Seq<char>, passphrase: Seq<char>) -> Option<Seq<u8>>;

/// Length of the entropy behind a 24-word phrase, in bytes.
pub open spec fn entropy_len() -> int {
    32
}

/// Length of a seed, in bytes.
pub open spec fn seed_len() -> int {
    64
}

/// `Rng::fill` on `rand::thread_rng()`: thirty-two bytes from the thread's
/// cryptographically secure generator. Nothing is claimed of them.
#[verifier::external_body]
fn random_entropy() -> (entropy: [u8; 32]) {
    let mut entropy = [0u8; 32];
    rand::thread_rng().fill(&mut entropy);
    entropy
}

/// `Mnemonic::from_entropy_in` of the `bip39` crate, for English, written out
/// by the mnemonic's `Display`. Thirty-two bytes are an entropy that it
/// accepts, and the phrase depends on the bytes alone. `None` stands for its
/// error.
#[verifier::external_body]
fn phrase_of_entropy(entropy: &[u8; 32]) -> (r: Option<String>)
    ensures
        r is Some,
        r matches Some(phrase) ==> phrase@ == bip39_phrase(entropy@),
{
    match bip39::Mnemonic::from_entropy_in(bip39::Language::English, entropy) {
        Ok(mnemonic) => Some(mnemonic.to_string()),
        Err(_) => None,
    }
}

/// `Mnemonic::parse_in_normalized` of the `bip39` crate, for English: whether
/// it accepts the phrase, which depends on the phrase alone.
#[verifier::external_body]
fn phrase_parses(phrase: &str) -> (valid: bool)
    ensures
        valid == bip39_valid(phrase@),
{
    match bip39::Mnemonic::parse_in_normalized(bip39::Language::English, phrase) {
        Ok(_) => true,
        Err(_) => false,
    }
}

/// `Mnemonic::to_seed` of the `bip39` crate, on what
/// `Mnemonic::parse_in_normalized` makes of the phrase. It gives a seed
/// exactly for the phrases that parse; the seed has 64 bytes and depends on
/// phrase and passphrase alone. Which fault a refused phrase has is handed
/// on as the crate reports it, and nothing is claimed of it.
#[verifier::external_body]
fn seed_of_phrase(phrase: &str, passphrase: &str) -> (r: Result<Vec<u8>, InvalidSecret>)
    ensures
        r is Ok <==> bip39_valid(phrase@),
        match r {
            Ok(seed) => bip39_seed(phrase@, passphrase@) == Some(seed@) && seed@.len()
                == seed_len(),
            Err(_) => bip39_seed(phrase@, passphrase@) is None,
        },
{
    match bip39::Mnemonic::parse_in_normalized(bip39::Language::English, phrase) {
        Ok(mnemonic) => Ok(mnemonic.to_seed(passphrase).to_vec()),
        Err(bip39::Error::BadWordCount(count)) => Err(InvalidSecret::BadWordCount(count)),
        Err(bip39::Error::UnknownWord(place)) => Err(InvalidSecret::UnknownWord(place)),
        Err(bip39::Error::InvalidChecksum) => Err(InvalidSecret::InvalidChecksum),
        Err(_) => Err(InvalidSecret::Other),
    }
}

/// The 24-word phrase of a given entropy.
pub fn seed_phrase_from_entropy(entropy: &[u8; 32]) -> (phrase: String)
    ensures
        phrase@ == bip39_phrase(entropy@),
{
    match phrase_of_entropy(entropy) {
        Some(phrase) => phrase,
        // Thirty-two bytes always have a phrase, so this arm is never taken.
        None => String::new(),
    }
}

/// Generates a new 24-word phrase from 256 bits drawn for this call.
/// Whatever was drawn, the phrase is the one of those bits.
pub fn generate_seed_phrase() -> (phrase: String)
    ensures
        exists|entropy: Seq<u8>|
            entropy.len() == entropy_len() && phrase@ == #[trigger] bip39_phrase(entropy),
{
    let entropy = random_entropy();
    let phrase = seed_phrase_from_entropy(&entropy);
    assert(entropy@.len() == entropy_len() && phrase@ == bip39_phrase(entropy@));
    phrase
}

/// Tells whether a text is a valid phrase.
pub fn validate_seed_phrase(phrase: String) -> (valid: bool)
    ensures
        valid == bip39_valid(phrase@),
{
    phrase_parses(phrase.as_str())
}

/// The passphrase that stretching uses: the one given, or the empty one.
pub open spec fn passphrase_or_empty(passphrase: Option<String>) -> Seq<char> {
    match passphrase {
        Some(text) => text@,
        None => Seq::<char>::empty(),
    }
}

/// Stretches a phrase, with a passphrase or without, into the 64-byte seed
/// from which keys are derived. It fails exactly on the phrases that are not
/// valid.
pub fn derive_seed_from_phrase(phrase: String, passphrase: Option<String>) -> (r: Result<
    Vec<u8>,
    InvalidSecret,
>)
    ensures
        r is Ok <==> bip39_valid(phrase@),
        r matches Ok(seed) ==> {
            &&& bip39_seed(phrase@, passphrase_or_empty(passphrase)) == Some(seed@)
            &&& seed@.len() == seed_len()
        },
{
    match &passphrase {
        Some(text) => seed_of_phrase(phrase.as_str(), text.as_str()),
        None => {
            proof {
                reveal_strlit("");
                assert(""@ == Seq::<char>::empty());
            }
            seed_of_phrase(phrase.as_str(), "")
        },
    }
}

} // verus!
