use vstd::prelude::*;

use rand::seq::SliceRandom;
use rand::RngCore;

verus! {

#[verifier::external_type_specification]
#[verifier::external_body]
pub struct ExMnemonicError(bip39::Error);

/// The English BIP39 words that encode the entropy, in order.
pub uninterp spec fn mnemonic_word_list(entropy: Seq<u8>) -> Seq<Seq<char>>;

/// Relies on `rand::thread_rng` and `RngCore::fill_bytes`: sixteen bytes of
/// randomness.
#[verifier::external_body]
fn random_entropy() -> (r: Vec<u8>)
    ensures
        r@.len() == 16,
{
    let mut entropy = vec![0u8; 16];
    rand::thread_rng().fill_bytes(&mut entropy);
    entropy
}

/// Relies on `bip39::Mnemonic::from_entropy` and `Mnemonic::words`: entropy of
/// 16 to 32 bytes, a multiple of 4, gives three words for every four bytes;
/// any other length is refused.
#[verifier::external_body]
fn mnemonic_words(entropy: &Vec<u8>) -> (r: Result<Vec<String>, bip39::Error>)
    requires
        entropy@.len() <= 32,
    ensures
        r is Ok <==> (entropy@.len() % 4 == 0 && 16 <= entropy@.len()),
        r matches Ok(w) ==> w@.len() == entropy@.len() * 3 / 4
            && w@.map_values(|s: String| s@) == mnemonic_word_list(entropy@),
{
    bip39::Mnemonic::from_entropy(entropy).map(|m| m.words().map(|w| w.to_string()).collect())
}

/// Relies on `rand::seq::SliceRandom::choose` with `rand::thread_rng`: one of
/// the words, none only when there are none.
#[verifier::external_body]
fn choose_word(words: &Vec<String>) -> (r: Option<String>)
    ensures
        r is None <==> words@.len() == 0,
        r matches Some(w) ==> exists|i: int| 0 <= i < words@.len() && w@ == words@[i]@,
{
    words.choose(&mut rand::thread_rng()).cloned()
}

/// A name drawn at random among the twelve words that encode fresh entropy.
pub open spec fn is_mnemonic_word(name: Seq<char>) -> bool {
    exists|e: Seq<u8>, i: int| e.len() == 16 && 0 <= i < 12 && #[trigger] mnemonic_word_list(e)[i] == name
}

/// A random worktree name: one word of a twelve-word BIP39 mnemonic drawn
/// from sixteen random bytes.
pub fn generate_random_name() -> (r: String)
    ensures
        is_mnemonic_word(r@),
{
    let entropy = random_entropy();
    match mnemonic_words(&entropy) {
        Ok(words) => {
            match choose_word(&words) {
                Some(w) => {
                    proof {
                        let i = choose|i: int| 0 <= i < words@.len() && w@ == words@[i]@;
                        assert(words@.map_values(|s: String| s@)[i] == words@[i]@);
                        assert(mnemonic_word_list(entropy@)[i] == w@);
                    }
                    w
                },
                None => vstd::pervasive::unreached(),
            }
        },
        Err(_) => vstd::pervasive::unreached(),
    }
}

/// The given name, or a random one when none is given.
pub fn worktree_name_or_random(name: Option<String>) -> (r: String)
    ensures
        match name {
            Some(n) => r@ == n@,
            None => is_mnemonic_word(r@),
        },
{
    match name {
        Some(n) => n,
        None => generate_random_name(),
    }
}

} // verus!
