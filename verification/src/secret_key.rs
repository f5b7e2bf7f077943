//! The secret key of the user's own node, and how it is stored.
use vstd::prelude::*;

verus! {

/// A secret key, and what is to be stored of it.
#[derive(Debug)]
pub struct Keypair {
    pub secret_key: [u8; 32],
    /// The text to store, for a key that is not stored yet.
    pub persist: Option<String>,
}

/// The text that stands for a secret key.
pub uninterp spec fn secret_key_text(key: Seq<u8>) -> Seq<char>;

/// The secret key that a text stands for, if it stands for one.
pub uninterp spec fn secret_key_of(text: Seq<char>) -> Option<Seq<u8>>;

/// Calls `iroh_base::key::SecretKey::generate`.
///
/// Trusted: nothing but that there are thirty-two bytes, which their type says.
#[verifier::external_body]
fn generate_secret_key() -> [u8; 32] {
    iroh_base::key::SecretKey::generate().to_bytes()
}

/// Calls `to_string` of `iroh_base::key::SecretKey`.
///
/// Trusted: the text depends on the key alone, and reads as that key.
#[verifier::external_body]
fn write_secret_key(key: &[u8; 32]) -> (r: String)
    ensures
        r@ == secret_key_text(key@),
        secret_key_of(r@) == Some(key@),
{
    iroh_base::key::SecretKey::from_bytes(key).to_string()
}

/// Calls `parse` to `iroh_base::key::SecretKey`.
///
/// Trusted: whether a text stands for a key, and for which one, depends on the text alone.
#[verifier::external_body]
fn read_secret_key(text: &str) -> (r: Option<[u8; 32]>)
    ensures
        match r {
            Some(key) => secret_key_of(text@) == Some(key@),
            None => secret_key_of(text@) is None,
        },
{
    text.parse::<iroh_base::key::SecretKey>().ok().map(|key| key.to_bytes())
}

/// What a record of the secret key holds.
pub open spec fn stored_key(stored: Option<Seq<char>>) -> Option<Seq<u8>> {
    match stored {
        Some(text) => secret_key_of(text),
        None => None,
    }
}

/// Whether `r` is the key pair for a record of the secret key: the recorded key, or, where
/// there is none, some key with a text to store that reads as that key.
pub open spec fn is_keypair_for(stored: Option<Seq<char>>, r: Keypair) -> bool {
    match stored_key(stored) {
        Some(key) => r.secret_key@ == key && r.persist is None,
        None => r.persist matches Some(text) && text@ == secret_key_text(r.secret_key@)
            && secret_key_of(text@) == Some(r.secret_key@),
    }
}

/// Reads a record of the secret key: nothing where there is none, or it cannot be read.
pub fn load_secret_key(stored: Option<&str>) -> (r: Option<[u8; 32]>)
    ensures
        match r {
            Some(key) => stored_key(crate::text::str_view(stored)) == Some(key@),
            None => stored_key(crate::text::str_view(stored)) is None,
        },
{
    match stored {
        Some(text) => read_secret_key(text),
        None => None,
    }
}

/// The key pair of a key that is not stored yet, with the text to store.
pub fn new_keypair(secret_key: [u8; 32]) -> (r: Keypair)
    ensures
        r.secret_key == secret_key,
        r.persist matches Some(text) && text@ == secret_key_text(secret_key@) && secret_key_of(
            text@,
        ) == Some(secret_key@),
{
    let text = write_secret_key(&secret_key);
    Keypair { secret_key, persist: Some(text) }
}

/// The secret key that is stored, or else a new one, with the text to store.
pub fn get_or_generate_iroh_keypair(stored: Option<&str>) -> (r: Keypair)
    ensures
        is_keypair_for(crate::text::str_view(stored), r),
{
    match load_secret_key(stored) {
        Some(key) => Keypair { secret_key: key, persist: None },
        None => new_keypair(generate_secret_key()),
    }
}

/// A record that can be read gives its key, and nothing is stored; any other gives a new key
/// with a text to store, and that text reads as the new key.
pub proof fn law_record_is_read_or_replaced(stored: Option<Seq<char>>, r: Keypair)
    ensures
        is_keypair_for(stored, r) ==> match stored {
            Some(text) => secret_key_of(text) matches Some(key) ==> r.secret_key@ == key
                && r.persist is None,
            None => r.persist is Some,
        },
        is_keypair_for(stored, r) && (stored matches Some(text) ==> secret_key_of(text) is None)
            ==> (r.persist matches Some(new) && secret_key_of(new@) == Some(r.secret_key@)),
{
}

/// A key that was generated and stored is the key that is loaded from then on, and it is
/// not stored again.
pub proof fn law_stored_key_is_kept(
    stored: Option<Seq<char>>,
    first: Keypair,
    text: Seq<char>,
    second: Keypair,
)
    ensures
        is_keypair_for(stored, first) && crate::text::string_view(first.persist) == Some(text)
            && is_keypair_for(Some(text), second) ==> second.secret_key@ == first.secret_key@
            && second.persist is None,
{
}

} // verus!
