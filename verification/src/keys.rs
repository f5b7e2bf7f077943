//! Keys of peers, and which of them count when a signature is validated.
use vstd::prelude::*;

verus! {

/// The fingerprint of a key.
#[derive(Debug, PartialEq, Eq, Hash)]
pub struct Fingerprint {
    pub bytes: Vec<u8>,
}

/// A public key: its fingerprint, and its bytes as they are exchanged.
#[derive(Debug)]
pub struct SignedPublicKey {
    pub fingerprint: Fingerprint,
    pub bytes: Vec<u8>,
}

/// What a [`SignedPublicKey`] stands for.
pub struct KeyView {
    pub fingerprint: Seq<u8>,
    pub bytes: Seq<u8>,
}

impl Fingerprint {
    pub open spec fn view(self) -> Seq<u8> {
        self.bytes@
    }
}

impl Clone for Fingerprint {
    fn clone(&self) -> (r: Self)
        ensures
            r@ == self@,
    {
        let bytes = self.bytes.clone();
        assert(bytes@ =~= self.bytes@);
        Fingerprint { bytes }
    }
}

impl SignedPublicKey {
    pub open spec fn view(self) -> KeyView {
        KeyView { fingerprint: self.fingerprint@, bytes: self.bytes@ }
    }
}

impl Clone for SignedPublicKey {
    fn clone(&self) -> (r: Self)
        ensures
            r@ == self@,
    {
        let bytes = self.bytes.clone();
        assert(bytes@ =~= self.bytes@);
        SignedPublicKey { fingerprint: self.fingerprint.clone(), bytes }
    }
}

/// What an Autocrypt header announces: the key of the sender.
#[derive(Debug)]
pub struct Aheader {
    pub public_key: SignedPublicKey,
}

/// What is known of the keys of a peer.
#[derive(Debug)]
pub struct Peerstate {
    pub addr: String,
    /// The key that the peer announced.
    pub public_key: Option<SignedPublicKey>,
    /// The key that others passed on.
    pub gossip_key: Option<SignedPublicKey>,
}

/// A list of keys.
#[derive(Debug)]
pub struct Keyring {
    keys: Vec<SignedPublicKey>,
}

impl Keyring {
    pub closed spec fn view(self) -> Seq<KeyView> {
        self.keys@.map_values(|key: SignedPublicKey| key@)
    }

    /// A keyring without keys.
    pub fn new() -> (r: Self)
        ensures
            r@ == Seq::<KeyView>::empty(),
    {
        let r = Keyring { keys: Vec::new() };
        assert(r@ =~= seq![]);
        r
    }

    /// Adds a key behind those that the keyring holds.
    pub fn add(&mut self, key: SignedPublicKey)
        ensures
            final(self)@ == old(self)@.push(key@),
    {
        self.keys.push(key);
        assert(self@ =~= old(self)@.push(key@));
    }

    pub fn len(&self) -> (r: usize)
        ensures
            r == self@.len(),
    {
        self.keys.len()
    }

    /// The key at position `i`.
    pub fn get(&self, i: usize) -> (r: Option<&SignedPublicKey>)
        ensures
            match r {
                Some(key) => i < self@.len() && key@ == self@[i as int],
                None => i >= self@.len(),
            },
    {
        if i < self.keys.len() {
            Some(&self.keys[i])
        } else {
            None
        }
    }
}

/// The keys that count when a signature of a peer is validated.
pub open spec fn keys_of(peerstate: Option<Peerstate>) -> Seq<KeyView> {
    match peerstate {
        Some(peerstate) => match peerstate.public_key {
            Some(key) => seq![key@],
            None => match peerstate.gossip_key {
                Some(key) => seq![key@],
                None => seq![],
            },
        },
        None => seq![],
    }
}

/// The keys that count when a signature of a peer is validated: the key that the peer
/// announced, or else the key that others passed on.
pub fn keyring_from_peerstate(peerstate: &Option<Peerstate>) -> (r: Keyring)
    ensures
        r@ == keys_of(*peerstate),
{
    let mut keyring = Keyring::new();
    if let Some(peerstate) = peerstate {
        if let Some(key) = &peerstate.public_key {
            keyring.add(key.clone());
        } else if let Some(key) = &peerstate.gossip_key {
            keyring.add(key.clone());
        }
    }
    assert(keyring@ =~= keys_of(*peerstate));
    keyring
}

/// At most one key of a peer counts, and a key that others passed on never counts beside
/// one that the peer announced.
pub proof fn law_announced_key_comes_first(peerstate: Peerstate)
    ensures
        keys_of(Some(peerstate)).len() <= 1,
        peerstate.public_key matches Some(key) ==> keys_of(Some(peerstate)) == seq![key@],
        peerstate.public_key is None ==> (peerstate.gossip_key matches Some(key) ==> keys_of(
            Some(peerstate),
        ) == seq![key@]),
        keys_of(Some(peerstate)).len() == 0 <==> peerstate.public_key is None
            && peerstate.gossip_key is None,
        keys_of(None).len() == 0,
{
}

} // verus!
