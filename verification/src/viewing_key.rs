//! Viewing keys: the secrets with which an account's own data may be read.

use vstd::prelude::*;
use vstd::string::*;

use crate::table::{Table, TableKey};
use crate::types::{copy_bytes, same_bytes, Env, HumanAddr};

verus! {

/// How many characters a viewing key has.
pub const API_KEY_LENGTH: usize = 44;

/// A viewing key.
#[derive(Debug, PartialEq, Eq)]
pub struct ViewingKey(pub String);

impl View for ViewingKey {
    type V = Seq<char>;

    open spec fn view(&self) -> Seq<char> {
        self.0@
    }
}

impl TableKey for ViewingKey {
    fn same(&self, other: &Self) -> (r: bool) {
        self.0 == other.0
    }
}

/// What a new viewing key is derived from.
#[derive(Debug, PartialEq, Eq)]
pub struct KeyRequest {
    pub sender: HumanAddr,
    pub seed: Vec<u8>,
    pub entropy: Vec<u8>,
}

/// The view of [`KeyRequest`].
pub struct KeyRequestView {
    pub sender: Seq<char>,
    pub seed: Seq<u8>,
    pub entropy: Seq<u8>,
}

impl View for KeyRequest {
    type V = KeyRequestView;

    open spec fn view(&self) -> KeyRequestView {
        KeyRequestView { sender: self.sender@, seed: self.seed@, entropy: self.entropy@ }
    }
}

impl TableKey for KeyRequest {
    fn same(&self, other: &Self) -> (r: bool) {
        self.sender.same(&other.sender) && same_bytes(&self.seed, &other.seed) && same_bytes(
            &self.entropy,
            &other.entropy,
        )
    }
}

/// The answers of the key derivation for one message: the keys that it made, and the digests
/// under which keys are kept.
pub struct KeyService {
    made: Table<KeyRequest, ViewingKey>,
    digests: Table<ViewingKey, Vec<u8>>,
}

/// The view of [`KeyService`].
#[verifier::ext_equal]
pub struct KeyServiceView {
    pub made: Map<KeyRequestView, Seq<char>>,
    pub digests: Map<Seq<char>, Seq<u8>>,
}

impl View for KeyService {
    type V = KeyServiceView;

    closed spec fn view(&self) -> KeyServiceView {
        KeyServiceView { made: self.made@, digests: self.digests@ }
    }
}

impl KeyServiceView {
    /// Whether a key was made of the request.
    pub open spec fn has_made(self, request: KeyRequestView) -> bool {
        self.made.contains_key(request)
    }

    /// The key that was made of the request.
    pub open spec fn new_key(self, request: KeyRequestView) -> Seq<char>
        recommends
            self.has_made(request),
    {
        self.made[request]
    }

    /// The digest of the key.
    pub open spec fn digest(self, key: Seq<char>) -> Option<Seq<u8>> {
        if self.digests.contains_key(key) {
            Some(self.digests[key])
        } else {
            None
        }
    }

    /// Whether the key has the given digest.
    pub open spec fn matches(self, key: Seq<char>, digest: Seq<u8>) -> bool {
        self.digest(key) == Some(digest)
    }
}

impl KeyService {
    /// A service that has answered nothing.
    pub fn new() -> (r: Self)
        ensures
            r@.made == Map::<KeyRequestView, Seq<char>>::empty(),
            r@.digests == Map::<Seq<char>, Seq<u8>>::empty(),
    {
        KeyService { made: Table::new(), digests: Table::new() }
    }

    /// Takes down that `key` was made of `request`.
    pub fn answer_new_key(&mut self, request: KeyRequest, key: ViewingKey)
        ensures
            final(self)@ == (KeyServiceView {
                made: old(self)@.made.insert(request@, key@),
                ..old(self)@
            }),
    {
        self.made.insert(request, key);
    }

    /// Takes down the digest of `key`.
    pub fn answer_digest(&mut self, key: ViewingKey, digest: Vec<u8>)
        ensures
            final(self)@ == (KeyServiceView {
                digests: old(self)@.digests.insert(key@, digest@),
                ..old(self)@
            }),
    {
        self.digests.insert(key, digest);
    }

    /// Whether a key was made of `request`.
    pub fn has_made(&self, request: &KeyRequest) -> (r: bool)
        ensures
            r == self@.has_made(request@),
    {
        self.made.get(request).is_some()
    }

    /// The digest of `key`, if it was taken down.
    pub fn digest(&self, key: &ViewingKey) -> (r: Option<Vec<u8>>)
        ensures
            match r {
                Some(d) => self@.digest(key@) == Some(d@),
                None => self@.digest(key@) is None,
            },
    {
        match self.digests.get(key) {
            Some(d) => Some(copy_bytes(d)),
            None => None,
        }
    }
}

impl ViewingKey {
    /// The key that was made for the sender of the message, of the seed and the entropy.
    pub fn new(keys: &KeyService, env: &Env, seed: Vec<u8>, entropy: Vec<u8>) -> (r: ViewingKey)
        requires
            keys@.has_made(
                KeyRequestView { sender: env@.sender, seed: seed@, entropy: entropy@ },
            ),
        ensures
            r@ == keys@.new_key(
                KeyRequestView { sender: env@.sender, seed: seed@, entropy: entropy@ },
            ),
    {
        let request = KeyRequest { sender: env.message.sender.clone(), seed, entropy };
        match keys.made.get(&request) {
            Some(key) => ViewingKey(key.0.clone()),
            None => vstd::pervasive::unreached(),
        }
    }

    /// Whether the key has the length of a viewing key.
    pub fn is_valid(&self) -> (r: bool)
        ensures
            r == (self@.len() == API_KEY_LENGTH),
    {
        self.0.as_str().unicode_len() == API_KEY_LENGTH
    }

    /// Whether the key is the one that was kept under `hashed_pw`.
    pub fn check_viewing_key(&self, keys: &KeyService, hashed_pw: &Vec<u8>) -> (r: bool)
        requires
            keys@.digest(self@) is Some,
        ensures
            r == keys@.matches(self@, hashed_pw@),
    {
        match keys.digests.get(self) {
            Some(d) => same_bytes(d, hashed_pw),
            None => vstd::pervasive::unreached(),
        }
    }
}

} // verus!
