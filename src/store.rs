//! The avatar store: at most one blob per user, with an integrity hash that
//! is computed from the stored bytes whenever it is asked for.
use std::collections::HashMap;
use vstd::prelude::*;

verus! {

broadcast use vstd::std_specs::hash::group_hash_axioms;

/// The SHA-256 digest of `data`.
pub uninterp spec fn sha256_of(data: Seq<u8>) -> Seq<u8>;

/// Length in bytes of a SHA-256 digest.
pub const DIGEST_LEN: usize = 32;

/// Relies on `sha2::Sha256::digest` (through the `Digest` trait): the
/// SHA-256 digest of the bytes, which is 32 bytes long.
#[verifier::external_body]
fn sha256(data: &[u8]) -> (r: Vec<u8>)
    ensures
        r@ == sha256_of(data@),
        r@.len() == DIGEST_LEN,
{
    <sha2::Sha256 as sha2::Digest>::digest(data).to_vec()
}

/// Why a store operation found nothing to work on.
#[derive(Clone, Copy, Debug, PartialEq, Eq, Structural)]
pub enum StoreError {
    /// The user has no stored avatar.
    NotFound,
}

/// The blob stored for `user`, if any.
pub open spec fn blob_of(m: Map<u128, Seq<u8>>, user: u128) -> Option<Seq<u8>> {
    if m.contains_key(user) {
        Some(m[user])
    } else {
        None
    }
}

/// The integrity hash reported for `user`, if any.
pub open spec fn hash_of(m: Map<u128, Seq<u8>>, user: u128) -> Option<Seq<u8>> {
    if m.contains_key(user) {
        Some(sha256_of(m[user]))
    } else {
        None
    }
}

/// A user without a stored blob has no blob and no integrity hash.
pub proof fn lemma_absent_user(m: Map<u128, Seq<u8>>, user: u128)
    requires
        !m.contains_key(user),
    ensures
        blob_of(m, user) is None,
        hash_of(m, user) is None,
{
}

/// After `put(user, b1)` the hash is that of `b1`; after a second
/// `put(user, b2)` it is that of `b2`.
pub proof fn lemma_hash_follows_put(m: Map<u128, Seq<u8>>, user: u128, b1: Seq<u8>, b2: Seq<u8>)
    ensures
        hash_of(m.insert(user, b1), user) == Some(sha256_of(b1)),
        hash_of(m.insert(user, b1).insert(user, b2), user) == Some(sha256_of(b2)),
{
}

/// Two whole writes of `a` and `b` for one user, in either order, leave
/// exactly one of them: the whole of `a` or the whole of `b`.
pub proof fn lemma_writes_are_whole(m: Map<u128, Seq<u8>>, user: u128, a: Seq<u8>, b: Seq<u8>)
    ensures
        blob_of(m.insert(user, a).insert(user, b), user) == Some(b),
        blob_of(m.insert(user, b).insert(user, a), user) == Some(a),
{
}

/// Deleting a user's blob leaves no blob and no hash for that user.
pub proof fn lemma_delete_clears(m: Map<u128, Seq<u8>>, user: u128)
    ensures
        blob_of(m.remove(user), user) is None,
        hash_of(m.remove(user), user) is None,
{
}

/// Avatar blobs keyed by the owner's identifier.
pub struct AvatarStore {
    blobs: HashMap<u128, Vec<u8>>,
}

impl View for AvatarStore {
    type V = Map<u128, Seq<u8>>;

    closed spec fn view(&self) -> Map<u128, Seq<u8>> {
        self.blobs@.map_values(|v: Vec<u8>| v@)
    }
}

impl AvatarStore {
    /// A store that holds no blob.
    pub fn new() -> (r: AvatarStore)
        ensures
            r@ == Map::<u128, Seq<u8>>::empty(),
    {
        let r = AvatarStore { blobs: HashMap::new() };
        assert(r@ =~= Map::<u128, Seq<u8>>::empty());
        r
    }

    /// Stores `bytes` as `user`'s blob, replacing any earlier one whole.
    /// Returns whether one was replaced.
    pub fn put(&mut self, user: u128, bytes: Vec<u8>) -> (replaced: bool)
        ensures
            replaced == old(self)@.contains_key(user),
            final(self)@ == old(self)@.insert(user, bytes@),
    {
        let ghost b = bytes@;
        let prev = self.blobs.insert(user, bytes);
        assert(self@ =~= old(self)@.insert(user, b));
        prev.is_some()
    }

    /// Whether `user` has a stored blob.
    pub fn contains(&self, user: u128) -> (r: bool)
        ensures
            r == self@.contains_key(user),
    {
        self.blobs.contains_key(&user)
    }

    /// The blob stored for `user`.
    pub fn get(&self, user: u128) -> (r: Result<&Vec<u8>, StoreError>)
        ensures
            match r {
                Ok(b) => blob_of(self@, user) == Some(b@),
                Err(e) => blob_of(self@, user) is None && e == StoreError::NotFound,
            },
    {
        match self.blobs.get(&user) {
            Some(b) => Ok(b),
            None => Err(StoreError::NotFound),
        }
    }

    /// Removes `user`'s blob.
    pub fn delete(&mut self, user: u128) -> (r: Result<(), StoreError>)
        ensures
            r is Ok == old(self)@.contains_key(user),
            r matches Err(e) ==> e == StoreError::NotFound,
            final(self)@ == old(self)@.remove(user),
    {
        let prev = self.blobs.remove(&user);
        assert(self@ =~= old(self)@.remove(user));
        match prev {
            Some(_) => Ok(()),
            None => Err(StoreError::NotFound),
        }
    }

    /// The SHA-256 digest of the bytes stored for `user` now.
    pub fn integrity_hash(&self, user: u128) -> (r: Result<Vec<u8>, StoreError>)
        ensures
            match r {
                Ok(d) => hash_of(self@, user) == Some(d@) && d@.len() == DIGEST_LEN,
                Err(e) => hash_of(self@, user) is None && e == StoreError::NotFound,
            },
    {
        match self.get(user) {
            Ok(b) => Ok(sha256(b.as_slice())),
            Err(e) => Err(e),
        }
    }
}

} // verus!
