//! Profile information: what a user's public profile reports, built from the
//! directory record, the configured badges and the avatar store; and the
//! requests that read, upload, delete or equip an avatar.
use vstd::prelude::*;

use crate::badges::{ints_to_flags, EquippedBadges, PrideBadges, SpecialBadges, PRIDE_COUNT, SPECIAL_COUNT};
use crate::directory::{has_id, has_token, IdentityDirectory, UserRecord};
use crate::state::{notifies, send_event, ApiError, AppState, Notification};
use crate::store::{blob_of, sha256_of, AvatarStore};

verus! {

/// An avatar entry of a profile: whose it is and the digest of its bytes.
#[derive(Debug)]
pub struct EquippedAvatar {
    pub owner: u128,
    pub hash: Vec<u8>,
}

/// Badges configured for a user, in their wire form.
#[derive(Debug)]
pub struct BadgeSettings {
    pub special: Vec<u8>,
    pub pride: Vec<u8>,
}

/// Whether configured badges have one entry per badge.
pub open spec fn settings_valid(s: BadgeSettings) -> bool {
    s.special@.len() == SPECIAL_COUNT && s.pride@.len() == PRIDE_COUNT
}

/// Whether there are no configured badges, or well-formed ones.
pub open spec fn settings_ok(s: Option<&BadgeSettings>) -> bool {
    match s {
        Some(s) => settings_valid(*s),
        None => true,
    }
}

/// A user's public profile.
#[derive(Debug)]
pub struct User {
    pub uuid: u128,
    pub rank: String,
    pub last_used: String,
    pub equipped: Vec<EquippedAvatar>,
    pub equipped_badges: EquippedBadges,
    pub version: String,
    pub banned: bool,
}

/// The avatar entries as (owner, digest) pairs.
pub open spec fn entries_view(e: Seq<EquippedAvatar>) -> Seq<(u128, Seq<u8>)> {
    e.map_values(|a: EquippedAvatar| (a.owner, a.hash@))
}

/// The avatar entries a profile of `uuid` reports for the blobs in `m`: one
/// with the digest of the stored bytes, or none where there is no blob.
pub open spec fn expected_entries(m: Map<u128, Seq<u8>>, uuid: u128) -> Seq<(u128, Seq<u8>)> {
    if m.contains_key(uuid) {
        seq![(uuid, sha256_of(m[uuid]))]
    } else {
        Seq::empty()
    }
}

/// Whether profile `u` shows record `rec`'s fields.
pub open spec fn shows_record(u: User, rec: UserRecord) -> bool {
    &&& u.uuid == rec.uuid
    &&& u.rank@ == rec.rank@
    &&& u.last_used@ == rec.last_used@
    &&& u.version@ == rec.version@
    &&& u.banned == rec.banned
}

/// Whether `b` shows the configured badges `s`, or none where there are none.
pub open spec fn shows_badges(b: EquippedBadges, s: Option<&BadgeSettings>) -> bool {
    match s {
        Some(s) => {
            &&& b.special.flags() == ints_to_flags(s.special@)
            &&& b.pride.flags() == ints_to_flags(s.pride@)
        },
        None => {
            &&& b.special.flags() == Seq::new(SPECIAL_COUNT as nat, |i: int| false)
            &&& b.pride.flags() == Seq::new(PRIDE_COUNT as nat, |i: int| false)
        },
    }
}

/// Whether `token` is the session token of user `id` in `users`.
pub open spec fn token_owner(users: Seq<UserRecord>, token: Seq<char>, id: u128) -> bool {
    exists|i: int| 0 <= i < users.len() && #[trigger] users[i].token@ == token && users[i].uuid == id
}

/// A user without a stored blob has a profile with no avatar entry.
pub proof fn lemma_no_blob_no_entry(m: Map<u128, Seq<u8>>, uuid: u128)
    requires
        !m.contains_key(uuid),
    ensures
        expected_entries(m, uuid).len() == 0,
{
}

/// Once `b` is stored for `uuid`, the profile of `uuid` reports exactly one
/// avatar entry, with the digest of `b`.
pub proof fn lemma_stored_blob_entry(m: Map<u128, Seq<u8>>, uuid: u128, b: Seq<u8>)
    ensures
        expected_entries(m.insert(uuid, b), uuid) == seq![(uuid, sha256_of(b))],
{
}

impl User {
    /// The public profile of user `uuid`. Fails with `BadRequest` for an
    /// unknown user and with `Internal` where the configured badges are
    /// malformed.
    pub fn user_info(
        uuid: u128,
        users: &IdentityDirectory,
        settings: Option<&BadgeSettings>,
        avatars: &AvatarStore,
    ) -> (r: Result<User, ApiError>)
        ensures
            r is Err ==> r == Err::<User, ApiError>(ApiError::BadRequest) || r == Err::<User, ApiError>(ApiError::Internal),
            (r == Err::<User, ApiError>(ApiError::BadRequest)) == !has_id(users@, uuid),
            (r == Err::<User, ApiError>(ApiError::Internal)) == (has_id(users@, uuid) && !settings_ok(settings)),
            r matches Ok(u) ==> {
                &&& exists|rec: UserRecord| users@.contains(rec) && rec.uuid == uuid && #[trigger] shows_record(u, rec)
                &&& shows_badges(u.equipped_badges, settings)
                &&& entries_view(u.equipped@) == expected_entries(avatars@, uuid)
            },
    {
        let rec = match users.resolve_by_id(uuid) {
            Some(rec) => rec,
            None => return Err(ApiError::BadRequest),
        };
        let mut equipped_badges = EquippedBadges::default();
        match settings {
            Some(s) => {
                let special = SpecialBadges::from_int_array(s.special.as_slice());
                let pride = PrideBadges::from_int_array(s.pride.as_slice());
                match (special, pride) {
                    (Ok(special), Ok(pride)) => {
                        equipped_badges = EquippedBadges { special, pride };
                    },
                    _ => return Err(ApiError::Internal),
                }
            },
            None => {},
        }
        let mut equipped: Vec<EquippedAvatar> = Vec::new();
        match avatars.integrity_hash(uuid) {
            Ok(hash) => {
                equipped.push(EquippedAvatar { owner: uuid, hash });
            },
            Err(_) => {},
        }
        let u = User {
            uuid,
            rank: rec.rank.clone(),
            last_used: rec.last_used.clone(),
            equipped,
            equipped_badges,
            version: rec.version.clone(),
            banned: rec.banned,
        };
        assert(shows_record(u, *rec));
        assert(entries_view(u.equipped@) =~= expected_entries(avatars@, uuid));
        Ok(u)
    }

    /// Stores `body` as the avatar of the user that holds `token` and
    /// returns that user's identifier. Fails with `Unauthorized`, changing
    /// nothing, for an unknown token.
    pub fn upload_avatar(token: &String, state: &mut AppState, body: Vec<u8>) -> (r: Result<u128, ApiError>)
        requires
            old(state).wf(),
        ensures
            final(state).wf(),
            final(state).users@ == old(state).users@,
            final(state).sessions@ == old(state).sessions@,
            final(state).broadcasts@ == old(state).broadcasts@,
            r is Ok == has_token(old(state).users@, token@),
            r matches Err(e) ==> e == ApiError::Unauthorized && final(state).avatars@ == old(state).avatars@,
            r matches Ok(id) ==> token_owner(old(state).users@, token@, id)
                && final(state).avatars@ == old(state).avatars@.insert(id, body@),
    {
        let uuid = match state.users.resolve_by_token(token) {
            Some(rec) => rec.uuid,
            None => return Err(ApiError::Unauthorized),
        };
        state.avatars.put(uuid, body);
        Ok(uuid)
    }

    /// Whether the profile reports an avatar.
    pub fn has_avatar(&self) -> (r: bool)
        ensures
            r == (self.equipped@.len() > 0),
    {
        self.equipped.len() > 0
    }
}

/// The avatar bytes of user `uuid`; `NotFound` where there are none.
pub fn download_avatar(state: &AppState, uuid: u128) -> (r: Result<&Vec<u8>, ApiError>)
    ensures
        match r {
            Ok(b) => blob_of(state.avatars@, uuid) == Some(b@),
            Err(e) => blob_of(state.avatars@, uuid) is None && e == ApiError::NotFound,
        },
{
    match state.avatars.get(uuid) {
        Ok(b) => Ok(b),
        Err(_) => Err(ApiError::NotFound),
    }
}

/// Stores `body` as the avatar of the user that holds `token`, then builds
/// the change notification for that user. Fails with `Unauthorized`,
/// changing nothing, for an unknown token.
pub fn upload_avatar(state: &mut AppState, token: &String, body: Vec<u8>) -> (r: Result<Notification, ApiError>)
    requires
        old(state).wf(),
    ensures
        final(state).wf(),
        final(state).users@ == old(state).users@,
        final(state).sessions@ == old(state).sessions@,
        final(state).broadcasts@ == old(state).broadcasts@,
        r is Ok == has_token(old(state).users@, token@),
        r matches Err(e) ==> e == ApiError::Unauthorized && final(state).avatars@ == old(state).avatars@,
        r matches Ok(n) ==> {
            let id = n.event.subject_of();
            &&& token_owner(old(state).users@, token@, id)
            &&& final(state).avatars@ == old(state).avatars@.insert(id, body@)
            &&& notifies(n, id, old(state).sessions@, old(state).broadcasts@)
        },
{
    let uuid = User::upload_avatar(token, state, body)?;
    Ok(send_event(&state.sessions, &state.broadcasts, uuid))
}

/// Builds the change notification for the user that holds `token`, without
/// touching the store. Fails with `Unauthorized` for an unknown token.
pub fn equip_avatar(state: &AppState, token: &String) -> (r: Result<Notification, ApiError>)
    requires
        state.wf(),
    ensures
        r is Ok == has_token(state.users@, token@),
        r matches Err(e) ==> e == ApiError::Unauthorized,
        r matches Ok(n) ==> token_owner(state.users@, token@, n.event.subject_of())
            && notifies(n, n.event.subject_of(), state.sessions@, state.broadcasts@),
{
    let uuid = match state.users.resolve_by_token(token) {
        Some(rec) => rec.uuid,
        None => return Err(ApiError::Unauthorized),
    };
    Ok(send_event(&state.sessions, &state.broadcasts, uuid))
}

/// Removes the avatar of the user that holds `token`, then builds the change
/// notification for that user. Fails with `Unauthorized` for an unknown
/// token and with `NotFound` where that user has no avatar; either way
/// nothing changes.
pub fn delete_avatar(state: &mut AppState, token: &String) -> (r: Result<Notification, ApiError>)
    requires
        old(state).wf(),
    ensures
        final(state).wf(),
        final(state).users@ == old(state).users@,
        final(state).sessions@ == old(state).sessions@,
        final(state).broadcasts@ == old(state).broadcasts@,
        !has_token(old(state).users@, token@) ==> r == Err::<Notification, ApiError>(ApiError::Unauthorized),
        r matches Err(e) ==> final(state).avatars@ == old(state).avatars@,
        r matches Err(e) ==> e == ApiError::Unauthorized || e == ApiError::NotFound,
        r == Err::<Notification, ApiError>(ApiError::NotFound) ==> exists|id: u128|
            token_owner(old(state).users@, token@, id) && !#[trigger] old(state).avatars@.contains_key(id),
        has_token(old(state).users@, token@) ==> exists|id: u128|
            token_owner(old(state).users@, token@, id) && (#[trigger] old(state).avatars@.contains_key(id)
                ==> r is Ok),
        r matches Ok(n) ==> {
            let id = n.event.subject_of();
            &&& token_owner(old(state).users@, token@, id)
            &&& old(state).avatars@.contains_key(id)
            &&& final(state).avatars@ == old(state).avatars@.remove(id)
            &&& notifies(n, id, old(state).sessions@, old(state).broadcasts@)
        },
{
    let uuid = match state.users.resolve_by_token(token) {
        Some(rec) => rec.uuid,
        None => return Err(ApiError::Unauthorized),
    };
    match state.avatars.delete(uuid) {
        Ok(()) => Ok(send_event(&state.sessions, &state.broadcasts, uuid)),
        Err(_) => Err(ApiError::NotFound),
    }
}

} // verus!
