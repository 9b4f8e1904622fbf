use sculptor_core::badges::EquippedBadges;
use sculptor_core::codec::ChangeEvent;
use sculptor_core::directory::{IdentityDirectory, UserRecord};
use sculptor_core::profile::{
    delete_avatar, download_avatar, equip_avatar, upload_avatar, BadgeSettings, User,
};
use sculptor_core::state::{send_event, ApiError, AppState};
use sculptor_core::store::{AvatarStore, StoreError};
use sha2::Digest;

const X: u128 = 0x11111111_2222_3333_4444_555555555555;
const Y: u128 = 0x99999999_8888_7777_6666_555555555555;

fn record(uuid: u128, name: &str, token: &str) -> UserRecord {
    UserRecord {
        uuid,
        username: name.to_string(),
        token: token.to_string(),
        rank: "default".to_string(),
        last_used: "2024-01-01".to_string(),
        version: "0.1.4".to_string(),
        banned: false,
    }
}

fn state_with_x_and_y() -> AppState {
    let mut st = AppState::new();
    st.users.upsert(record(X, "x", "token-x"));
    st.users.upsert(record(Y, "y", "token-y"));
    st
}

#[test]
fn upload_subscribe_update_delete_scenario() {
    let mut st = state_with_x_and_y();
    let tx = "token-x".to_string();
    st.sessions.attach(Y, 200);

    let b1: Vec<u8> = (0u8..10).collect();
    upload_avatar(&mut st, &tx, b1.clone()).ok().unwrap();
    assert_eq!(st.avatars.get(X), Ok(&b1));
    assert_eq!(st.avatars.integrity_hash(X).unwrap(), sha2::Sha256::digest(&b1).to_vec());

    st.broadcasts.subscribe(X, 200);

    let b2: Vec<u8> = vec![7; 12];
    let n = upload_avatar(&mut st, &tx, b2.clone()).ok().unwrap();
    assert_eq!(n.subscribers.targets, vec![200]);
    assert_eq!(ChangeEvent::decode(&n.subscribers.frame), Ok(ChangeEvent::AvatarChanged { subject: X }));
    assert_eq!(n.event, ChangeEvent::AvatarChanged { subject: X });
    assert_eq!(st.avatars.get(X), Ok(&b2));

    let n2 = delete_avatar(&mut st, &tx).ok().unwrap();
    assert_eq!(st.avatars.get(X), Err(StoreError::NotFound));
    assert_eq!(n2.subscribers.targets, vec![200]);
    assert_eq!(ChangeEvent::decode(&n2.subscribers.frame), Ok(ChangeEvent::AvatarChanged { subject: X }));
}

#[test]
fn unknown_token_is_unauthorized() {
    let mut st = state_with_x_and_y();
    let bad = "nope".to_string();
    assert!(matches!(upload_avatar(&mut st, &bad, vec![1]), Err(ApiError::Unauthorized)));
    assert!(matches!(delete_avatar(&mut st, &bad), Err(ApiError::Unauthorized)));
    assert!(matches!(equip_avatar(&st, &bad), Err(ApiError::Unauthorized)));
    assert!(!st.avatars.contains(X));
}

#[test]
fn delete_without_avatar_is_not_found() {
    let mut st = state_with_x_and_y();
    assert!(matches!(delete_avatar(&mut st, &"token-y".to_string()), Err(ApiError::NotFound)));
}

#[test]
fn equip_notifies_own_session_and_subscribers() {
    let mut st = state_with_x_and_y();
    st.sessions.attach(X, 100);
    st.broadcasts.subscribe(X, 100);
    st.broadcasts.subscribe(X, 200);
    let n = equip_avatar(&st, &"token-x".to_string()).ok().unwrap();
    let own = n.session.unwrap();
    assert_eq!(own.channel, 100);
    assert_eq!(own.frame, ChangeEvent::AvatarChanged { subject: X }.encode());
    let mut t = n.subscribers.targets.clone();
    t.sort();
    assert_eq!(t, vec![100, 200]);
}

#[test]
fn closing_a_connection_drops_its_memberships() {
    let mut st = state_with_x_and_y();
    st.sessions.attach(Y, 200);
    st.broadcasts.subscribe(X, 200);
    st.broadcasts.subscribe(X, 300);
    let before = send_event(&st.sessions, &st.broadcasts, X).subscribers.delivered_count();
    st.close_connection(Y, 200);
    let after = send_event(&st.sessions, &st.broadcasts, X);
    assert_eq!(after.subscribers.delivered_count(), before - 1);
    assert_eq!(st.sessions.current(Y), None);
    assert!(send_event(&st.sessions, &st.broadcasts, Y).session.is_none());
}

#[test]
fn directory_resolves_by_token_and_id() {
    let mut d = IdentityDirectory::new();
    d.upsert(record(X, "x", "t1"));
    d.upsert(record(Y, "y", "t2"));
    assert_eq!(d.resolve_by_token(&"t2".to_string()).unwrap().uuid, Y);
    assert_eq!(d.resolve_by_id(X).unwrap().username, "x");
    assert!(d.resolve_by_id(5).is_none());
    // a login of x with a new token, and y's old token handed to x
    let mut again = record(X, "x", "t2");
    again.version = "0.1.5".to_string();
    d.upsert(again);
    assert_eq!(d.len(), 1);
    assert_eq!(d.resolve_by_token(&"t2".to_string()).unwrap().uuid, X);
    assert_eq!(d.resolve_by_id(X).unwrap().version, "0.1.5");
    assert!(d.resolve_by_id(Y).is_none());
    assert!(d.resolve_by_token(&"t1".to_string()).is_none());
    let copy = d.resolve_by_id(X).unwrap().duplicate();
    assert_eq!(copy.token, "t2");
}

#[test]
fn profile_reports_avatar_only_when_stored() {
    let mut users = IdentityDirectory::new();
    users.upsert(record(X, "x", "t"));
    let mut store = AvatarStore::new();
    let u = User::user_info(X, &users, None, &store).unwrap();
    assert!(!u.has_avatar());
    assert_eq!(u.rank, "default");
    assert_eq!(u.version, "0.1.4");
    assert_eq!(u.equipped_badges, EquippedBadges::default());

    store.put(X, b"abc".to_vec());
    let u = User::user_info(X, &users, None, &store).unwrap();
    assert!(u.has_avatar());
    assert_eq!(u.equipped[0].owner, X);
    assert_eq!(u.equipped[0].hash, sha2::Sha256::digest(b"abc").to_vec());

    assert!(matches!(User::user_info(Y, &users, None, &store), Err(ApiError::BadRequest)));
}

#[test]
fn profile_shows_configured_badges() {
    let mut users = IdentityDirectory::new();
    users.upsert(record(X, "x", "t"));
    let store = AvatarStore::new();
    let mut pride = vec![0u8; 25];
    pride[24] = 1;
    let settings = BadgeSettings { special: vec![1, 0, 0, 0, 0, 2], pride };
    let u = User::user_info(X, &users, Some(&settings), &store).unwrap();
    assert!(u.equipped_badges.special.figura_dev);
    assert!(u.equipped_badges.special.texture_artist);
    assert!(u.equipped_badges.pride.trans);
    let bad = BadgeSettings { special: vec![1], pride: vec![0; 25] };
    assert!(matches!(User::user_info(X, &users, Some(&bad), &store), Err(ApiError::Internal)));
}

#[test]
fn download_returns_stored_bytes() {
    let mut st = state_with_x_and_y();
    assert!(matches!(download_avatar(&st, X), Err(ApiError::NotFound)));
    upload_avatar(&mut st, &"token-x".to_string(), vec![4, 5, 6]).ok().unwrap();
    assert_eq!(download_avatar(&st, X).ok().unwrap(), &vec![4u8, 5, 6]);
}

#[test]
fn user_upload_returns_owner_and_stores_blob() {
    let mut st = state_with_x_and_y();
    let id = User::upload_avatar(&"token-y".to_string(), &mut st, vec![9, 9]).unwrap();
    assert_eq!(id, Y);
    assert_eq!(st.avatars.get(Y), Ok(&vec![9u8, 9]));
    assert_eq!(User::upload_avatar(&"zzz".to_string(), &mut st, vec![1]), Err(ApiError::Unauthorized));
}
