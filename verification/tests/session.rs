use squadz::services::session::{api_key_from_bytes, MemberSession, SessionStore};
use squadz::time::Timestamp;
use uuid::Uuid;

#[test]
fn test_session_creation() {
    let member_id = Uuid::new_v4().as_u128();
    let squad_id = Uuid::new_v4().as_u128();
    let session = MemberSession::new(member_id, squad_id, 3600);

    assert_eq!(session.member_id, member_id);
    assert_eq!(session.squad_id, squad_id);
    assert!(session.api_key.starts_with("sqz_"));
    assert!(!session.is_expired());
}

#[test]
fn test_session_store_validate() {
    let mut store = SessionStore::new();
    let member_id = Uuid::new_v4().as_u128();
    let squad_id = Uuid::new_v4().as_u128();

    let session = store.create(member_id, squad_id, 3600);

    let validated = store.validate(&session.api_key);
    assert!(validated.is_some());
    assert_eq!(validated.unwrap().member_id, member_id);

    // Invalid key returns None
    assert!(store.validate("invalid_key").is_none());
}

#[test]
fn test_session_store_revoke() {
    let mut store = SessionStore::new();
    let member_id = Uuid::new_v4().as_u128();
    let squad_id = Uuid::new_v4().as_u128();

    let session = store.create(member_id, squad_id, 3600);

    assert!(store.revoke(&session.api_key));
    assert!(store.validate(&session.api_key).is_none());
}

fn issued(key: &str, member_id: u128, at_secs: i64, ttl_secs: u64) -> MemberSession {
    MemberSession::issue(
        7,
        member_id,
        9,
        key.to_string(),
        Timestamp::from_secs(at_secs),
        ttl_secs,
    )
}

#[test]
fn api_key_of_zero_bytes() {
    let key = api_key_from_bytes(&vec![0u8; 32]);
    assert_eq!(key, format!("sqz_{}", "A".repeat(43)));
}

#[test]
fn api_key_of_set_bytes() {
    let key = api_key_from_bytes(&vec![0xffu8; 32]);
    assert_eq!(key, format!("sqz_{}8", "_".repeat(42)));
}

#[test]
fn new_session_has_a_key_of_256_bits() {
    let a = MemberSession::new(1, 2, 60);
    let b = MemberSession::new(1, 2, 60);
    assert_eq!(a.api_key.len(), 47);
    assert!(a.api_key[4..]
        .chars()
        .all(|c| c.is_ascii_alphanumeric() || c == '-' || c == '_'));
    assert_ne!(a.api_key, b.api_key);
    assert_ne!(a.session_id, b.session_id);
}

#[test]
fn issue_sets_the_three_instants() {
    let session = issued("k", 1, 1_000, 3600);
    assert_eq!(session.session_id, 7);
    assert_eq!(session.member_id, 1);
    assert_eq!(session.squad_id, 9);
    assert_eq!(session.api_key, "k");
    assert_eq!(session.created_at, Timestamp::from_secs(1_000));
    assert_eq!(session.last_seen, Timestamp::from_secs(1_000));
    assert_eq!(session.expires_at, Timestamp::from_secs(4_600));
    assert_eq!(session.expires_at.nanos, 4_600_000_000_000);
}

#[test]
fn new_session_expires_after_its_ttl() {
    let session = MemberSession::new(1, 2, 3600);
    assert_eq!(session.last_seen, session.created_at);
    assert_eq!(
        session.expires_at.nanos - session.created_at.nanos,
        3600 * 1_000_000_000
    );
}

#[test]
fn session_is_expired_only_after_expires_at() {
    let session = issued("k", 1, 1_000, 60);
    assert!(!session.is_expired_at(Timestamp::from_secs(1_000)));
    assert!(!session.is_expired_at(Timestamp::from_unix(1_059, 999_999_999)));
    assert!(!session.is_expired_at(Timestamp::from_secs(1_060)));
    assert!(session.is_expired_at(Timestamp::from_unix(1_060, 1)));
    assert!(session.is_expired_at(Timestamp::from_secs(1_061)));
}

#[test]
fn touch_moves_last_seen_only() {
    let mut session = issued("k", 1, 1_000, 60);
    session.touch_at(Timestamp::from_secs(1_030));
    assert_eq!(session.last_seen, Timestamp::from_secs(1_030));
    assert_eq!(session.created_at, Timestamp::from_secs(1_000));
    assert_eq!(session.expires_at, Timestamp::from_secs(1_060));
    session.touch();
    assert!(session.last_seen.nanos > Timestamp::from_secs(1_030).nanos);
    assert_eq!(session.expires_at, Timestamp::from_secs(1_060));
}

#[test]
fn validate_returns_the_session_until_it_expires() {
    let mut store = SessionStore::new();
    store.insert(issued("key-a", 1, 1_000, 60));

    let before = store.validate_at("key-a", Timestamp::from_secs(1_059)).unwrap();
    assert_eq!(before.member_id, 1);
    assert_eq!(before.last_seen, Timestamp::from_secs(1_059));
    assert_eq!(before.expires_at, Timestamp::from_secs(1_060));

    let at = store.validate_at("key-a", Timestamp::from_secs(1_060)).unwrap();
    assert_eq!(at.last_seen, Timestamp::from_secs(1_060));
    assert_eq!(at.expires_at, Timestamp::from_secs(1_060));
    assert_eq!(store.count(), 1);
}

#[test]
fn validate_drops_the_session_after_it_expired() {
    let mut store = SessionStore::new();
    store.insert(issued("key-a", 1, 1_000, 60));

    assert!(store
        .validate_at("key-a", Timestamp::from_unix(1_060, 1))
        .is_none());
    assert_eq!(store.count(), 0);
    // gone for good, also at an earlier instant
    assert!(store.validate_at("key-a", Timestamp::from_secs(1_001)).is_none());
}

#[test]
fn validate_knows_no_key_that_was_never_issued() {
    let mut store = SessionStore::new();
    store.insert(issued("key-a", 1, 1_000, 60));
    assert!(store.validate_at("key-b", Timestamp::from_secs(1_001)).is_none());
    assert!(store.validate_at("", Timestamp::from_secs(1_001)).is_none());
    assert_eq!(store.count(), 1);
}

#[test]
fn validation_does_not_extend_the_expiry() {
    let mut store = SessionStore::new();
    store.insert(issued("key-a", 1, 1_000, 60));
    assert!(store.validate_at("key-a", Timestamp::from_secs(1_050)).is_some());
    assert!(store.validate_at("key-a", Timestamp::from_secs(1_061)).is_none());
}

#[test]
fn insert_replaces_the_session_of_the_same_key() {
    let mut store = SessionStore::new();
    store.insert(issued("key-a", 1, 1_000, 60));
    store.insert(issued("key-b", 2, 1_000, 60));
    store.insert(issued("key-a", 3, 2_000, 60));
    assert_eq!(store.count(), 2);
    let found = store.validate_at("key-a", Timestamp::from_secs(2_001)).unwrap();
    assert_eq!(found.member_id, 3);
}

#[test]
fn revoked_key_never_validates_again() {
    let mut store = SessionStore::new();
    store.insert(issued("key-a", 1, 1_000, 60));
    store.insert(issued("key-b", 2, 1_000, 60));

    assert!(store.revoke("key-a"));
    assert!(!store.revoke("key-a"));
    assert!(!store.revoke("key-c"));
    assert_eq!(store.count(), 1);

    assert!(store.validate_at("key-a", Timestamp::from_secs(1_000)).is_none());
    assert!(store.validate_at("key-a", Timestamp::from_secs(1_030)).is_none());
    assert_eq!(store.cleanup_expired_at(Timestamp::from_secs(1_030)), 0);
    assert_eq!(store.revoke_member(&9), 0);
    assert!(store.validate_at("key-a", Timestamp::from_secs(1_031)).is_none());
    assert!(store.validate_at("key-b", Timestamp::from_secs(1_031)).is_some());
}

#[test]
fn revoke_member_takes_all_sessions_of_that_member() {
    let mut store = SessionStore::new();
    store.insert(issued("key-a", 1, 1_000, 60));
    store.insert(issued("key-b", 2, 1_000, 60));
    store.insert(issued("key-c", 1, 1_000, 60));
    store.insert(issued("key-d", 3, 1_000, 60));

    assert_eq!(store.revoke_member(&1), 2);
    assert_eq!(store.count(), 2);
    assert_eq!(store.revoke_member(&1), 0);
    let now = Timestamp::from_secs(1_001);
    assert!(store.validate_at("key-a", now).is_none());
    assert!(store.validate_at("key-c", now).is_none());
    assert_eq!(store.validate_at("key-b", now).unwrap().member_id, 2);
    assert_eq!(store.validate_at("key-d", now).unwrap().member_id, 3);
}

#[test]
fn cleanup_takes_the_sessions_past_expiry() {
    let mut store = SessionStore::new();
    store.insert(issued("key-a", 1, 1_000, 10));
    store.insert(issued("key-b", 2, 1_000, 20));
    store.insert(issued("key-c", 3, 1_000, 30));

    assert_eq!(store.cleanup_expired_at(Timestamp::from_secs(1_010)), 0);
    assert_eq!(store.cleanup_expired_at(Timestamp::from_secs(1_020)), 1);
    assert_eq!(store.count(), 2);
    assert_eq!(store.cleanup_expired_at(Timestamp::from_unix(1_020, 1)), 1);
    assert_eq!(store.count(), 1);
    assert!(store.validate_at("key-c", Timestamp::from_secs(1_021)).is_some());
    assert_eq!(store.cleanup_expired(), 1);
    assert_eq!(store.count(), 0);
}

#[test]
fn a_member_may_hold_several_sessions() {
    let mut store = SessionStore::new();
    let first = store.create(1, 2, 3600);
    let second = store.create(1, 2, 3600);
    assert_ne!(first.api_key, second.api_key);
    assert_eq!(store.count(), 2);
    assert!(store.validate(&first.api_key).is_some());
    assert!(store.validate(&second.api_key).is_some());
}

#[test]
fn session_with_no_time_to_live_runs_out_at_once() {
    let mut store = SessionStore::new();
    let session = store.create(1, 2, 0);
    assert_eq!(session.expires_at, session.created_at);
    while !Timestamp::now().is_after(session.created_at) {}
    assert!(session.is_expired());
    assert!(store.validate(&session.api_key).is_none());
    assert_eq!(store.count(), 0);
}

#[test]
fn first_free_session_id_is_the_least_unused() {
    let mut store = SessionStore::new();
    assert_eq!(store.first_free_session_id(), 0);
    for (id, key) in [(0u128, "a"), (1, "b"), (3, "c")] {
        store.insert(MemberSession::issue(id, 1, 2, key.to_string(), Timestamp::from_secs(1), 60));
    }
    assert_eq!(store.first_free_session_id(), 2);
    store.insert(MemberSession::issue(2, 1, 2, "d".to_string(), Timestamp::from_secs(1), 60));
    assert_eq!(store.first_free_session_id(), 4);
}

#[test]
fn created_sessions_have_identities_of_their_own() {
    let mut store = SessionStore::new();
    let mut ids: Vec<u128> = Vec::new();
    for _ in 0..50 {
        let session = store.create(1, 2, 60);
        assert!(!ids.contains(&session.session_id));
        ids.push(session.session_id);
    }
    assert_eq!(store.count(), 50);
}
