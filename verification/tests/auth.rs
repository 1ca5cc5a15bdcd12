use squadz::services::auth::{
    auth_middleware, auth_middleware_at, extract_api_key, optional_auth_middleware,
};
use squadz::services::session::{MemberSession, SessionStore};
use squadz::time::Timestamp;

#[test]
fn api_key_stands_behind_bearer() {
    assert_eq!(extract_api_key(Some("Bearer sqz_abc")), Some("sqz_abc".to_string()));
    assert_eq!(extract_api_key(Some("Bearer ")), Some(String::new()));
    assert_eq!(extract_api_key(Some("Bearer  x")), Some(" x".to_string()));
    assert_eq!(extract_api_key(Some("bearer sqz_abc")), None);
    assert_eq!(extract_api_key(Some("Basic sqz_abc")), None);
    assert_eq!(extract_api_key(Some("Bearer")), None);
    assert_eq!(extract_api_key(Some("")), None);
    assert_eq!(extract_api_key(None), None);
}

#[test]
fn auth_gives_the_session_or_401() {
    let mut sessions = SessionStore::new();
    let session = sessions.create(1, 2, 3600);
    let header = format!("Bearer {}", session.api_key);

    let member = auth_middleware(&mut sessions, Some(&header)).unwrap();
    assert_eq!(member.session.member_id, 1);
    assert_eq!(member.session.squad_id, 2);
    assert_eq!(member.clone().session.api_key, session.api_key);

    assert_eq!(auth_middleware(&mut sessions, None).unwrap_err(), 401);
    assert_eq!(
        auth_middleware(&mut sessions, Some(&session.api_key)).unwrap_err(),
        401
    );
    assert_eq!(
        auth_middleware(&mut sessions, Some("Bearer sqz_nope")).unwrap_err(),
        401
    );
}

#[test]
fn auth_at_an_instant() {
    let mut sessions = SessionStore::new();
    sessions.insert(MemberSession::issue(
        1,
        2,
        3,
        "key".to_string(),
        Timestamp::from_secs(100),
        10,
    ));
    let ok = auth_middleware_at(&mut sessions, Some("Bearer key"), Timestamp::from_secs(110));
    assert_eq!(ok.unwrap().session.last_seen, Timestamp::from_secs(110));
    let late = auth_middleware_at(&mut sessions, Some("Bearer key"), Timestamp::from_secs(111));
    assert_eq!(late.unwrap_err(), 401);
    assert_eq!(sessions.count(), 0);
}

#[test]
fn optional_auth_gives_the_session_or_nothing() {
    let mut sessions = SessionStore::new();
    let session = sessions.create(1, 2, 3600);
    let header = format!("Bearer {}", session.api_key);
    assert_eq!(
        optional_auth_middleware(&mut sessions, Some(&header))
            .unwrap()
            .session
            .member_id,
        1
    );
    assert!(optional_auth_middleware(&mut sessions, None).is_none());
    assert!(optional_auth_middleware(&mut sessions, Some("Bearer x")).is_none());
}
