//! Authentication for Squadz

use vstd::prelude::*;

use crate::http::UNAUTHORIZED;
use crate::services::session::{
    after_validate, validate_outcome, MemberSession, MemberSessionView, SessionStore,
};
use crate::text::strip_prefix;
use crate::time::Timestamp;

verus! {

/// A validated session, as it travels with a request
#[derive(Debug)]
pub struct AuthenticatedMember {
    pub session: MemberSession,
}

impl Clone for AuthenticatedMember {
    fn clone(&self) -> (copy: AuthenticatedMember)
        ensures
            copy.session@ == self.session@,
    {
        AuthenticatedMember { session: self.session.clone() }
    }
}

/// What an `Authorization` header must begin with.
pub open spec fn bearer_prefix() -> Seq<char> {
    "Bearer "@
}

/// The view of an optional header value.
pub open spec fn header_view(header: Option<&str>) -> Option<Seq<char>> {
    match header {
        Some(value) => Some(value@),
        None => None,
    }
}

/// The API key that an `Authorization` header carries: what stands behind
/// `Bearer `.
pub open spec fn bearer_token(authorization: Option<Seq<char>>) -> Option<Seq<char>> {
    match authorization {
        Some(value) => if bearer_prefix().is_prefix_of(value) {
            Some(value.skip(bearer_prefix().len() as int))
        } else {
            None
        },
        None => None,
    }
}

/// The session that a request with this `Authorization` header acts for at
/// `now`.
pub open spec fn auth_outcome(
    sessions: Seq<MemberSessionView>,
    authorization: Option<Seq<char>>,
    now: Timestamp,
) -> Option<MemberSessionView> {
    match bearer_token(authorization) {
        Some(key) => validate_outcome(sessions, key, now),
        None => None,
    }
}

/// The session store after a request with this `Authorization` header was
/// looked at.
pub open spec fn after_auth(
    sessions: Seq<MemberSessionView>,
    authorization: Option<Seq<char>>,
    now: Timestamp,
) -> Seq<MemberSessionView> {
    match bearer_token(authorization) {
        Some(key) => after_validate(sessions, key, now),
        None => sessions,
    }
}

/// Extract API key from the value of the Authorization header
pub fn extract_api_key(authorization: Option<&str>) -> (key: Option<String>)
    ensures
        match key {
            Some(k) => bearer_token(header_view(authorization)) == Some(k@),
            None => bearer_token(header_view(authorization)) is None,
        },
{
    match authorization {
        Some(value) => strip_prefix(value, "Bearer "),
        None => None,
    }
}

/// Validates the API key of a request at the instant `now`: the session it
/// acts for, or `401`.
pub fn auth_middleware_at(
    sessions: &mut SessionStore,
    authorization: Option<&str>,
    now: Timestamp,
) -> (member: Result<AuthenticatedMember, u16>)
    requires
        old(sessions).wf(),
    ensures
        final(sessions).wf(),
        final(sessions)@ == after_auth(old(sessions)@, header_view(authorization), now),
        match member {
            Ok(m) => auth_outcome(old(sessions)@, header_view(authorization), now) == Some(
                m.session@,
            ),
            Err(status) => status == UNAUTHORIZED && auth_outcome(
                old(sessions)@,
                header_view(authorization),
                now,
            ) is None,
        },
{
    let api_key = match extract_api_key(authorization) {
        Some(key) => key,
        None => {
            return Err(UNAUTHORIZED);
        },
    };
    match sessions.validate_at(api_key.as_str(), now) {
        Some(session) => Ok(AuthenticatedMember { session }),
        None => Err(UNAUTHORIZED),
    }
}

/// Auth middleware - validates the API key of a request: the session it
/// acts for, or `401`.
pub fn auth_middleware(sessions: &mut SessionStore, authorization: Option<&str>) -> (member: Result<
    AuthenticatedMember,
    u16,
>)
    requires
        old(sessions).wf(),
    ensures
        final(sessions).wf(),
        exists|now: Timestamp|
            {
                &&& now.in_unix_range()
                &&& final(sessions)@ == #[trigger] after_auth(
                    old(sessions)@,
                    header_view(authorization),
                    now,
                )
                &&& match member {
                    Ok(m) => auth_outcome(old(sessions)@, header_view(authorization), now) == Some(
                        m.session@,
                    ),
                    Err(status) => status == UNAUTHORIZED && auth_outcome(
                        old(sessions)@,
                        header_view(authorization),
                        now,
                    ) is None,
                }
            },
{
    let now = Timestamp::now();
    let member = auth_middleware_at(sessions, authorization, now);
    assert(sessions@ == after_auth(old(sessions)@, header_view(authorization), now));
    member
}

/// Optional auth - doesn't fail if no auth, just doesn't give a session
pub fn optional_auth_middleware(sessions: &mut SessionStore, authorization: Option<&str>) -> (member:
    Option<AuthenticatedMember>)
    requires
        old(sessions).wf(),
    ensures
        final(sessions).wf(),
        exists|now: Timestamp|
            {
                &&& now.in_unix_range()
                &&& final(sessions)@ == #[trigger] after_auth(
                    old(sessions)@,
                    header_view(authorization),
                    now,
                )
                &&& match member {
                    Some(m) => auth_outcome(old(sessions)@, header_view(authorization), now)
                        == Some(m.session@),
                    None => auth_outcome(old(sessions)@, header_view(authorization), now) is None,
                }
            },
{
    let now = Timestamp::now();
    let member = match auth_middleware_at(sessions, authorization, now) {
        Ok(m) => Some(m),
        Err(_) => None,
    };
    assert(sessions@ == after_auth(old(sessions)@, header_view(authorization), now));
    member
}

} // verus!
