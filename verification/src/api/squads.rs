//! Squad management endpoints

use vstd::prelude::*;

use crate::http::{
    ApiError, BAD_REQUEST, CONFLICT, FORBIDDEN, INTERNAL_SERVER_ERROR, NOT_FOUND, NO_CONTENT,
    SERVICE_UNAVAILABLE,
};
use crate::models::{
    CreateSquadRequest, CreateSquadResponse, Id, JoinSquadRequest, JoinSquadResponse, Squad,
    SquadView,
};
use crate::services::session::{after_insert, issued, MemberSessionView, SessionStore};
use crate::services::squad_manager::{
    after_delete, after_join, after_leave, can_create, code_index, codes_exhausted, delete_outcome, founding,
    join_outcome, leave_outcome, lookup, lookup_code, member_known, recruit, squad_views, with_member,
    SquadError, SquadManager,
};

verus! {

/// Seconds for which the session of a new member is good: one hour.
pub const SESSION_TTL_SECS: u64 = 3600;

/// Delete a squad
#[derive(Clone, Copy, Debug)]
pub struct DeleteSquadRequest {
    pub member_id: Id,
}

/// Leave a squad
#[derive(Clone, Copy, Debug)]
pub struct LeaveSquadRequest {
    pub member_id: Id,
}

/// What is said where every join code belongs to a squad.
pub open spec fn exhausted_text() -> Seq<char> {
    "No join code available"@
}

/// What is said where the join code belongs to another squad than the one
/// addressed.
pub open spec fn mismatch_text() -> Seq<char> {
    "Join code does not match squad"@
}

/// The status that a refused deletion is answered with.
pub open spec fn delete_status(error: SquadError) -> u16 {
    match error {
        SquadError::SquadNotFound => NOT_FOUND,
        SquadError::NotLeader => FORBIDDEN,
        _ => INTERNAL_SERVER_ERROR,
    }
}

/// The status that a refused joining is answered with.
pub open spec fn join_status(error: SquadError) -> u16 {
    match error {
        SquadError::InvalidJoinCode => NOT_FOUND,
        SquadError::NameTaken => CONFLICT,
        _ => INTERNAL_SERVER_ERROR,
    }
}

/// The status that a refused leaving is answered with.
pub open spec fn leave_status(error: SquadError) -> u16 {
    match error {
        SquadError::SquadNotFound => NOT_FOUND,
        SquadError::MemberNotFound => NOT_FOUND,
        _ => INTERNAL_SERVER_ERROR,
    }
}

/// Whether the join code belongs to another squad than the one addressed.
pub open spec fn is_mismatch(squads: Seq<SquadView>, squad_id: Id, code: Seq<char>) -> bool {
    match lookup_code(squads, code) {
        Some(squad) => squad.squad_id != squad_id,
        None => false,
    }
}

/// Why a request to join is refused, if it is: the status and the text.
pub open spec fn join_refusal(
    squads: Seq<SquadView>,
    squad_id: Id,
    code: Seq<char>,
    name: Seq<char>,
) -> Option<(u16, Seq<char>)> {
    if is_mismatch(squads, squad_id, code) {
        Some((BAD_REQUEST, mismatch_text()))
    } else {
        match join_outcome(squads, code, name) {
            Ok(_) => None,
            Err(error) => Some((join_status(error), error.message_text())),
        }
    }
}

/// Create a new squad
///
/// The leader gets a session for [`SESSION_TTL_SECS`] seconds. Where
/// every join code there is belongs to a squad, the answer is `503` and
/// nothing has changed.
pub fn create_squad(
    manager: &mut SquadManager,
    sessions: &mut SessionStore,
    req: CreateSquadRequest,
) -> (response: Result<CreateSquadResponse, ApiError>)
    requires
        old(manager).wf(),
        old(sessions).wf(),
    ensures
        final(manager).wf(),
        final(sessions).wf(),
        response is Ok <==> !codes_exhausted(old(manager)@),
        match response {
            Ok(created) => {
                &&& can_create(old(manager)@, created.squad_id, created.join_code@)
                &&& !member_known(old(manager)@, created.member_id)
                &&& final(manager)@ == old(manager)@.push(
                    founding(
                        req.name@,
                        req.leader_name@,
                        req.settings,
                        created.squad_id,
                        created.member_id,
                        created.join_code@,
                        final(manager)@.last().created_at,
                    ),
                )
                &&& exists|session: MemberSessionView|
                    {
                        &&& final(sessions)@ == #[trigger] after_insert(old(sessions)@, session)
                        &&& session == issued(
                            session.session_id,
                            created.member_id,
                            created.squad_id,
                            created.api_key@,
                            session.created_at,
                            SESSION_TTL_SECS,
                        )
                    }
            },
            Err(error) => {
                &&& error.is(SERVICE_UNAVAILABLE, exhausted_text())
                &&& final(manager)@ == old(manager)@
                &&& final(sessions)@ == old(sessions)@
            },
        },
{
    let (squad, member_id) = match manager.create_squad(req.name, req.leader_name, req.settings) {
        Some(created) => created,
        None => {
            return Err(ApiError::new(SERVICE_UNAVAILABLE, "No join code available"));
        },
    };
    // Create session for the leader (1 hour TTL)
    let session = sessions.create(member_id, squad.squad_id, SESSION_TTL_SECS);
    assert(sessions@ == after_insert(old(sessions)@, session@));
    Ok(
        CreateSquadResponse {
            squad_id: squad.squad_id,
            join_code: squad.join_code,
            member_id,
            api_key: session.api_key,
        },
    )
}

/// List all squads (debug endpoint)
pub fn list_squads(manager: &SquadManager) -> (all: Vec<Squad>)
    ensures
        squad_views(all@) == manager@,
{
    let listed = manager.list_squads();
    let mut all: Vec<Squad> = Vec::new();
    let mut i: usize = 0;
    while i < listed.len()
        invariant
            i <= listed@.len(),
            listed@.len() == manager@.len(),
            forall|j: int| 0 <= j < listed@.len() ==> (#[trigger] listed@[j])@ == manager@[j],
            all@.len() == i,
            forall|j: int| 0 <= j < i ==> (#[trigger] all@[j])@ == manager@[j],
        decreases listed@.len() - i,
    {
        all.push(listed[i].clone());
        i += 1;
    }
    assert(squad_views(all@) =~= manager@);
    all
}

/// Get a squad by ID
pub fn get_squad(manager: &SquadManager, squad_id: Id) -> (response: Result<Squad, ApiError>)
    requires
        manager.wf(),
    ensures
        match response {
            Ok(squad) => lookup(manager@, squad_id) == Some(squad@),
            Err(error) => lookup(manager@, squad_id) is None && error.is(
                NOT_FOUND,
                SquadError::SquadNotFound.message_text(),
            ),
        },
{
    match manager.get_squad(&squad_id) {
        Some(squad) => Ok(squad.clone()),
        None => Err(ApiError::new(NOT_FOUND, "Squad not found")),
    }
}

/// Delete a squad
pub fn delete_squad(manager: &mut SquadManager, squad_id: Id, req: DeleteSquadRequest) -> (response:
    Result<u16, ApiError>)
    requires
        old(manager).wf(),
    ensures
        final(manager).wf(),
        final(manager)@ == after_delete(old(manager)@, squad_id, req.member_id),
        match response {
            Ok(status) => status == NO_CONTENT && delete_outcome(
                old(manager)@,
                squad_id,
                req.member_id,
            ) is Ok,
            Err(error) => {
                let outcome = delete_outcome(old(manager)@, squad_id, req.member_id);
                &&& outcome is Err
                &&& error.is(delete_status(outcome->Err_0), outcome->Err_0.message_text())
            },
        },
{
    match manager.delete_squad(&squad_id, &req.member_id) {
        Ok(_) => Ok(NO_CONTENT),
        Err(e) => {
            let status = match e {
                SquadError::SquadNotFound => NOT_FOUND,
                SquadError::NotLeader => FORBIDDEN,
                _ => INTERNAL_SERVER_ERROR,
            };
            Err(ApiError { status, message: e.message() })
        },
    }
}

/// Join a squad
///
/// The new member gets a session for [`SESSION_TTL_SECS`] seconds.
pub fn join_squad(
    manager: &mut SquadManager,
    sessions: &mut SessionStore,
    squad_id: Id,
    req: JoinSquadRequest,
) -> (response: Result<JoinSquadResponse, ApiError>)
    requires
        old(manager).wf(),
        old(sessions).wf(),
    ensures
        final(manager).wf(),
        final(sessions).wf(),
        match response {
            Ok(joined) => {
                let member = recruit(
                    joined.member_id,
                    req.display_name@,
                    joined.squad@.members.last().joined_at,
                );
                &&& join_refusal(old(manager)@, squad_id, req.join_code@, req.display_name@)
                    is None
                &&& !member_known(old(manager)@, joined.member_id)
                &&& joined.squad@ == with_member(
                    old(manager)@[code_index(old(manager)@, req.join_code@)],
                    member,
                )
                &&& joined.squad@.squad_id == squad_id
                &&& final(manager)@ == after_join(old(manager)@, req.join_code@, member)
                &&& exists|session: MemberSessionView|
                    {
                        &&& final(sessions)@ == #[trigger] after_insert(old(sessions)@, session)
                        &&& session == issued(
                            session.session_id,
                            joined.member_id,
                            squad_id,
                            joined.api_key@,
                            session.created_at,
                            SESSION_TTL_SECS,
                        )
                    }
            },
            Err(error) => {
                &&& join_refusal(old(manager)@, squad_id, req.join_code@, req.display_name@)
                    == Some((error.status, error.message@))
                &&& final(manager)@ == old(manager)@
                &&& final(sessions)@ == old(sessions)@
            },
        },
{
    // Verify squad_id matches the join code's squad
    match manager.get_squad_by_code(req.join_code.as_str()) {
        Some(s) => {
            if s.squad_id != squad_id {
                return Err(ApiError::new(BAD_REQUEST, "Join code does not match squad"));
            }
        },
        None => {},
    }
    match manager.join_squad(req.join_code.as_str(), req.display_name) {
        Ok((squad, member_id)) => {
            // Create session for the new member (1 hour TTL)
            let session = sessions.create(member_id, squad.squad_id, SESSION_TTL_SECS);
            assert(sessions@ == after_insert(old(sessions)@, session@));
            Ok(JoinSquadResponse { member_id, squad, api_key: session.api_key })
        },
        Err(e) => {
            let status = match e {
                SquadError::InvalidJoinCode => NOT_FOUND,
                SquadError::NameTaken => CONFLICT,
                _ => INTERNAL_SERVER_ERROR,
            };
            Err(ApiError { status, message: e.message() })
        },
    }
}

/// Leave a squad
pub fn leave_squad(manager: &mut SquadManager, squad_id: Id, req: LeaveSquadRequest) -> (response:
    Result<u16, ApiError>)
    requires
        old(manager).wf(),
    ensures
        final(manager).wf(),
        final(manager)@ == after_leave(old(manager)@, squad_id, req.member_id),
        match response {
            Ok(status) => status == NO_CONTENT && leave_outcome(
                old(manager)@,
                squad_id,
                req.member_id,
            ) is Ok,
            Err(error) => {
                let outcome = leave_outcome(old(manager)@, squad_id, req.member_id);
                &&& outcome is Err
                &&& error.is(leave_status(outcome->Err_0), outcome->Err_0.message_text())
            },
        },
{
    match manager.leave_squad(&squad_id, &req.member_id) {
        Ok(_) => Ok(NO_CONTENT),
        Err(e) => {
            let status = match e {
                SquadError::SquadNotFound => NOT_FOUND,
                SquadError::MemberNotFound => NOT_FOUND,
                _ => INTERNAL_SERVER_ERROR,
            };
            Err(ApiError { status, message: e.message() })
        },
    }
}

} // verus!
