//! Location tracking endpoints

use vstd::prelude::*;

use crate::http::{ApiError, FORBIDDEN, NOT_FOUND, OK};
use crate::models::{member_location_views, GeoPoint, Id, MemberView, SquadLocationsResponse};
use crate::services::auth::AuthenticatedMember;
use crate::services::location_store::{
    after_update, squad_report, LocationStore, StoredLocationView,
};
use crate::services::session::MemberSessionView;
use crate::services::squad_manager::{
    first_member, has_member, lookup, position_of, SquadError, SquadManager,
};
use crate::time::Timestamp;

verus! {

/// Request to update location (simplified - uses session for member/squad)
#[derive(Clone, Copy, Debug)]
pub struct AuthenticatedLocationUpdate {
    pub location: GeoPoint,
}

/// What is said to a session whose member is not in its squad.
pub open spec fn outsider_text() -> Seq<char> {
    "Not a member of this squad"@
}

/// The member that a session acts for, if its squad is live and has the
/// member; else the status and the text of the refusal.
pub open spec fn acting_member(
    squads: Seq<crate::models::SquadView>,
    session: MemberSessionView,
) -> Result<MemberView, (u16, Seq<char>)> {
    match lookup(squads, session.squad_id) {
        None => Err((NOT_FOUND, SquadError::SquadNotFound.message_text())),
        Some(squad) => if has_member(squad.members, session.member_id) {
            Ok(squad.members[first_member(squad.members, session.member_id)])
        } else {
            Err((FORBIDDEN, outsider_text()))
        },
    }
}

/// Update a member's location (requires auth)
pub fn update_location(
    manager: &SquadManager,
    store: &mut LocationStore,
    auth: &AuthenticatedMember,
    req: AuthenticatedLocationUpdate,
) -> (response: Result<u16, ApiError>)
    requires
        manager.wf(),
        old(store).wf(),
    ensures
        final(store).wf(),
        final(store)@.ttl_secs == old(store)@.ttl_secs,
        match response {
            Ok(status) => {
                let member = acting_member(manager@, auth.session@);
                &&& status == OK
                &&& member is Ok
                &&& exists|now: Timestamp|
                    now.in_unix_range() && final(store)@.squads == #[trigger] after_update(
                        old(store)@.squads,
                        auth.session@.squad_id,
                        StoredLocationView {
                            member_id: auth.session@.member_id,
                            display_name: member->Ok_0.display_name,
                            location: req.location,
                            updated_at: now,
                        },
                    )
            },
            Err(error) => {
                &&& acting_member(manager@, auth.session@) == Err::<MemberView, (u16, Seq<char>)>(
                    (error.status, error.message@),
                )
                &&& final(store)@.squads == old(store)@.squads
            },
        },
{
    let session = &auth.session;
    // Get member display name from squad
    let squad = match manager.get_squad(&session.squad_id) {
        Some(squad) => squad,
        None => {
            return Err(ApiError::new(NOT_FOUND, "Squad not found"));
        },
    };
    let at = match position_of(&squad.members, session.member_id) {
        Some(at) => at,
        None => {
            return Err(ApiError::new(FORBIDDEN, "Not a member of this squad"));
        },
    };
    let display_name = squad.members[at].display_name.clone();
    // Update location
    let now = Timestamp::now();
    store.update_location_at(session.squad_id, session.member_id, display_name, req.location, now);
    proof {
        let member = acting_member(manager@, auth.session@);
        assert(member is Ok);
        assert(member->Ok_0.display_name == display_name@);
        assert(store@.squads == after_update(
            old(store)@.squads,
            auth.session@.squad_id,
            StoredLocationView {
                member_id: auth.session@.member_id,
                display_name: member->Ok_0.display_name,
                location: req.location,
                updated_at: now,
            },
        ));
    }
    Ok(OK)
}

/// Get all member locations for a squad
pub fn get_squad_locations(manager: &SquadManager, store: &LocationStore, squad_id: Id) -> (response:
    Result<SquadLocationsResponse, ApiError>)
    requires
        manager.wf(),
        store.wf(),
    ensures
        match response {
            Ok(found) => {
                &&& lookup(manager@, squad_id) is Some
                &&& found.squad_id == squad_id
                &&& found.squad_name@ == lookup(manager@, squad_id)->Some_0.name
                &&& member_location_views(found.locations@) == squad_report(
                    store@.squads,
                    squad_id,
                    found.updated_at,
                    store@.ttl_secs,
                )
            },
            Err(error) => lookup(manager@, squad_id) is None && error.is(
                NOT_FOUND,
                SquadError::SquadNotFound.message_text(),
            ),
        },
{
    // Get squad info
    let squad_name = match manager.get_squad(&squad_id) {
        Some(squad) => squad.name.clone(),
        None => {
            return Err(ApiError::new(NOT_FOUND, "Squad not found"));
        },
    };
    // Get locations
    let now = Timestamp::now();
    let locations = store.get_squad_locations_at(&squad_id, now);
    Ok(SquadLocationsResponse { squad_id, squad_name, locations, updated_at: now })
}

} // verus!
