//! Records held by the stores and exchanged with their callers.
//!
//! Every record that owns text or a list has a view: the same record over
//! `Seq`, which is what the contracts of the stores speak of.

use vstd::prelude::*;

use crate::time::Timestamp;

verus! {

/// Identity of a squad, a member or a session: an opaque 128-bit value.
pub type Id = u128;

/// A binary64 number carried by its bit pattern.
///
/// The stores keep and return such numbers; they never calculate with them.
#[derive(Clone, Copy, Debug, PartialEq, Eq, Structural)]
pub struct Binary64 {
    pub bits: u64,
}

/// Geographic coordinates
#[derive(Clone, Copy, Debug, PartialEq, Eq, Structural)]
pub struct GeoPoint {
    pub latitude: Binary64,
    pub longitude: Binary64,
    pub altitude: Option<Binary64>,
    pub accuracy: Option<Binary64>,
    pub heading: Option<Binary64>,
    pub speed: Option<Binary64>,
}

/// The view of an optional text.
pub open spec fn text_view(text: Option<String>) -> Option<Seq<char>> {
    match text {
        Some(s) => Some(s@),
        None => None,
    }
}

/// A squad member
#[derive(Debug)]
pub struct Member {
    pub member_id: Id,
    pub display_name: String,
    pub avatar_url: Option<String>,
    pub joined_at: Timestamp,
    pub is_leader: bool,
}

/// What a [`Member`] holds, as mathematical values.
pub struct MemberView {
    pub member_id: Id,
    pub display_name: Seq<char>,
    pub avatar_url: Option<Seq<char>>,
    pub joined_at: Timestamp,
    pub is_leader: bool,
}

impl View for Member {
    type V = MemberView;

    open spec fn view(&self) -> MemberView {
        MemberView {
            member_id: self.member_id,
            display_name: self.display_name@,
            avatar_url: text_view(self.avatar_url),
            joined_at: self.joined_at,
            is_leader: self.is_leader,
        }
    }
}

impl Clone for Member {
    fn clone(&self) -> (copy: Member)
        ensures
            copy@ == self@,
    {
        let avatar_url = match &self.avatar_url {
            Some(url) => Some(url.clone()),
            None => None,
        };
        Member {
            member_id: self.member_id,
            display_name: self.display_name.clone(),
            avatar_url,
            joined_at: self.joined_at,
            is_leader: self.is_leader,
        }
    }
}

/// Squad configuration
#[derive(Clone, Copy, Debug, PartialEq, Eq, Structural)]
pub struct SquadSettings {
    pub is_public: bool,
    pub require_approval: bool,
    pub share_altitude: bool,
    pub share_speed: bool,
    pub location_update_interval_secs: u32,
}

impl SquadSettings {
    /// The settings of a squad that was created without any.
    pub open spec fn initial() -> SquadSettings {
        SquadSettings {
            is_public: false,
            require_approval: false,
            share_altitude: true,
            share_speed: true,
            location_update_interval_secs: 10,
        }
    }
}

impl Default for SquadSettings {
    fn default() -> (settings: SquadSettings)
        ensures
            settings == SquadSettings::initial(),
    {
        SquadSettings {
            is_public: false,
            require_approval: false,
            share_altitude: true,
            share_speed: true,
            location_update_interval_secs: 10,
        }
    }
}

/// The views of a list of members, in order.
pub open spec fn member_views(members: Seq<Member>) -> Seq<MemberView> {
    members.map_values(|m: Member| m@)
}

/// A squad (group of members sharing locations)
#[derive(Debug)]
pub struct Squad {
    pub squad_id: Id,
    pub name: String,
    pub join_code: String,
    pub created_at: Timestamp,
    pub leader_id: Id,
    pub members: Vec<Member>,
    pub settings: SquadSettings,
}

/// What a [`Squad`] holds, as mathematical values.
pub struct SquadView {
    pub squad_id: Id,
    pub name: Seq<char>,
    pub join_code: Seq<char>,
    pub created_at: Timestamp,
    pub leader_id: Id,
    pub members: Seq<MemberView>,
    pub settings: SquadSettings,
}

impl View for Squad {
    type V = SquadView;

    open spec fn view(&self) -> SquadView {
        SquadView {
            squad_id: self.squad_id,
            name: self.name@,
            join_code: self.join_code@,
            created_at: self.created_at,
            leader_id: self.leader_id,
            members: member_views(self.members@),
            settings: self.settings,
        }
    }
}

/// A copy of a list of members.
pub fn clone_members(members: &Vec<Member>) -> (copy: Vec<Member>)
    ensures
        member_views(copy@) == member_views(members@),
{
    let mut copy: Vec<Member> = Vec::new();
    let mut i: usize = 0;
    while i < members.len()
        invariant
            i <= members.len(),
            copy@.len() == i,
            forall|j: int| 0 <= j < i ==> copy@[j]@ == members@[j]@,
        decreases members.len() - i,
    {
        copy.push(members[i].clone());
        i += 1;
    }
    assert(member_views(copy@) =~= member_views(members@));
    copy
}

impl Clone for Squad {
    fn clone(&self) -> (copy: Squad)
        ensures
            copy@ == self@,
    {
        Squad {
            squad_id: self.squad_id,
            name: self.name.clone(),
            join_code: self.join_code.clone(),
            created_at: self.created_at,
            leader_id: self.leader_id,
            members: clone_members(&self.members),
            settings: self.settings,
        }
    }
}

/// A member's location update
#[derive(Debug)]
pub struct MemberLocation {
    pub member_id: Id,
    pub display_name: String,
    pub location: GeoPoint,
    pub updated_at: Timestamp,
    pub is_stale: bool,
}

/// What a [`MemberLocation`] holds, as mathematical values.
pub struct MemberLocationView {
    pub member_id: Id,
    pub display_name: Seq<char>,
    pub location: GeoPoint,
    pub updated_at: Timestamp,
    pub is_stale: bool,
}

impl View for MemberLocation {
    type V = MemberLocationView;

    open spec fn view(&self) -> MemberLocationView {
        MemberLocationView {
            member_id: self.member_id,
            display_name: self.display_name@,
            location: self.location,
            updated_at: self.updated_at,
            is_stale: self.is_stale,
        }
    }
}

impl Clone for MemberLocation {
    fn clone(&self) -> (copy: MemberLocation)
        ensures
            copy@ == self@,
    {
        MemberLocation {
            member_id: self.member_id,
            display_name: self.display_name.clone(),
            location: self.location,
            updated_at: self.updated_at,
            is_stale: self.is_stale,
        }
    }
}

/// The views of a list of member locations, in order.
pub open spec fn member_location_views(locations: Seq<MemberLocation>) -> Seq<MemberLocationView> {
    locations.map_values(|l: MemberLocation| l@)
}

/// Request to create a new squad
#[derive(Debug)]
pub struct CreateSquadRequest {
    pub name: String,
    pub leader_name: String,
    pub settings: Option<SquadSettings>,
}

/// Response after creating a squad
#[derive(Debug)]
pub struct CreateSquadResponse {
    pub squad_id: Id,
    pub join_code: String,
    pub member_id: Id,
    pub api_key: String,
}

/// Request to join a squad
#[derive(Debug)]
pub struct JoinSquadRequest {
    pub join_code: String,
    pub display_name: String,
}

/// Response after joining a squad
#[derive(Debug)]
pub struct JoinSquadResponse {
    pub member_id: Id,
    pub squad: Squad,
    pub api_key: String,
}

/// Request to update location
#[derive(Clone, Copy, Debug)]
pub struct UpdateLocationRequest {
    pub member_id: Id,
    pub squad_id: Id,
    pub location: GeoPoint,
}

/// Response with all squad member locations
#[derive(Debug)]
pub struct SquadLocationsResponse {
    pub squad_id: Id,
    pub squad_name: String,
    pub locations: Vec<MemberLocation>,
    pub updated_at: Timestamp,
}

} // verus!
