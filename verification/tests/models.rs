use squadz::http::{
    ApiError, BAD_REQUEST, CONFLICT, FORBIDDEN, INTERNAL_SERVER_ERROR, NOT_FOUND, NO_CONTENT, OK,
    SERVICE_UNAVAILABLE, UNAUTHORIZED,
};
use squadz::models::{
    clone_members, Binary64, GeoPoint, Member, MemberLocation, Squad, SquadSettings,
};
use squadz::time::Timestamp;

fn member(id: u128, name: &str, leads: bool) -> Member {
    Member {
        member_id: id,
        display_name: name.to_string(),
        avatar_url: if leads { Some("https://example.org/a.png".to_string()) } else { None },
        joined_at: Timestamp::from_secs(id as i64),
        is_leader: leads,
    }
}

#[test]
fn default_settings() {
    let settings = SquadSettings::default();
    assert!(!settings.is_public);
    assert!(!settings.require_approval);
    assert!(settings.share_altitude);
    assert!(settings.share_speed);
    assert_eq!(settings.location_update_interval_secs, 10);
}

#[test]
fn member_clone_copies_every_field() {
    let original = member(1, "Cap", true);
    let copy = original.clone();
    assert_eq!(copy.member_id, 1);
    assert_eq!(copy.display_name, "Cap");
    assert_eq!(copy.avatar_url.as_deref(), Some("https://example.org/a.png"));
    assert_eq!(copy.joined_at, Timestamp::from_secs(1));
    assert!(copy.is_leader);
    assert_eq!(member(2, "Rookie", false).clone().avatar_url, None);
}

#[test]
fn squad_clone_copies_every_field() {
    let squad = Squad {
        squad_id: 5,
        name: "Alpha".to_string(),
        join_code: "ABCDEF".to_string(),
        created_at: Timestamp::from_secs(9),
        leader_id: 1,
        members: vec![member(1, "Cap", true), member(2, "Rookie", false)],
        settings: SquadSettings::default(),
    };
    let copy = squad.clone();
    assert_eq!(copy.squad_id, 5);
    assert_eq!(copy.name, "Alpha");
    assert_eq!(copy.join_code, "ABCDEF");
    assert_eq!(copy.created_at, Timestamp::from_secs(9));
    assert_eq!(copy.leader_id, 1);
    assert_eq!(copy.settings, squad.settings);
    let names: Vec<&str> = copy.members.iter().map(|m| m.display_name.as_str()).collect();
    assert_eq!(names, vec!["Cap", "Rookie"]);
    assert_eq!(clone_members(&squad.members).len(), 2);
    assert!(clone_members(&Vec::new()).is_empty());
}

#[test]
fn member_location_clone_copies_every_field() {
    let location = MemberLocation {
        member_id: 3,
        display_name: "Ann".to_string(),
        location: GeoPoint {
            latitude: Binary64 { bits: 1.5f64.to_bits() },
            longitude: Binary64 { bits: (-2.5f64).to_bits() },
            altitude: None,
            accuracy: Some(Binary64 { bits: 4.0f64.to_bits() }),
            heading: None,
            speed: None,
        },
        updated_at: Timestamp::from_secs(7),
        is_stale: true,
    };
    let copy = location.clone();
    assert_eq!(copy.member_id, 3);
    assert_eq!(copy.display_name, "Ann");
    assert_eq!(copy.location, location.location);
    assert_eq!(copy.updated_at, Timestamp::from_secs(7));
    assert!(copy.is_stale);
}

#[test]
fn status_codes() {
    assert_eq!(
        [OK, NO_CONTENT, BAD_REQUEST, UNAUTHORIZED, FORBIDDEN, NOT_FOUND, CONFLICT],
        [200, 204, 400, 401, 403, 404, 409]
    );
    assert_eq!([INTERNAL_SERVER_ERROR, SERVICE_UNAVAILABLE], [500, 503]);
    let error = ApiError::new(NOT_FOUND, "Squad not found");
    assert_eq!(error.status, 404);
    assert_eq!(error.message, "Squad not found");
}
