use squadz::models::{Binary64, GeoPoint};
use squadz::services::location_store::LocationStore;
use squadz::services::session::SessionStore;
use squadz::services::squad_manager::{SquadError, SquadManager};

#[test]
fn squad_from_creation_to_the_leader_s_leaving() {
    let mut manager = SquadManager::new();
    let mut sessions = SessionStore::new();
    let mut locations = LocationStore::new();

    let (squad, cap) = manager
        .create_squad("Alpha".to_string(), "Cap".to_string(), None)
        .unwrap();
    let cap_session = sessions.create(cap, squad.squad_id, 3600);

    let (joined, rookie) = manager
        .join_squad(&squad.join_code, "Rookie".to_string())
        .unwrap();
    let rookie_session = sessions.create(rookie, squad.squad_id, 3600);
    assert_eq!(joined.members.len(), 2);
    let member = joined.members.iter().find(|m| m.display_name == "Rookie").unwrap();
    assert!(!member.is_leader);
    assert_eq!(member.member_id, rookie);

    let seen = sessions.validate(&rookie_session.api_key).unwrap();
    assert_eq!(seen.member_id, rookie);
    locations.update_location(
        seen.squad_id,
        seen.member_id,
        member.display_name.clone(),
        GeoPoint {
            latitude: Binary64 { bits: 1.0f64.to_bits() },
            longitude: Binary64 { bits: 2.0f64.to_bits() },
            altitude: None,
            accuracy: None,
            heading: None,
            speed: None,
        },
    );

    let report = locations.get_squad_locations(&squad.squad_id);
    assert_eq!(report.len(), 1);
    assert_eq!(report[0].display_name, "Rookie");
    assert_eq!(report[0].member_id, rookie);
    assert!(!report[0].is_stale);
    assert_eq!(f64::from_bits(report[0].location.latitude.bits), 1.0);
    assert_eq!(f64::from_bits(report[0].location.longitude.bits), 2.0);

    let leader = sessions.validate(&cap_session.api_key).unwrap();
    assert_eq!(manager.leave_squad(&leader.squad_id, &leader.member_id), Ok(()));

    assert!(manager.get_squad(&squad.squad_id).is_none());
    assert!(manager.get_squad_by_code(&squad.join_code).is_none());
    assert_eq!(
        manager.join_squad(&squad.join_code, "Late".to_string()).unwrap_err(),
        SquadError::InvalidJoinCode
    );
    // the stores are independent: nothing was revoked or purged
    assert!(sessions.validate(&rookie_session.api_key).is_some());
    assert_eq!(locations.get_squad_locations(&squad.squad_id).len(), 1);
}
