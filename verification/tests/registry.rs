use squadz::models::{Squad, SquadSettings};
use squadz::services::squad_manager::{
    is_valid_join_code, position_of, SquadError, SquadManager, JOIN_CODE_ALPHABET, JOIN_CODE_LEN,
};
use squadz::time::Timestamp;

fn founded(manager: &mut SquadManager, name: &str, leader: &str) -> (Squad, u128) {
    manager
        .create_squad(name.to_string(), leader.to_string(), None)
        .unwrap()
}

#[test]
fn join_code_alphabet_leaves_out_what_is_easily_confused() {
    let alphabet: String = JOIN_CODE_ALPHABET.iter().collect();
    assert_eq!(alphabet, "ABCDEFGHJKLMNPQRSTUVWXYZ23456789");
    assert_eq!(JOIN_CODE_LEN, 6);
}

#[test]
fn generated_join_codes_are_six_of_the_alphabet_and_unique() {
    let mut manager = SquadManager::new();
    let mut codes: Vec<String> = Vec::new();
    let mut ids: Vec<u128> = Vec::new();
    for i in 0..200 {
        let (squad, _) = founded(&mut manager, &format!("squad {}", i), "lead");
        assert_eq!(squad.join_code.chars().count(), 6);
        assert!(squad
            .join_code
            .chars()
            .all(|c| JOIN_CODE_ALPHABET.contains(&c)));
        assert!(is_valid_join_code(&squad.join_code));
        assert!(!codes.contains(&squad.join_code));
        assert!(!ids.contains(&squad.squad_id));
        codes.push(squad.join_code);
        ids.push(squad.squad_id);
    }
    assert_eq!(manager.list_squads().len(), 200);
}

#[test]
fn join_code_shape() {
    assert!(is_valid_join_code("ABCDEF"));
    assert!(is_valid_join_code("234567"));
    assert!(is_valid_join_code("Z9Z9Z9"));
    assert!(!is_valid_join_code(""));
    assert!(!is_valid_join_code("ABCDE"));
    assert!(!is_valid_join_code("ABCDEFG"));
    assert!(!is_valid_join_code("ABCDE0"));
    assert!(!is_valid_join_code("ABCDE1"));
    assert!(!is_valid_join_code("ABCDEI"));
    assert!(!is_valid_join_code("ABCDEO"));
    assert!(!is_valid_join_code("abcdef"));
    assert!(!is_valid_join_code("ABCDÉF"));
}

#[test]
fn created_squad_has_one_member_who_leads() {
    let mut manager = SquadManager::new();
    let (squad, leader_id) = founded(&mut manager, "Alpha", "Cap");
    assert_eq!(squad.name, "Alpha");
    assert_eq!(squad.members.len(), 1);
    assert!(squad.members[0].is_leader);
    assert_eq!(squad.members[0].member_id, leader_id);
    assert_eq!(squad.members[0].display_name, "Cap");
    assert_eq!(squad.members[0].avatar_url, None);
    assert_eq!(squad.members[0].joined_at, squad.created_at);
    assert_eq!(squad.leader_id, leader_id);
    assert_ne!(squad.squad_id, leader_id);
    assert_eq!(
        squad.settings,
        SquadSettings {
            is_public: false,
            require_approval: false,
            share_altitude: true,
            share_speed: true,
            location_update_interval_secs: 10,
        }
    );
    assert_eq!(squad.settings, SquadSettings::default());

    let stored = manager.get_squad(&squad.squad_id).unwrap();
    assert_eq!(stored.join_code, squad.join_code);
    assert_eq!(stored.members.len(), 1);
}

#[test]
fn created_squad_takes_the_given_settings() {
    let mut manager = SquadManager::new();
    let settings = SquadSettings {
        is_public: true,
        require_approval: true,
        share_altitude: false,
        share_speed: false,
        location_update_interval_secs: 30,
    };
    let (squad, _) = manager
        .create_squad("Alpha".to_string(), "Cap".to_string(), Some(settings))
        .unwrap();
    assert_eq!(squad.settings, settings);
}

#[test]
fn create_squad_with_takes_the_values_it_is_given() {
    let mut manager = SquadManager::new();
    let now = Timestamp::from_secs(1_700_000_000);
    let (squad, leader) = manager
        .create_squad_with(
            "Alpha".to_string(),
            "Cap".to_string(),
            None,
            11,
            22,
            "ABCDEF".to_string(),
            now,
        )
        .unwrap();
    assert_eq!(leader, 22);
    assert_eq!(squad.squad_id, 11);
    assert_eq!(squad.leader_id, 22);
    assert_eq!(squad.join_code, "ABCDEF");
    assert_eq!(squad.created_at, now);
    assert_eq!(squad.members.len(), 1);
    assert_eq!(squad.members[0].joined_at, now);
    assert_eq!(manager.get_squad_by_code("ABCDEF").unwrap().squad_id, 11);
}

#[test]
fn create_squad_with_refuses_what_is_in_use() {
    let mut manager = SquadManager::new();
    let now = Timestamp::from_secs(1);
    let s = |t: &str| t.to_string();
    assert!(manager
        .create_squad_with(s("A"), s("a"), None, 1, 10, s("ABCDEF"), now)
        .is_some());
    // the code is taken
    assert!(manager
        .create_squad_with(s("B"), s("b"), None, 2, 20, s("ABCDEF"), now)
        .is_none());
    // the identity is taken
    assert!(manager
        .create_squad_with(s("B"), s("b"), None, 1, 20, s("BCDEFG"), now)
        .is_none());
    // the code is no join code
    assert!(manager
        .create_squad_with(s("B"), s("b"), None, 2, 20, s("ABCDE0"), now)
        .is_none());
    assert!(manager
        .create_squad_with(s("B"), s("b"), None, 2, 20, s("ABCDEFG"), now)
        .is_none());
    assert_eq!(manager.list_squads().len(), 1);
    assert!(manager
        .create_squad_with(s("B"), s("b"), None, 2, 20, s("BCDEFG"), now)
        .is_some());
    assert_eq!(manager.list_squads().len(), 2);
    // the same leader may lead two squads
    assert!(manager
        .create_squad_with(s("C"), s("b"), None, 3, 20, s("CDEFGH"), now)
        .is_some());
}

#[test]
fn squads_are_found_by_identity_and_by_code() {
    let mut manager = SquadManager::new();
    let (a, _) = founded(&mut manager, "Alpha", "Cap");
    let (b, _) = founded(&mut manager, "Bravo", "Boss");
    assert_eq!(manager.get_squad(&a.squad_id).unwrap().name, "Alpha");
    assert_eq!(manager.get_squad(&b.squad_id).unwrap().name, "Bravo");
    assert_eq!(manager.get_squad_by_code(&a.join_code).unwrap().name, "Alpha");
    assert_eq!(manager.get_squad_by_code(&b.join_code).unwrap().name, "Bravo");
    assert!(manager.get_squad(&0).is_none());
    assert!(manager.get_squad_by_code("").is_none());
    assert!(manager.get_squad_by_code("000000").is_none());
    let listed: Vec<&str> = manager.list_squads().iter().map(|s| s.name.as_str()).collect();
    assert_eq!(listed, vec!["Alpha", "Bravo"]);
}

#[test]
fn new_registry_is_empty() {
    let manager = SquadManager::new();
    assert!(manager.list_squads().is_empty());
    assert!(manager.get_squad(&1).is_none());
}

#[test]
fn joining_adds_a_member_who_does_not_lead() {
    let mut manager = SquadManager::new();
    let (squad, leader_id) = founded(&mut manager, "Alpha", "Cap");
    let (joined, member_id) = manager
        .join_squad(&squad.join_code, "Rookie".to_string())
        .unwrap();
    assert_eq!(joined.squad_id, squad.squad_id);
    assert_eq!(joined.members.len(), 2);
    assert_eq!(joined.members[0].member_id, leader_id);
    assert!(joined.members[0].is_leader);
    assert_eq!(joined.members[1].member_id, member_id);
    assert_eq!(joined.members[1].display_name, "Rookie");
    assert!(!joined.members[1].is_leader);
    assert_eq!(joined.members[1].avatar_url, None);
    assert_eq!(joined.leader_id, leader_id);
    assert_eq!(manager.get_squad(&squad.squad_id).unwrap().members.len(), 2);
}

#[test]
fn join_squad_with_takes_the_values_it_is_given() {
    let mut manager = SquadManager::new();
    let (squad, _) = founded(&mut manager, "Alpha", "Cap");
    let now = Timestamp::from_secs(42);
    let (joined, id) = manager
        .join_squad_with(&squad.join_code, "Rookie".to_string(), 77, now)
        .unwrap();
    assert_eq!(id, 77);
    assert_eq!(joined.members[1].member_id, 77);
    assert_eq!(joined.members[1].joined_at, now);
}

#[test]
fn joining_under_a_taken_name_fails() {
    let mut manager = SquadManager::new();
    let (squad, _) = founded(&mut manager, "Alpha", "Cap");
    manager
        .join_squad(&squad.join_code, "Rookie".to_string())
        .unwrap();
    assert_eq!(
        manager
            .join_squad(&squad.join_code, "Rookie".to_string())
            .unwrap_err(),
        SquadError::NameTaken
    );
    assert_eq!(
        manager
            .join_squad(&squad.join_code, "Cap".to_string())
            .unwrap_err(),
        SquadError::NameTaken
    );
    assert_eq!(manager.get_squad(&squad.squad_id).unwrap().members.len(), 2);
    // names are told apart by every character
    assert!(manager
        .join_squad(&squad.join_code, "rookie".to_string())
        .is_ok());
}

#[test]
fn a_name_is_taken_within_its_squad_only() {
    let mut manager = SquadManager::new();
    let (a, _) = founded(&mut manager, "Alpha", "Cap");
    let (b, _) = founded(&mut manager, "Bravo", "Cap");
    assert!(manager.join_squad(&a.join_code, "Rookie".to_string()).is_ok());
    assert!(manager.join_squad(&b.join_code, "Rookie".to_string()).is_ok());
}

#[test]
fn joining_by_an_unknown_code_fails() {
    let mut manager = SquadManager::new();
    let (squad, _) = founded(&mut manager, "Alpha", "Cap");
    let other = if squad.join_code == "AAAAAA" { "BBBBBB" } else { "AAAAAA" };
    assert_eq!(
        manager.join_squad(other, "Rookie".to_string()).unwrap_err(),
        SquadError::InvalidJoinCode
    );
    assert_eq!(
        manager.join_squad("", "Rookie".to_string()).unwrap_err(),
        SquadError::InvalidJoinCode
    );
    assert_eq!(manager.get_squad(&squad.squad_id).unwrap().members.len(), 1);
}

#[test]
fn a_member_who_leaves_goes_alone() {
    let mut manager = SquadManager::new();
    let (squad, leader_id) = founded(&mut manager, "Alpha", "Cap");
    let (other, _) = founded(&mut manager, "Bravo", "Boss");
    let (_, rookie) = manager
        .join_squad(&squad.join_code, "Rookie".to_string())
        .unwrap();
    let (_, scout) = manager
        .join_squad(&squad.join_code, "Scout".to_string())
        .unwrap();

    assert_eq!(manager.leave_squad(&squad.squad_id, &rookie), Ok(()));

    let left = manager.get_squad(&squad.squad_id).unwrap();
    let ids: Vec<u128> = left.members.iter().map(|m| m.member_id).collect();
    assert_eq!(ids, vec![leader_id, scout]);
    assert_eq!(left.leader_id, leader_id);
    assert!(left.members[0].is_leader);
    assert_eq!(
        manager.get_squad_by_code(&squad.join_code).unwrap().squad_id,
        squad.squad_id
    );
    assert_eq!(manager.get_squad(&other.squad_id).unwrap().members.len(), 1);
    // the name is free again
    assert!(manager
        .join_squad(&squad.join_code, "Rookie".to_string())
        .is_ok());
}

#[test]
fn when_the_leader_leaves_the_squad_is_gone() {
    let mut manager = SquadManager::new();
    let (squad, leader_id) = founded(&mut manager, "Alpha", "Cap");
    let (other, _) = founded(&mut manager, "Bravo", "Boss");
    manager
        .join_squad(&squad.join_code, "Rookie".to_string())
        .unwrap();

    assert_eq!(manager.leave_squad(&squad.squad_id, &leader_id), Ok(()));

    assert!(manager.get_squad(&squad.squad_id).is_none());
    assert!(manager.get_squad_by_code(&squad.join_code).is_none());
    assert_eq!(
        manager
            .join_squad(&squad.join_code, "Late".to_string())
            .unwrap_err(),
        SquadError::InvalidJoinCode
    );
    assert!(manager.get_squad(&other.squad_id).is_some());
    assert_eq!(manager.list_squads().len(), 1);
    // the code is free for another squad
    assert!(manager
        .create_squad_with(
            "Again".to_string(),
            "Cap".to_string(),
            None,
            5,
            6,
            squad.join_code.clone(),
            Timestamp::from_secs(1)
        )
        .is_some());
}

#[test]
fn leaving_fails_where_squad_or_member_is_unknown() {
    let mut manager = SquadManager::new();
    let (squad, leader_id) = founded(&mut manager, "Alpha", "Cap");
    assert_eq!(
        manager.leave_squad(&(squad.squad_id ^ 1), &leader_id),
        Err(SquadError::SquadNotFound)
    );
    assert_eq!(
        manager.leave_squad(&squad.squad_id, &(leader_id ^ 1)),
        Err(SquadError::MemberNotFound)
    );
    assert_eq!(manager.get_squad(&squad.squad_id).unwrap().members.len(), 1);
}

#[test]
fn only_the_leader_deletes_the_squad() {
    let mut manager = SquadManager::new();
    let (squad, leader_id) = founded(&mut manager, "Alpha", "Cap");
    let (_, rookie) = manager
        .join_squad(&squad.join_code, "Rookie".to_string())
        .unwrap();
    assert_eq!(
        manager.delete_squad(&squad.squad_id, &rookie),
        Err(SquadError::NotLeader)
    );
    assert_eq!(
        manager.delete_squad(&(squad.squad_id ^ 1), &leader_id),
        Err(SquadError::SquadNotFound)
    );
    assert!(manager.get_squad(&squad.squad_id).is_some());
    assert_eq!(manager.delete_squad(&squad.squad_id, &leader_id), Ok(()));
    assert!(manager.get_squad(&squad.squad_id).is_none());
    assert!(manager.get_squad_by_code(&squad.join_code).is_none());
    assert_eq!(
        manager.delete_squad(&squad.squad_id, &leader_id),
        Err(SquadError::SquadNotFound)
    );
}

#[test]
fn error_messages() {
    assert_eq!(SquadError::SquadNotFound.message(), "Squad not found");
    assert_eq!(SquadError::InvalidJoinCode.message(), "Invalid join code");
    assert_eq!(SquadError::MemberNotFound.message(), "Member not found");
    assert_eq!(SquadError::NameTaken.message(), "Display name already taken");
    assert_eq!(
        SquadError::NotLeader.message(),
        "Only the leader can perform this action"
    );
}

#[test]
fn position_of_finds_the_first_member_with_the_identity() {
    let mut manager = SquadManager::new();
    let (squad, leader_id) = founded(&mut manager, "Alpha", "Cap");
    manager
        .join_squad_with(&squad.join_code, "Rookie".to_string(), 5, Timestamp::from_secs(1))
        .unwrap();
    manager
        .join_squad_with(&squad.join_code, "Twin".to_string(), 5, Timestamp::from_secs(2))
        .unwrap();
    let stored = manager.get_squad(&squad.squad_id).unwrap();
    assert_eq!(position_of(&stored.members, leader_id), Some(0));
    assert_eq!(position_of(&stored.members, 5), Some(1));
    assert_eq!(position_of(&stored.members, 6), None);
    // leaving takes the first of the two
    assert_eq!(manager.leave_squad(&squad.squad_id, &5), Ok(()));
    let stored = manager.get_squad(&squad.squad_id).unwrap();
    assert_eq!(stored.members.len(), 2);
    assert_eq!(stored.members[1].display_name, "Twin");
}

#[test]
fn first_free_join_code_goes_by_number() {
    let mut manager = SquadManager::new();
    let now = Timestamp::from_secs(1);
    assert_eq!(manager.first_free_join_code(), Some("AAAAAA".to_string()));
    for (id, code) in [(1u128, "AAAAAA"), (2, "AAAAAB"), (3, "AAAAAD"), (4, "AAAABA")] {
        manager
            .create_squad_with("s".to_string(), "l".to_string(), None, id, 9, code.to_string(), now)
            .unwrap();
    }
    assert_eq!(manager.first_free_join_code(), Some("AAAAAC".to_string()));
    manager
        .create_squad_with("s".to_string(), "l".to_string(), None, 5, 9, "AAAAAC".to_string(), now)
        .unwrap();
    assert_eq!(manager.first_free_join_code(), Some("AAAAAE".to_string()));
}

#[test]
fn join_codes_are_numbered_to_the_base_32() {
    let mut manager = SquadManager::new();
    let now = Timestamp::from_secs(1);
    // the first 33 codes: AAAAAA .. AAAAA9, then AAAABA
    let mut expected: Vec<String> = JOIN_CODE_ALPHABET.iter().map(|c| format!("AAAAA{}", c)).collect();
    expected.push("AAAABA".to_string());
    for (i, code) in expected.iter().enumerate() {
        assert_eq!(manager.first_free_join_code().as_ref(), Some(code));
        manager
            .create_squad_with("s".to_string(), "l".to_string(), None, i as u128, 9, code.clone(), now)
            .unwrap();
    }
    assert_eq!(manager.first_free_join_code(), Some("AAAABB".to_string()));
}

#[test]
fn first_free_id_is_the_least_unused() {
    let mut manager = SquadManager::new();
    let now = Timestamp::from_secs(1);
    assert_eq!(manager.first_free_id(), 0);
    for (id, code) in [(0u128, "AAAAAA"), (1, "AAAAAB"), (3, "AAAAAC"), (u128::MAX, "AAAAAD")] {
        manager
            .create_squad_with("s".to_string(), "l".to_string(), None, id, 9, code.to_string(), now)
            .unwrap();
    }
    assert_eq!(manager.first_free_id(), 2);
    manager
        .create_squad_with("s".to_string(), "l".to_string(), None, 2, 9, "AAAAAE".to_string(), now)
        .unwrap();
    assert_eq!(manager.first_free_id(), 4);
}

#[test]
fn there_are_32_to_the_sixth_join_codes() {
    assert_eq!(squadz::services::squad_manager::JOIN_CODE_COUNT, 32usize.pow(6));
}

#[test]
fn first_free_member_id_is_the_least_unused() {
    let mut manager = SquadManager::new();
    let now = Timestamp::from_secs(1);
    assert_eq!(manager.first_free_member_id(), 0);
    assert_eq!(manager.member_count(), 0);
    manager
        .create_squad_with("a".to_string(), "l".to_string(), None, 100, 0, "AAAAAA".to_string(), now)
        .unwrap();
    manager
        .create_squad_with("b".to_string(), "l".to_string(), None, 101, 2, "AAAAAB".to_string(), now)
        .unwrap();
    manager.join_squad_with("AAAAAA", "m".to_string(), 1, now).unwrap();
    manager.join_squad_with("AAAAAB", "n".to_string(), 4, now).unwrap();
    assert_eq!(manager.member_count(), 4);
    assert_eq!(manager.first_free_member_id(), 3);
    manager.join_squad_with("AAAAAB", "o".to_string(), 3, now).unwrap();
    assert_eq!(manager.first_free_member_id(), 5);
    assert_eq!(manager.member_count(), 5);
}

#[test]
fn drawn_member_ids_are_unused() {
    let mut manager = SquadManager::new();
    let (squad, leader) = founded(&mut manager, "Alpha", "Cap");
    let mut ids = vec![leader];
    for i in 0..50 {
        let (_, id) = manager
            .join_squad(&squad.join_code, format!("member {}", i))
            .unwrap();
        assert!(!ids.contains(&id));
        ids.push(id);
    }
    assert_eq!(manager.member_count(), 51);
}
