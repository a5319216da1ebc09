use vchat::webrtc::conference::{ConferenceError, ConferenceManager};

#[test]
fn test_create_conference() {
    let mut mgr = ConferenceManager::new();
    let conf = mgr.create_conference("alice.onion".to_string(), 1000).unwrap();
    assert_eq!(conf.members.len(), 1);
    assert_eq!(conf.host_onion, "alice.onion");
}

#[test]
fn test_join_leave_conference() {
    let mut mgr = ConferenceManager::new();
    let conf = mgr.create_conference("alice.onion".to_string(), 1000).unwrap();

    let joined = mgr.join_conference(&conf.conference_id, "bob.onion".to_string(), "bob-id".to_string(), 1001).unwrap();
    assert_eq!(joined.members.len(), 2);
    assert_eq!(joined.mesh_links.len(), 1);

    mgr.leave_conference(&conf.conference_id, "bob.onion", 1002).unwrap();
    let after = mgr.get_conference(&conf.conference_id).unwrap();
    assert_eq!(after.members.len(), 1);
}

#[test]
fn test_mesh_links_created() {
    let mut mgr = ConferenceManager::new();
    let conf = mgr.create_conference("alice.onion".to_string(), 1000).unwrap();
    let _ = mgr.join_conference(&conf.conference_id, "bob.onion".to_string(), "bob-id".to_string(), 1001).unwrap();
    let _ = mgr.join_conference(&conf.conference_id, "carol.onion".to_string(), "carol-id".to_string(), 1002).unwrap();
    let conf = mgr.get_conference(&conf.conference_id).unwrap();
    assert_eq!(conf.mesh_links.len(), 3);
}

#[test]
fn host_member_defaults() {
    let mut mgr = ConferenceManager::new();
    let conf = mgr.create_conference("host.onion".to_string(), 77).unwrap();
    let m = &conf.members[0];
    assert_eq!(m.peer_onion, "host.onion");
    assert!(m.audio_enabled && !m.video_enabled && !m.screen_sharing && m.connected);
    assert_eq!(conf.created_at, 77);
    assert_eq!(conf.updated_at, 77);
    assert!(conf.mesh_links.is_empty());
}

#[test]
fn join_errors() {
    let mut mgr = ConferenceManager::new();
    assert_eq!(mgr.join_conference("nope", "x".to_string(), "y".to_string(), 1).unwrap_err(), ConferenceError::NotFound);
    let conf = mgr.create_conference("a".to_string(), 1).unwrap();
    assert_eq!(
        mgr.join_conference(&conf.conference_id, "a".to_string(), "dup".to_string(), 2).unwrap_err(),
        ConferenceError::AlreadyMember
    );
    assert_eq!(mgr.leave_conference("nope", "a", 3), Err(ConferenceError::NotFound));
}

#[test]
fn full_mesh_after_joins_and_leave() {
    let mut mgr = ConferenceManager::new();
    let conf = mgr.create_conference("a".to_string(), 1).unwrap();
    let id = conf.conference_id.clone();
    for p in ["b", "c", "d"] {
        mgr.join_conference(&id, p.to_string(), format!("{p}-id"), 2).unwrap();
    }
    let c = mgr.get_conference(&id).unwrap();
    assert_eq!(c.mesh_links.len(), 6);
    let names: Vec<String> = c.members.iter().map(|m| m.peer_onion.clone()).collect();
    for x in &names {
        for y in &names {
            if x != y {
                assert!(c.mesh_links.iter().any(|l| (&l.peer_a == x && &l.peer_b == y) || (&l.peer_a == y && &l.peer_b == x)));
            }
        }
    }
    mgr.leave_conference(&id, "c", 3).unwrap();
    let c = mgr.get_conference(&id).unwrap();
    assert_eq!(c.members.len(), 3);
    assert_eq!(c.mesh_links.len(), 3);
    assert!(c.mesh_links.iter().all(|l| l.peer_a != "c" && l.peer_b != "c"));
    assert_eq!(c.updated_at, 3);
    assert_eq!(mgr.get_peer_call_ids(&id, "d").len(), 2);
    assert!(mgr.get_peer_call_ids("nope", "d").is_empty());
}

#[test]
fn last_member_leaving_drops_conference() {
    let mut mgr = ConferenceManager::new();
    let conf = mgr.create_conference("solo".to_string(), 1).unwrap();
    mgr.leave_conference(&conf.conference_id, "solo", 2).unwrap();
    assert!(mgr.get_conference(&conf.conference_id).is_none());
    assert!(mgr.list_conferences().is_empty());
}

#[test]
fn member_settings() {
    let mut mgr = ConferenceManager::new();
    let conf = mgr.create_conference("a".to_string(), 1).unwrap();
    let id = conf.conference_id.clone();
    mgr.set_member_video(&id, "a", true, 5).unwrap();
    mgr.set_member_audio(&id, "a", false, 6).unwrap();
    mgr.set_member_screen_share(&id, "a", true, 7).unwrap();
    mgr.set_member_audio(&id, "nobody", true, 8).unwrap();
    let c = mgr.get_conference(&id).unwrap();
    assert!(c.members[0].video_enabled && !c.members[0].audio_enabled && c.members[0].screen_sharing);
    assert_eq!(c.updated_at, 7);
}

#[test]
fn mesh_links_grow_by_one_per_member() {
    let mut mgr = ConferenceManager::new();
    let conf = mgr.create_conference("h.onion".to_string(), 1).unwrap();
    assert_eq!(conf.mesh_links.len(), 0);
    for (i, name) in ["a", "b", "c", "d"].iter().enumerate() {
        let c = mgr.join_conference(&conf.conference_id, format!("{name}.onion"), format!("{name}-id"), 2).unwrap();
        let n = i + 2;
        assert_eq!(c.members.len(), n);
        assert_eq!(c.mesh_links.len(), n * (n - 1) / 2);
    }
}
