use vchat::swarm::{SwarmError, SwarmManager, SwarmMode};

#[test]
fn created_conversation_has_me_as_admin_and_member() {
    let mut m = SwarmManager::new("me".to_string());
    let c = m.create_conversation(SwarmMode::InvitesOnly, Some("bob".to_string()), 100);
    assert_eq!(c.admins, vec!["me"]);
    assert_eq!(c.members, vec!["me"]);
    assert_eq!(c.invited, vec!["bob"]);
    assert!(c.banned.is_empty() && c.devices.is_empty() && c.crls.is_empty());
    assert_eq!(c.created_at, 100);
    assert_eq!(c.updated_at, 100);
    assert_eq!(c.mode, SwarmMode::InvitesOnly);
    assert_eq!(c.id.len(), 36);
    let got = m.get_conversation(&c.id).unwrap();
    assert_eq!(got.invited, vec!["bob"]);
    let c2 = m.create_conversation(SwarmMode::Public, None, 7);
    assert!(c2.invited.is_empty());
    assert_eq!(m.list_conversations().len(), 2);
}

#[test]
fn mode_codes() {
    assert_eq!(SwarmMode::OneToOne.code(), 0);
    assert_eq!(SwarmMode::AdminInvitesOnly.code(), 1);
    assert_eq!(SwarmMode::InvitesOnly.code(), 2);
    assert_eq!(SwarmMode::Public.code(), 3);
}

#[test]
fn invitations_are_not_repeated() {
    let mut m = SwarmManager::new("me".to_string());
    let c = m.create_conversation(SwarmMode::Public, None, 1);
    m.invite_to_conversation(&c.id, "ann", 5).unwrap();
    m.invite_to_conversation(&c.id, "ann", 9).unwrap();
    let got = m.get_conversation(&c.id).unwrap();
    assert_eq!(got.invited, vec!["ann"]);
    assert_eq!(got.updated_at, 5);
    assert_eq!(m.invite_to_conversation("nope", "ann", 5), Err(SwarmError::ConversationNotFound));
}

#[test]
fn accepting_moves_me_to_members() {
    let mut m = SwarmManager::new("me".to_string());
    let c = m.create_conversation(SwarmMode::Public, Some("x".to_string()), 1);
    m.invite_to_conversation(&c.id, "me", 2).unwrap();
    m.accept_invite(&c.id, 3).unwrap();
    let got = m.get_conversation(&c.id).unwrap();
    assert_eq!(got.invited, vec!["x"]);
    assert_eq!(got.members, vec!["me", "me"]);
    assert_eq!(got.updated_at, 3);
    m.accept_invite(&c.id, 4).unwrap();
    assert_eq!(m.get_conversation(&c.id).unwrap().updated_at, 3);
    assert_eq!(m.accept_invite("nope", 4), Err(SwarmError::ConversationNotFound));
    assert!(m.get_conversation("nope").is_none());
}
