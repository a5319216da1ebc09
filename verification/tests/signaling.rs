use vchat::signaling::{CallState, CallType, SignalingClient, SignalingError, SignalingMessage};

#[test]
fn invite_accept_end_flow() {
    let mut alice = SignalingClient::new("alice".to_string());
    let mut bob = SignalingClient::new("bob".to_string());
    let (call_id, invite) = alice.invite("bob", CallType::Video, "offer".to_string(), vec!["c1".to_string()], 10);
    let call = alice.get_call(&call_id).unwrap();
    assert!(matches!(call.state, CallState::Calling));
    assert!(call.is_initiator);
    assert_eq!(call.peer_identity, "bob");

    bob.handle_incoming("alice".to_string(), invite, 11);
    let incoming = bob.get_call(&call_id).unwrap();
    assert!(matches!(incoming.state, CallState::Ringing));
    assert_eq!(incoming.remote_sdp.as_deref(), Some("offer"));
    assert_eq!(incoming.ice_candidates_remote, vec!["c1".to_string()]);

    let (peer, accept) = bob.accept(&call_id, "answer".to_string(), vec![], 12).unwrap();
    assert_eq!(peer, "alice");
    alice.handle_incoming("bob".to_string(), accept, 13);
    let call = alice.get_call(&call_id).unwrap();
    assert!(matches!(call.state, CallState::Connected));
    assert_eq!(call.connected_at, Some(13));
    assert_eq!(call.remote_sdp.as_deref(), Some("answer"));

    let (peer, end) = alice.end_call(&call_id).unwrap();
    assert_eq!(peer, "bob");
    assert!(matches!(alice.get_call(&call_id).unwrap().state, CallState::Ended));
    alice.remove_call(&call_id);
    assert!(alice.get_call(&call_id).is_none());
    bob.handle_incoming("alice".to_string(), end, 14);
    assert!(bob.get_call(&call_id).is_none());
}

#[test]
fn unknown_call_refused() {
    let mut c = SignalingClient::new("me".to_string());
    assert_eq!(c.accept("x", String::new(), vec![], 0).unwrap_err(), SignalingError::CallNotFound);
    assert_eq!(c.reject("x", "busy".to_string()).unwrap_err(), SignalingError::CallNotFound);
    assert_eq!(c.end_call("x").unwrap_err(), SignalingError::CallNotFound);
    assert_eq!(c.add_ice_candidate("x", "c".to_string()).unwrap_err(), SignalingError::CallNotFound);
    c.handle_incoming("p".to_string(), SignalingMessage::Ringing { call_id: "x".to_string() }, 1);
    assert!(c.list_calls().is_empty());
}

#[test]
fn expiry_only_fails_pending_calls() {
    let mut c = SignalingClient::new("me".to_string());
    let (id, _) = c.invite_with_id("call-1".to_string(), "peer", CallType::Audio, "sdp".to_string(), vec![], 1);
    assert_eq!(id, "call-1");
    assert!(c.expire_call("call-1"));
    assert!(matches!(c.get_call("call-1").unwrap().state, CallState::Failed));
    assert!(!c.expire_call("call-1"));
    assert!(!c.expire_call("missing"));
}

#[test]
fn candidates_and_media_changes() {
    let mut c = SignalingClient::new("me".to_string());
    c.invite_with_id("k".to_string(), "peer", CallType::ScreenShare, "sdp".to_string(), vec![], 1);
    let (_, msg) = c.add_ice_candidate("k", "local-1".to_string()).unwrap();
    assert!(matches!(msg, SignalingMessage::IceCandidate { ref candidate, .. } if candidate == "local-1"));
    c.handle_incoming("peer".to_string(), SignalingMessage::IceCandidate { call_id: "k".to_string(), candidate: "r1".to_string() }, 2);
    c.handle_incoming("peer".to_string(), SignalingMessage::MediaChange { call_id: "k".to_string(), sdp: "new".to_string() }, 3);
    c.handle_incoming("peer".to_string(), SignalingMessage::Heartbeat { call_id: "k".to_string() }, 4);
    let call = c.get_call("k").unwrap();
    assert_eq!(call.ice_candidates_local, vec!["local-1".to_string()]);
    assert_eq!(call.ice_candidates_remote, vec!["r1".to_string()]);
    assert_eq!(call.remote_sdp.as_deref(), Some("new"));
    c.handle_incoming("peer".to_string(), SignalingMessage::Reject { call_id: "k".to_string(), reason: "no".to_string() }, 5);
    assert!(c.get_call("k").is_none());
}
