use vchat::webrtc::calls::{CallError, WebRTCState};
use vchat::webrtc::{CallStatus, CallType};

#[test]
fn outgoing_calls_connect_and_are_logged() {
    let mut s = WebRTCState::new();
    let v = s.start_video_call("bob.onion", 1000);
    assert_eq!(v.status, CallStatus::Initiating);
    assert!(v.video_enabled && v.is_initiator);
    let a = s.start_audio_call("carol.onion", 1001);
    assert!(!a.video_enabled);
    assert_eq!(a.call_type, CallType::Audio);
    assert_ne!(v.call_id, a.call_id);
    let active = s.get_active_calls();
    assert_eq!(active.len(), 2);
    assert!(active.iter().all(|c| c.status == CallStatus::Connected));
    let h = s.get_call_history();
    assert_eq!(h.len(), 2);
    assert_eq!(h[0].direction, "outgoing");
    assert_eq!(h[0].status, CallStatus::Connected);
    assert_eq!(h[0].ended_at, None);
    assert_eq!(s.get_call_status(&v.call_id).unwrap().peer_onion, "bob.onion");
    assert_eq!(s.get_call_status("missing").unwrap_err(), CallError::NotFound);
}

#[test]
fn incoming_calls_are_answered_ended_or_rejected() {
    let mut s = WebRTCState::new();
    let c = s.establish_incoming_call("c1", "dave.onion", CallType::Video, 10);
    assert_eq!(c.status, CallStatus::Ringing);
    let answered = s.answer_video_call("c1").unwrap();
    assert_eq!(answered.status, CallStatus::Connected);
    assert_eq!(s.answer_video_call("c1").unwrap_err(), CallError::NotRinging);
    s.end_video_call("c1", 70).unwrap();
    let h = s.get_call_history();
    assert_eq!(h.len(), 1);
    assert_eq!(h[0].direction, "incoming");
    assert_eq!(h[0].status, CallStatus::Ended);
    assert_eq!(h[0].duration_secs, Some(60));
    assert_eq!(s.end_video_call("c1", 80).unwrap_err(), CallError::NotFound);
    s.establish_incoming_call("c2", "erin.onion", CallType::Audio, 100);
    s.send_call_reject("c2", 105).unwrap();
    assert_eq!(s.get_call_history()[1].status, CallStatus::Rejected);
    assert!(s.get_active_calls().is_empty());
}

#[test]
fn stale_calls_are_cleaned_up_as_failed() {
    let mut s = WebRTCState::new();
    s.establish_incoming_call("old", "a.onion", CallType::Video, 0);
    s.establish_incoming_call("new", "b.onion", CallType::Video, 5000);
    s.establish_incoming_call("edge", "c.onion", CallType::Video, 4000);
    let gone = s.cleanup_old_calls(7600);
    assert_eq!(gone, vec!["old".to_string()]);
    let active: Vec<String> = s.get_active_calls().into_iter().map(|c| c.call_id).collect();
    assert_eq!(active, vec!["new", "edge"]);
    let h = s.get_call_history();
    assert_eq!(h.len(), 1);
    assert_eq!(h[0].status, CallStatus::Failed);
    assert_eq!(h[0].ended_at, Some(7600));
    assert_eq!(h[0].duration_secs, Some(7600));
    assert!(s.cleanup_old_calls(7600).is_empty());
}

#[test]
fn call_controls() {
    let mut s = WebRTCState::new();
    s.establish_incoming_call("c", "p.onion", CallType::Video, 0);
    assert_eq!(s.start_screen_share("c").unwrap_err(), CallError::NotConnected);
    s.answer_video_call("c").unwrap();
    s.start_screen_share("c").unwrap();
    assert_eq!(s.get_call_status("c").unwrap().call_type, CallType::ScreenShare);
    s.stop_screen_share("c").unwrap();
    assert_eq!(s.get_call_status("c").unwrap().call_type, CallType::Video);
    assert_eq!(s.toggle_audio_mute("c"), Ok(true));
    assert_eq!(s.get_call_status("c").unwrap().status, CallStatus::Muted);
    assert_eq!(s.toggle_video("c"), Ok(false));
    s.add_ice_candidate("c", "candidate:1").unwrap();
    assert_eq!(s.get_call_status("c").unwrap().ice_candidates, vec!["candidate:1"]);
}
