use vchat::webrtc::ice::{stun_encode, stun_parse, StunAttr};
use vchat::webrtc::ice::{candidate_text, parse_candidate_parts, split_frame, CandidateType, FrameAssembler, MediaChunk};

#[test]
fn candidate_text_parts() {
    let p = parse_candidate_parts("host,192.168.1.5:5000,126").unwrap();
    assert_eq!(p.candidate_type, CandidateType::Host);
    assert_eq!(p.ip, b"192.168.1.5".to_vec());
    assert_eq!(p.port, 5000);
    assert_eq!(p.priority, 126);
    let p = parse_candidate_parts("srflx,::1:9,7,extra").unwrap();
    assert_eq!(p.candidate_type, CandidateType::Srflx);
    assert_eq!(p.ip, b"::1".to_vec());
    assert_eq!(p.port, 9);
    assert_eq!(p.priority, 7);
    let p = parse_candidate_parts("relay,10.0.0.1:+80").unwrap();
    assert_eq!(p.priority, 0);
    assert_eq!(p.port, 80);
    assert!(parse_candidate_parts("host").is_none());
    assert!(parse_candidate_parts("host,10.0.0.1").is_none());
    assert!(parse_candidate_parts("peer,10.0.0.1:80,1").is_none());
    assert!(parse_candidate_parts("host,10.0.0.1:70000,1").is_none());
    assert!(parse_candidate_parts("host,10.0.0.1:80,").is_none());
    assert!(parse_candidate_parts("host,10.0.0.1:80,4294967296").is_none());
}

#[test]
fn candidate_text_round_trip() {
    let t = candidate_text(CandidateType::Relay, "203.0.113.9", 3478, 1);
    assert_eq!(t, "relay,203.0.113.9:3478,1");
    let p = parse_candidate_parts(&t).unwrap();
    assert_eq!(p.candidate_type, CandidateType::Relay);
    assert_eq!(p.ip, b"203.0.113.9".to_vec());
    assert_eq!((p.port, p.priority), (3478, 1));
    assert_eq!(candidate_text(CandidateType::Host, "::1", 0, 4294967295), "host,::1:0,4294967295");
}

#[test]
fn default_ice_config_uses_public_stun() {
    let c = vchat::ice::IceConfig::default();
    assert_eq!(c.stun_servers.len(), 3);
    assert_eq!(c.stun_servers[0], "stun:stun.l.google.com:19302");
    assert_eq!(c.stun_servers[2], "stun:stun2.l.google.com:19302");
    assert!(c.turn_servers.is_empty());
    assert!(!c.ice_lite);
}

#[test]
fn split_frames_reassemble() {
    let data: Vec<u8> = (0..3000u32).map(|i| (i % 251) as u8).collect();
    let chunks = split_frame(9, &data);
    assert_eq!(chunks.len(), 3);
    let mut a = FrameAssembler::new();
    let n = chunks.len();
    for (k, c) in chunks.into_iter().enumerate() {
        let out = a.push(c);
        if k + 1 < n {
            assert!(out.is_none());
        } else {
            assert_eq!(out, Some(data.clone()));
        }
    }
}

#[test]
fn reassembly_orders_pieces_and_replaces_repeats() {
    let mut a = FrameAssembler::new();
    let piece = |offset: u32, data: &[u8]| MediaChunk { frame_id: 1, offset, total: 6, data: data.to_vec() };
    assert!(a.push(piece(4, b"ef")).is_none());
    assert!(a.push(piece(0, b"xx")).is_none());
    assert!(a.push(piece(0, b"ab")).is_none());
    assert_eq!(a.push(piece(2, b"cd")), Some(b"abcdef".to_vec()));
    let zero = MediaChunk { frame_id: 2, offset: 0, total: 0, data: vec![] };
    assert!(a.push(zero).is_none());
}

#[test]
fn stun_messages_parse_back() {
    let tid = [5u8; 12];
    let attrs = vec![StunAttr { kind: 0x0020, value: vec![1, 2, 3] }, StunAttr { kind: 0x0019, value: vec![17, 0, 0, 0] }];
    let msg = stun_encode(0xC101, tid, &attrs);
    assert_eq!(msg.len(), 20 + 8 + 8);
    let (t, id, back) = stun_parse(&msg).unwrap();
    assert_eq!(t, 0x0101);
    assert_eq!(id, tid);
    assert_eq!(back.len(), 2);
    assert_eq!(back[0].value, vec![1, 2, 3]);
    assert_eq!(back[1].kind, 0x0019);
    assert!(stun_parse(&msg[..19]).is_none());
}

#[test]
fn stun_messages_with_many_attributes_parse_back() {
    let attrs: Vec<StunAttr> = (0..5000u16).map(|k| StunAttr { kind: k, value: vec![k as u8; 3] }).collect();
    let msg = stun_encode(0x0001, [1u8; 12], &attrs);
    assert_eq!(msg.len(), 20 + 5000 * 8);
    let (t, _, back) = stun_parse(&msg).unwrap();
    assert_eq!(t, 0x0001);
    assert_eq!(back.len(), 5000);
    assert_eq!(back[4999].kind, 4999);
    assert_eq!(back[4999].value, vec![(4999u16 as u8); 3]);
}
