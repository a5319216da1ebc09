use vchat::ice::{
    host_candidate, ordered_pairs, pair_priority, srflx_candidate, stun_target, CandidatePair, IceAgent, IceCandidate,
    IceConfig, IceError, HOST_PRIORITY, SRFLX_PRIORITY,
};

fn cand(protocol: &str, priority: u32) -> IceCandidate {
    IceCandidate {
        foundation: "f".to_string(),
        component_id: 1,
        protocol: protocol.to_string(),
        priority,
        address: "10.0.0.1".to_string(),
        port: 5000,
        candidate_type: "host".to_string(),
        related_address: None,
        related_port: None,
    }
}

#[test]
fn candidates_as_sdp_lines() {
    let h = host_candidate(2, "192.168.1.5".to_string());
    assert_eq!(h.to_sdp(), "a=candidate:host-2 1 udp 2130706431 192.168.1.5 0 typ host");
    let mut s = srflx_candidate(77, "203.0.113.9".to_string(), 61000);
    assert_eq!(s.priority, SRFLX_PRIORITY);
    assert_eq!(s.to_sdp(), "a=candidate:srflx-77 1 udp 1694498815 203.0.113.9 61000 typ srflx");
    s.related_address = Some("192.168.1.5".to_string());
    s.related_port = Some(5000);
    assert_eq!(
        s.to_sdp(),
        "a=candidate:srflx-77 1 udp 1694498815 203.0.113.9 61000 typ srflx raddr 192.168.1.5 rport 5000"
    );
    let mut odd = cand("tcp", 5);
    odd.candidate_type = "prflx".to_string();
    assert_eq!(odd.to_sdp(), "a=candidate:f 1 tcp 5 10.0.0.1 5000 typ host");
    assert_eq!(h.priority, HOST_PRIORITY);
}

#[test]
fn stun_urls_lose_their_scheme() {
    assert_eq!(stun_target("stun:stun.l.google.com:19302"), "stun.l.google.com:19302");
    assert_eq!(stun_target("198.51.100.1:3478"), "198.51.100.1:3478");
}

#[test]
fn pair_priorities_follow_the_role() {
    assert_eq!(pair_priority(true, 0, 7, 3), (7u64 << 32) | 3);
    assert_eq!(pair_priority(false, 0, 7, 3), (3u64 << 32) | 7);
    assert_eq!(pair_priority(true, 5, 0, 0), 10);
    assert_eq!(pair_priority(true, u64::MAX, 1, 1), (1u64 << 32) | 1 | (u64::MAX << 1));
}

#[test]
fn pairs_are_checked_best_first() {
    let local = vec![cand("udp", 10), cand("tcp", 50), cand("udp", 30)];
    let remote = vec![cand("udp", 20), cand("udp", 20)];
    let pairs = ordered_pairs(&local, &remote, true, 0);
    let order: Vec<(usize, usize)> = pairs.iter().map(|p| (p.local, p.remote)).collect();
    assert_eq!(order, vec![(2, 0), (2, 1), (0, 0), (0, 1)]);
    assert_eq!(pairs[0], CandidatePair { priority: (30u64 << 32) | 20, local: 2, remote: 0 });
    assert!(ordered_pairs(&local, &vec![], false, 1).is_empty());
}

#[test]
fn agent_checks_and_selects() {
    let mut agent = IceAgent::with_tie_breaker(IceConfig::default(), false, 1);
    assert!(agent.wants_srflx());
    assert_eq!(agent.checklist(), Err(IceError::NoCandidates));
    assert_eq!(IceError::NoCandidates.message(), "No candidates available");
    assert_eq!(IceError::NoWorkingPair.message(), "No working candidate pair found");
    let gathered = agent.finish_gathering(vec![cand("udp", 1)], vec![cand("udp", 2)]);
    assert_eq!(gathered.len(), 2);
    agent.add_remote_candidates(vec![cand("udp", 9), cand("tcp", 9)]);
    let list = agent.checklist().unwrap();
    assert_eq!(list.len(), 2);
    // The tie-breaker bit OR-ed into local priority 1 outranks local priority 2.
    assert_eq!((list[0].local, list[0].remote), (0, 0));
    assert_eq!(list[0].priority, (9u64 << 32) | 3);
    assert!(agent.get_selected_pair().is_none());
    agent.select_pair(list[0]);
    let (l, r) = agent.get_selected_pair().unwrap();
    assert_eq!(l.priority, 1);
    assert_eq!(r.priority, 9);

    let mut lite = IceAgent::new(IceConfig { stun_servers: vec![], turn_servers: vec![], ice_lite: true }, true);
    assert!(!lite.wants_srflx());
    assert_eq!(lite.finish_gathering(vec![cand("udp", 1)], vec![cand("udp", 2)]).len(), 1);
}

#[test]
fn agent_hands_out_its_candidates() {
    let mut agent = IceAgent::with_tie_breaker(IceConfig::default(), true, 0);
    agent.finish_gathering(vec![cand("udp", 4)], vec![]);
    agent.add_remote_candidates(vec![cand("tcp", 8), cand("udp", 6)]);
    assert_eq!(agent.get_local_candidates().len(), 1);
    let remote = agent.get_remote_candidates();
    assert_eq!(remote.len(), 2);
    assert_eq!(remote[1].priority, 6);
}
