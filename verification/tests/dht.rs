use vchat::crypto::keys::Ed25519KeyPair;
use vchat::dht::kademlia::{
    answers_request, msg_request_id, nearest, Contact, Lookup, Message, NodeId, NodeInner, RoutingTable, StoredValue, K,
};
use vchat::webrtc::ice::{IpAddress, PeerAddr};

fn addr(port: u16) -> PeerAddr {
    PeerAddr { ip: IpAddress::V4([127, 0, 0, 1]), port }
}

struct Net {
    nodes: Vec<(PeerAddr, NodeInner)>,
}

impl Net {
    fn add(&mut self, key: &Ed25519KeyPair, port: u16, bootstrap: Vec<PeerAddr>) -> usize {
        let id = NodeId::from_pubkey(&key.public_key_bytes());
        self.nodes.push((addr(port), NodeInner::new(id, bootstrap)));
        self.nodes.len() - 1
    }

    fn index_of(&self, a: PeerAddr) -> usize {
        self.nodes.iter().position(|(x, _)| *x == a).unwrap()
    }

    /// Deliver `msg` from node `from` to address `to` and return the replies.
    fn query(&mut self, from: usize, to: PeerAddr, msg: Message) -> Vec<Message> {
        let from_addr = self.nodes[from].0;
        let j = self.index_of(to);
        let rid = msg_request_id(&msg);
        let replies = self.nodes[j].1.handle_message(from_addr, msg);
        replies
            .into_iter()
            .map(|o| {
                assert_eq!(o.to, from_addr);
                assert_eq!(msg_request_id(&o.msg), rid);
                o.msg
            })
            .collect()
    }

    fn ping(&mut self, i: usize, to: PeerAddr) -> Option<NodeId> {
        let rid = self.nodes[i].1.next_request_id();
        let id = self.nodes[i].1.current_id();
        let replies = self.query(i, to, Message::Ping { request_id: rid, id });
        replies.into_iter().find_map(|m| match m {
            Message::Pong { id, .. } => Some(id),
            _ => None,
        })
    }

    fn lookup(&mut self, i: usize, target: NodeId, want_values: bool, now: i64) -> (Vec<Contact>, Vec<StoredValue>) {
        let mut lk = Lookup::start(&self.nodes[i].1, target, want_values, now);
        loop {
            let cands = lk.next_candidates();
            if cands.is_empty() {
                break;
            }
            for c in cands {
                let rid = self.nodes[i].1.next_request_id();
                let id = self.nodes[i].1.current_id();
                let replies = self.query(i, c.addr, Message::FindNode { request_id: rid, id, target });
                let mut nodes = Vec::new();
                let mut values = Vec::new();
                for m in replies {
                    match m {
                        Message::FoundNodes { nodes: nn, .. } => nodes.extend(nn),
                        Message::StoreValue { value, .. } => values.push(value),
                        _ => {}
                    }
                }
                lk.absorb(&mut self.nodes[i].1, nodes, values);
            }
            lk.finish_round();
            if lk.is_done() {
                break;
            }
        }
        (lk.closest(), lk.found())
    }

    fn bootstrap(&mut self, i: usize) {
        for a in self.nodes[i].1.bootstrap_addrs() {
            if let Some(id) = self.ping(i, a) {
                self.nodes[i].1.learn(Contact { id, addr: a });
            }
        }
        let me = self.nodes[i].1.current_id();
        let _ = self.lookup(i, me, false, 0);
    }

    fn put(&mut self, i: usize, key: NodeId, value: &StoredValue, now: i64) {
        self.nodes[i].1.put_value(key, value.clone());
        let (nodes, _) = self.lookup(i, key, false, now);
        for n in nodes {
            let rid = self.nodes[i].1.next_request_id();
            let id = self.nodes[i].1.current_id();
            let _ = self.query(i, n.addr, Message::Store { request_id: rid, id, key, value: value.clone() });
        }
    }
}

#[test]
fn lookup_finds_node() {
    let a_key = Ed25519KeyPair::generate().unwrap();
    let b_key = Ed25519KeyPair::generate().unwrap();
    let mut net = Net { nodes: Vec::new() };
    let b = net.add(&b_key, 2000, vec![]);
    let a = net.add(&a_key, 2001, vec![addr(2000)]);
    net.bootstrap(a);
    net.bootstrap(b);
    let b_id = net.nodes[b].1.current_id();
    let (found, _) = net.lookup(a, b_id, false, 0);
    assert!(found.iter().any(|c| c.id == b_id), "lookup should discover node b, got: {found:?}");
}

#[test]
fn put_get_round_trip() {
    let a_key = Ed25519KeyPair::generate().unwrap();
    let b_key = Ed25519KeyPair::generate().unwrap();
    let mut net = Net { nodes: Vec::new() };
    let b = net.add(&b_key, 3000, vec![]);
    let a = net.add(&a_key, 3001, vec![addr(3000)]);
    net.bootstrap(a);
    net.bootstrap(b);

    let key = NodeId::random();
    let value = StoredValue::new(key, b"hello".to_vec(), &a_key.signing_key_bytes(), 1000);
    assert!(value.verify());

    net.put(a, key, &value, 1000);

    let mut tampered = value.clone();
    tampered.value = b"tampered".to_vec();
    assert!(!tampered.verify());

    let (_, got) = net.lookup(b, key, true, 1010);
    assert!(got.iter().any(|v| v.value == b"hello".to_vec()), "peer should retrieve the replicated value, got: {got:?}");
}

#[test]
fn self_healing_adds_new_node() {
    let a_key = Ed25519KeyPair::generate().unwrap();
    let b_key = Ed25519KeyPair::generate().unwrap();
    let c_key = Ed25519KeyPair::generate().unwrap();
    let mut net = Net { nodes: Vec::new() };
    let b = net.add(&b_key, 4000, vec![]);
    let a = net.add(&a_key, 4001, vec![addr(4000)]);
    net.bootstrap(a);
    net.bootstrap(b);
    let c = net.add(&c_key, 4002, vec![addr(4000)]);
    net.bootstrap(c);
    let c_id = net.nodes[c].1.current_id();
    let (found, _) = net.lookup(a, c_id, false, 0);
    assert!(found.iter().any(|n| n.id == c_id), "a should self-heal and discover c, got: {found:?}");
}

#[test]
fn stale_values_are_not_fresh() {
    let key_pair = Ed25519KeyPair::generate().unwrap();
    let mut node = NodeInner::new(NodeId([1u8; 32]), vec![]);
    let key = NodeId([2u8; 32]);
    let v = StoredValue::new(key, b"v".to_vec(), &key_pair.signing_key_bytes(), 100);
    node.put_value(key, v.clone());
    node.put_value(key, v.clone());
    assert_eq!(node.fresh_values(&key, 400).len(), 1);
    assert_eq!(node.fresh_values(&key, 401).len(), 0);
    assert_eq!(node.first_value(&key).unwrap().value, b"v".to_vec());
    assert!(node.first_value(&NodeId([3u8; 32])).is_none());
}

#[test]
fn ping_and_find_node_replies() {
    let mut node = NodeInner::new(NodeId([9u8; 32]), vec![]);
    let peer = NodeId([1u8; 32]);
    let replies = node.handle_message(addr(1), Message::Ping { request_id: 42, id: peer });
    assert_eq!(replies.len(), 1);
    assert!(matches!(replies[0].msg, Message::Pong { request_id: 42, id } if id == NodeId([9u8; 32])));
    let replies = node.handle_message(addr(2), Message::FindNode { request_id: 7, id: NodeId([2u8; 32]), target: peer });
    assert_eq!(replies.len(), 1);
    match &replies[0].msg {
        Message::FoundNodes { request_id, nodes, .. } => {
            assert_eq!(*request_id, 7);
            assert_eq!(nodes[0].id, peer);
            assert_eq!(nodes.len(), 2);
        }
        _ => panic!("expected FoundNodes"),
    }
    let replies = node.handle_message(addr(2), Message::Pong { request_id: 1, id: NodeId([2u8; 32]) });
    assert!(replies.is_empty());
}

#[test]
fn distance_and_buckets() {
    let a = NodeId([0u8; 32]);
    let mut b_bytes = [0u8; 32];
    b_bytes[31] = 1;
    let b = NodeId(b_bytes);
    let mut c_bytes = [0u8; 32];
    c_bytes[0] = 0x80;
    let c = NodeId(c_bytes);
    assert_eq!(a.distance(&b).0, b_bytes);
    assert!(a.distance(&b).less_than(&a.distance(&c)));
    assert!(!a.distance(&c).less_than(&a.distance(&b)));
    let table = RoutingTable::new();
    assert_eq!(table.bucket_index(&a, &b), 0);
    assert_eq!(table.bucket_index(&a, &c), 255);
    assert_eq!(table.bucket_index(&a, &a), 255);
    assert!(a.same(&a) && !a.same(&b));
}

#[test]
fn bucket_evicts_least_recently_seen() {
    let local = NodeId([0u8; 32]);
    let mut table = RoutingTable::new();
    let mk = |n: u8| {
        let mut id = [0u8; 32];
        id[0] = 0x80;
        id[31] = n;
        Contact { id: NodeId(id), addr: addr(n as u16) }
    };
    for n in 0..(K as u8 + 1) {
        table.insert(&local, mk(n));
    }
    let all = table.closest(&local, 100);
    assert_eq!(all.len(), K);
    assert!(!all.iter().any(|c| c.id == mk(0).id));
    table.insert(&local, mk(1));
    let again = table.closest(&local, 100);
    assert_eq!(again.len(), K);
    table.clear();
    assert!(table.closest(&local, 100).is_empty());
}

#[test]
fn nearest_sorts_and_cuts() {
    let target = NodeId([0u8; 32]);
    let mk = |b: u8| {
        let mut id = [0u8; 32];
        id[0] = b;
        Contact { id: NodeId(id), addr: addr(b as u16) }
    };
    let all = vec![mk(9), mk(3), mk(7), mk(1)];
    let r = nearest(&all, &target, 3);
    let firsts: Vec<u8> = r.iter().map(|c| c.id.0[0]).collect();
    assert_eq!(firsts, vec![1, 3, 7]);
}

#[test]
fn topic_keys_hash_identity_and_topic() {
    let expect = |s: &str| -> [u8; 32] { <sha2::Sha256 as sha2::Digest>::digest(s.as_bytes()).into() };
    assert_eq!(vchat::dht::presence_key("alice").0, expect("alice:presence"));
    assert_eq!(vchat::dht::ice_key("alice").0, expect("alice:ice"));
    assert_eq!(vchat::dht::message_key("bob").0, expect("bob:msg"));
    assert_eq!(vchat::dht::topic_key("é", "x").0, expect("é:x"));
    assert_ne!(vchat::dht::presence_key("alice").0, vchat::dht::presence_key("alicf").0);
}

#[test]
fn replies_match_their_request_id() {
    assert!(answers_request(7, &Message::Pong { request_id: 7, id: NodeId([1u8; 32]) }));
    assert!(!answers_request(8, &Message::Pong { request_id: 7, id: NodeId([1u8; 32]) }));
}
