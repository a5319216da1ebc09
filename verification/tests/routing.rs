use vchat::drt::{Bucket, DrpClient, DrpMessage, Node, NodeState, RoutingTable};
use vchat::webrtc::ice::{IpAddress, PeerAddr};

fn node(id_last: u8, first: u8, state: NodeState) -> Node {
    let mut id = vec![0u8; 20];
    id[0] = first;
    id[19] = id_last;
    Node { id, addresses: vec![PeerAddr { ip: IpAddress::V4([10, 0, 0, id_last]), port: 7000 }], is_mobile: false, last_seen: 0, state }
}

#[test]
fn table_layout() {
    let t = RoutingTable::new(vec![0u8; 20], 20);
    assert_eq!(t.buckets.len(), 160);
    assert_eq!(t.bucket_size, 8);
    assert_eq!(t.buckets[0].range_start[0], 0x80);
    // The end byte at a byte boundary wraps to 0.
    assert_eq!(t.buckets[0].range_end[0], 0);
    assert_eq!(t.buckets[8].range_end[1], 0);
    assert_eq!(t.buckets[0].range_end[1], 0xff);
    assert_eq!(t.buckets[9].range_start[1], 0x40);
    assert_eq!(t.buckets[9].range_end[1], 0x7f);
    assert_eq!(t.buckets[9].range_end[0], 0);
    assert_eq!(t.buckets[159].range_start[19], 1);
    assert_eq!(t.buckets[159].range_end[19], 1);
}

#[test]
fn bucket_index_and_distance() {
    let t = RoutingTable::new(vec![0u8; 20], 8);
    assert_eq!(t.distance(&[1, 2, 3], &[1, 0]), vec![0, 2]);
    let mut id = vec![0u8; 20];
    id[0] = 0x80;
    assert_eq!(t.bucket_index(&id), 0);
    id[0] = 0;
    id[2] = 0x10;
    assert_eq!(t.bucket_index(&id), 19);
    assert_eq!(t.bucket_index(&[0u8; 20]), 159);
}

#[test]
fn bucket_add_replace_full() {
    let mut b = Bucket::new(vec![], vec![], 2);
    assert!(b.add_node(node(1, 0x80, NodeState::Known)));
    assert!(b.add_node(node(2, 0x80, NodeState::Known)));
    assert!(!b.add_node(node(3, 0x80, NodeState::Known)));
    assert!(b.add_node(node(1, 0x80, NodeState::Connected)));
    assert_eq!(b.nodes.len(), 2);
    assert_eq!(b.nodes[0].state, NodeState::Connected);
    assert_eq!(b.get_connected().len(), 1);
    b.remove_node(&node(1, 0x80, NodeState::Known).id);
    assert_eq!(b.nodes.len(), 1);
    assert_eq!(b.nodes[0].id[19], 2);
}

#[test]
fn closest_spirals_from_target_bucket() {
    let mut t = RoutingTable::new(vec![0u8; 20], 8);
    assert!(t.add_node(node(1, 0x80, NodeState::Connected)));
    assert!(t.add_node(node(2, 0x40, NodeState::Connected)));
    assert!(t.add_node(node(3, 0x20, NodeState::Known)));
    let mut target = vec![0u8; 20];
    target[0] = 0x40;
    let r = t.find_closest(&target, 8);
    let lasts: Vec<u8> = r.iter().map(|n| n.id[19]).collect();
    // Steps that would go below bucket 0 revisit bucket 0.
    assert_eq!(lasts, vec![2, 1, 1, 1, 1, 1, 1, 1]);
    let one = t.find_closest(&target, 1);
    assert_eq!(one.len(), 1);
    assert_eq!(one[0].id[19], 2);
    assert_eq!(t.get_connected_nodes().len(), 2);
    assert!(t.add_node(Node { id: vec![0u8; 20], addresses: vec![], is_mobile: true, last_seen: 0, state: NodeState::Known }));
    assert_eq!(t.buckets[159].nodes.len(), 1);
}

#[test]
fn drp_client_bootstraps_and_maintains() {
    let mut c = DrpClient::new(vec![0u8; 20]);
    c.bootstrap(vec![node(1, 0x80, NodeState::Connected), node(2, 0x40, NodeState::Connected), node(3, 0x40, NodeState::Disconnected)]);
    let found = c.find_node(&[0x80; 20]);
    assert!(!found.is_empty());
    assert_eq!(found[0].id[19], 1);
    let finds = c.maintenance_finds();
    assert_eq!(finds.len(), 2);
    for (n, m) in &finds {
        match m {
            DrpMessage::Find { query, num, node_id } => {
                assert_eq!(query, &vec![0u8; 20]);
                assert_eq!(*num, 8);
                assert_eq!(node_id, &n.id);
            }
            _ => panic!("expected a Find"),
        }
    }
    assert!(c.add_node(node(4, 0x20, NodeState::Connected)));
    assert_eq!(c.maintenance_finds().len(), 3);
}

#[test]
fn bootstrap_refreshes_repeated_nodes() {
    let mut c = DrpClient::new(vec![0u8; 20]);
    let mut nodes = Vec::new();
    for i in 0..10u8 {
        nodes.push(node(i, 0x80, NodeState::Known));
    }
    nodes.push(node(3, 0x80, NodeState::Connected));
    c.bootstrap(nodes);
    let b = &c.routing_table.buckets[0];
    assert_eq!(b.nodes.len(), 8);
    assert_eq!(b.nodes[3].state, NodeState::Connected);
    assert_eq!(b.nodes[7].id[19], 7);
    assert_eq!(c.routing_table.buckets[1].nodes.len(), 0);
}
