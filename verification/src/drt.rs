//! Distributed routing table: 160 buckets of nodes keyed by the position of
//! the first bit in which a node's id differs from ours.
use vstd::prelude::*;
use crate::bytes;
use crate::webrtc::ice::{AddrView, PeerAddr};

verus! {

/// What is known of a remote node's connection.
#[derive(Debug, Clone, Copy, PartialEq, Eq, Structural)]
pub enum NodeState {
    Known,
    Connecting,
    Connected,
    Disconnected,
}

/// A remote node.
#[derive(Debug)]
pub struct Node {
    /// 160-bit identifier.
    pub id: Vec<u8>,
    pub addresses: Vec<PeerAddr>,
    pub is_mobile: bool,
    pub last_seen: i64,
    pub state: NodeState,
}

/// A node's values.
pub open spec fn node_view(n: Node) -> (Seq<u8>, Seq<AddrView>, bool, i64, NodeState) {
    (n.id@, n.addresses@.map_values(|a: PeerAddr| a@), n.is_mobile, n.last_seen, n.state)
}

/// A copy of a node.
pub fn copy_node(n: &Node) -> (r: Node)
    ensures
        node_view(r) == node_view(*n),
        r.id@ == n.id@,
{
    let mut addresses: Vec<PeerAddr> = Vec::new();
    let mut i: usize = 0;
    while i < n.addresses.len()
        invariant
            i <= n.addresses@.len(),
            addresses@ == n.addresses@.take(i as int),
        decreases n.addresses@.len() - i,
    {
        addresses.push(n.addresses[i]);
        assert(n.addresses@.take(i + 1) =~= n.addresses@.take(i as int).push(n.addresses@[i as int]));
        i = i + 1;
    }
    assert(n.addresses@.take(i as int) =~= n.addresses@);
    let id = bytes::copy_range(&n.id, 0, n.id.len());
    assert(id@ =~= n.id@);
    Node { id, addresses, is_mobile: n.is_mobile, last_seen: n.last_seen, state: n.state }
}

/// A bucket: the id range it covers and up to `max_size` nodes.
#[derive(Debug)]
pub struct Bucket {
    pub range_start: Vec<u8>,
    pub range_end: Vec<u8>,
    pub nodes: Vec<Node>,
    pub max_size: usize,
    pub connecting_count: usize,
}

/// The first node with id `id`, or -1.
pub open spec fn node_pos(ns: Seq<Node>, id: Seq<u8>) -> int
    decreases ns.len(),
{
    if ns.len() == 0 {
        -1
    } else if ns.last().id@ == id {
        let earlier = node_pos(ns.drop_last(), id);
        if earlier >= 0 { earlier } else { ns.len() - 1 }
    } else {
        node_pos(ns.drop_last(), id)
    }
}

pub proof fn lemma_node_pos(ns: Seq<Node>, id: Seq<u8>)
    ensures
        -1 <= node_pos(ns, id) < ns.len(),
        node_pos(ns, id) >= 0 ==> ns[node_pos(ns, id)].id@ == id,
        node_pos(ns, id) >= 0 ==> forall|j: int| 0 <= j < node_pos(ns, id) ==> ns[j].id@ != id,
        node_pos(ns, id) == -1 ==> forall|j: int| 0 <= j < ns.len() ==> ns[j].id@ != id,
    decreases ns.len(),
{
    if ns.len() > 0 {
        lemma_node_pos(ns.drop_last(), id);
        assert forall|j: int| 0 <= j < ns.len() - 1 implies ns.drop_last()[j] == ns[j] by {}
    }
}

/// Whether a node is connected.
pub open spec fn is_connected(n: Node) -> bool {
    n.state == NodeState::Connected
}

impl Bucket {
    /// An empty bucket for the given range.
    pub fn new(range_start: Vec<u8>, range_end: Vec<u8>, max_size: usize) -> (r: Self)
        ensures
            r.range_start == range_start,
            r.range_end == range_end,
            r.nodes@.len() == 0,
            r.max_size == max_size,
            r.connecting_count == 0,
    {
        Bucket { range_start, range_end, nodes: Vec::new(), max_size, connecting_count: 0 }
    }

    /// Add or refresh a node: a node with the same id is replaced in place;
    /// a new node is appended while there is room. Whether the node is now
    /// held is returned.
    pub fn add_node(&mut self, node: Node) -> (r: bool)
        ensures
            ({
                let ns = old(self).nodes@;
                let i = node_pos(ns, node.id@);
                if i >= 0 {
                    r && final(self).nodes@ == ns.update(i, node)
                } else if ns.len() < old(self).max_size {
                    r && final(self).nodes@ == ns.push(node)
                } else {
                    !r && final(self).nodes@ == ns
                }
            }),
            final(self).range_start == old(self).range_start,
            final(self).range_end == old(self).range_end,
            final(self).max_size == old(self).max_size,
            final(self).connecting_count == old(self).connecting_count,
    {
        proof { lemma_node_pos(self.nodes@, node.id@); }
        let mut i: usize = 0;
        while i < self.nodes.len()
            invariant
                i <= self.nodes@.len(),
                self.nodes@ == old(self).nodes@,
                self.range_start == old(self).range_start,
                self.range_end == old(self).range_end,
                self.max_size == old(self).max_size,
                self.connecting_count == old(self).connecting_count,
                forall|j: int| 0 <= j < i ==> self.nodes@[j].id@ != node.id@,
                -1 <= node_pos(self.nodes@, node.id@) < self.nodes@.len(),
                node_pos(self.nodes@, node.id@) >= 0 ==> self.nodes@[node_pos(self.nodes@, node.id@)].id@ == node.id@,
                node_pos(self.nodes@, node.id@) >= 0 ==> forall|j: int| 0 <= j < node_pos(self.nodes@, node.id@) ==> self.nodes@[j].id@ != node.id@,
                node_pos(self.nodes@, node.id@) == -1 ==> forall|j: int| 0 <= j < self.nodes@.len() ==> self.nodes@[j].id@ != node.id@,
            decreases self.nodes@.len() - i,
        {
            if bytes::constant_time_eq(&self.nodes[i].id, &node.id) {
                let mut n = node;
                self.nodes.set_and_swap(i, &mut n);
                return true;
            }
            i = i + 1;
        }
        if self.nodes.len() < self.max_size {
            self.nodes.push(node);
            return true;
        }
        false
    }

    /// Forget every node with id `node_id`.
    pub fn remove_node(&mut self, node_id: &[u8])
        ensures
            final(self).nodes@ == old(self).nodes@.filter(|n: Node| n.id@ != node_id@),
            final(self).range_start == old(self).range_start,
            final(self).range_end == old(self).range_end,
            final(self).max_size == old(self).max_size,
            final(self).connecting_count == old(self).connecting_count,
    {
        let ghost pred = |n: Node| n.id@ != node_id@;
        let ghost ns = self.nodes@;
        let mut kept: Vec<Node> = Vec::new();
        proof {
            reveal(Seq::filter);
        }
        assert(ns.take(0) =~= Seq::<Node>::empty());
        while self.nodes.len() > 0
            invariant
                pred == |n: Node| n.id@ != node_id@,
                ns == old(self).nodes@,
                self.nodes@ == ns.skip(ns.len() - self.nodes@.len()),
                self.nodes@.len() <= ns.len(),
                kept@ == ns.take(ns.len() - self.nodes@.len()).filter(pred),
                self.range_start == old(self).range_start,
                self.range_end == old(self).range_end,
                self.max_size == old(self).max_size,
                self.connecting_count == old(self).connecting_count,
            decreases self.nodes@.len(),
        {
            let ghost done = ns.len() - self.nodes@.len();
            let n = self.nodes.remove(0);
            proof {
                assert(n == ns[done]);
                assert(ns.take(done + 1) =~= ns.take(done).push(ns[done]));
                ns.take(done).lemma_filter_push(ns[done], pred);
                assert(self.nodes@ =~= ns.skip(done + 1));
            }
            if !bytes::constant_time_eq(&n.id, node_id) {
                kept.push(n);
            }
        }
        assert(ns.take(ns.len() as int) =~= ns);
        self.nodes = kept;
    }

    /// The connected nodes, in order.
    pub fn get_connected(&self) -> (r: Vec<&Node>)
        ensures
            r@.unref() == self.nodes@.filter(|n: Node| is_connected(n)),
    {
        let ghost pred = |n: Node| is_connected(n);
        let mut r: Vec<&Node> = Vec::new();
        let mut i: usize = 0;
        proof {
            reveal(Seq::filter);
        }
        assert(self.nodes@.take(0) =~= Seq::<Node>::empty());
        assert(r@.unref() =~= Seq::<Node>::empty());
        while i < self.nodes.len()
            invariant
                i <= self.nodes@.len(),
                pred == |n: Node| is_connected(n),
                r@.unref() == self.nodes@.take(i as int).filter(pred),
            decreases self.nodes@.len() - i,
        {
            proof {
                assert(self.nodes@.take(i + 1) =~= self.nodes@.take(i as int).push(self.nodes@[i as int]));
                self.nodes@.take(i as int).lemma_filter_push(self.nodes@[i as int], pred);
            }
            if self.nodes[i].state == NodeState::Connected {
                let ghost before = r@;
                r.push(&self.nodes[i]);
                assert(r@.unref() =~= before.unref().push(self.nodes@[i as int]));
            }
            i = i + 1;
        }
        assert(self.nodes@.take(i as int) =~= self.nodes@);
        r
    }
}


/// Node values of a list of nodes.
pub open spec fn nodes_view(ns: Seq<Node>) -> Seq<(Seq<u8>, Seq<AddrView>, bool, i64, NodeState)> {
    ns.map_values(|n: Node| node_view(n))
}

/// Byte `k / 8` of the first id of bucket `k`: the single bit `k mod 8`,
/// counted from the most significant bit.
pub open spec fn range_start_byte(r: int) -> u8 {
    if r == 0 { 128 } else if r == 1 { 64 } else if r == 2 { 32 } else if r == 3 { 16 }
    else if r == 4 { 8 } else if r == 5 { 4 } else if r == 6 { 2 } else { 1 }
}

/// Byte `k / 8` of the last id of bucket `k`: `2^(8 - k mod 8) - 1`
/// computed in 8 bits, so every bit from `k mod 8` on, except at a byte
/// boundary (`k mod 8 == 0`), where the 8-bit shift wraps and the byte is 0.
pub open spec fn range_end_byte(r: int) -> u8 {
    if r == 0 { 0 } else if r == 1 { 127 } else if r == 2 { 63 } else if r == 3 { 31 }
    else if r == 4 { 15 } else if r == 5 { 7 } else if r == 6 { 3 } else { 1 }
}

/// The first id of bucket `k` (20 bytes).
pub open spec fn spec_range_start(k: int) -> Seq<u8> {
    Seq::new(20, |j: int| if j == k / 8 { range_start_byte(k % 8) } else { 0u8 })
}

/// The last id of bucket `k` (20 bytes).
pub open spec fn spec_range_end(k: int) -> Seq<u8> {
    Seq::new(20, |j: int| if j == k / 8 { range_end_byte(k % 8) } else if j > k / 8 { 255u8 } else { 0u8 })
}

fn range_bytes(r: usize) -> (b: (u8, u8))
    requires
        r < 8,
    ensures
        b.0 == range_start_byte(r as int),
        b.1 == range_end_byte(r as int),
{
    match r {
        0 => (128, 0),
        1 => (64, 127),
        2 => (32, 63),
        3 => (16, 31),
        4 => (8, 15),
        5 => (4, 7),
        6 => (2, 3),
        _ => (1, 1),
    }
}

/// Byte-wise XOR of `a` and `b` over their common length.
pub open spec fn spec_xor_distance(a: Seq<u8>, b: Seq<u8>) -> Seq<u8> {
    Seq::new(if a.len() < b.len() { a.len() } else { b.len() }, |i: int| a[i] ^ b[i])
}

/// Index of the first non-zero byte of `d` at or after `i`, or -1.
pub open spec fn first_nonzero(d: Seq<u8>, i: int) -> int
    decreases d.len() - i,
{
    if i < 0 || i >= d.len() {
        -1
    } else if d[i] != 0 {
        i
    } else {
        first_nonzero(d, i + 1)
    }
}

/// The bucket of `target` seen from `local`: eight times the first
/// differing byte plus the leading zero bits of their XOR there (saturated
/// at the top of `usize`); 159 when the common bytes agree.
pub open spec fn spec_drt_bucket(local: Seq<u8>, target: Seq<u8>) -> int {
    let d = spec_xor_distance(local, target);
    let i = first_nonzero(d, 0);
    if i < 0 {
        159
    } else {
        let v = i * 8 + d[i].leading_zeros();
        if v <= usize::MAX { v } else { usize::MAX as int }
    }
}

/// Bucket `idx` visited at step `i` of a search that spirals outwards:
/// `idx`, `idx + 1`, `idx - 1`, `idx + 2`, ... (steps below 0 stay at 0).
pub open spec fn spiral(idx: int, i: int) -> int {
    if i % 2 == 0 {
        if idx - i / 2 > 0 { idx - i / 2 } else { 0 }
    } else {
        idx + (i + 1) / 2
    }
}

/// The connected nodes met in the first `n` steps of the spiral.
pub open spec fn spiral_nodes(buckets: Seq<Bucket>, idx: int, n: nat) -> Seq<Node>
    decreases n,
{
    if n == 0 {
        Seq::empty()
    } else {
        let k = spiral(idx, n - 1);
        spiral_nodes(buckets, idx, (n - 1) as nat) + (if k < buckets.len() {
            buckets[k].nodes@.filter(|m: Node| is_connected(m))
        } else {
            Seq::empty()
        })
    }
}

/// The node list of each bucket.
pub open spec fn bucket_nodes(buckets: Seq<Bucket>) -> Seq<Seq<Node>> {
    buckets.map_values(|b: Bucket| b.nodes@)
}

/// The capacity of each bucket.
pub open spec fn bucket_caps(buckets: Seq<Bucket>) -> Seq<int> {
    buckets.map_values(|b: Bucket| b.max_size as int)
}

/// Node lists after `node` is added to bucket `idx`: a node with the same id
/// is replaced in place, a new one is appended while the bucket has room,
/// and nothing changes when the bucket is full or `idx` is beyond the table.
pub open spec fn spec_add_to_table(lists: Seq<Seq<Node>>, caps: Seq<int>, idx: int, node: Node) -> Seq<Seq<Node>> {
    if 0 <= idx < lists.len() {
        let ns = lists[idx];
        let i = node_pos(ns, node.id@);
        if i >= 0 {
            lists.update(idx, ns.update(i, node))
        } else if ns.len() < caps[idx] {
            lists.update(idx, ns.push(node))
        } else {
            lists
        }
    } else {
        lists
    }
}

/// Node lists after each of `nodes` is added in turn, for a table with
/// local id `local`.
pub open spec fn spec_add_all(lists: Seq<Seq<Node>>, caps: Seq<int>, local: Seq<u8>, nodes: Seq<Node>) -> Seq<Seq<Node>>
    decreases nodes.len(),
{
    if nodes.len() == 0 {
        lists
    } else {
        spec_add_all(
            spec_add_to_table(lists, caps, spec_drt_bucket(local, nodes[0].id@), nodes[0]),
            caps,
            local,
            nodes.drop_first(),
        )
    }
}

/// Routing table: buckets, our id and the bucket size.
#[derive(Debug)]
pub struct RoutingTable {
    pub buckets: Vec<Bucket>,
    pub local_node_id: Vec<u8>,
    pub bucket_size: usize,
}

impl RoutingTable {
    /// A table of 160 empty buckets of 8 nodes, bucket `k` labelled with the
    /// range of ids whose highest set bit is bit `k` from the top of 160
    /// (see `spec_range_end` for the end byte at byte boundaries).
    pub fn new(local_node_id: Vec<u8>, bucket_size: usize) -> (r: Self)
        ensures
            r.local_node_id == local_node_id,
            r.bucket_size == 8,
            r.buckets@.len() == 160,
            forall|k: int| 0 <= k < 160 ==> {
                &&& (#[trigger] r.buckets@[k]).range_start@ == spec_range_start(k)
                &&& r.buckets@[k].range_end@ == spec_range_end(k)
                &&& r.buckets@[k].nodes@.len() == 0
                &&& r.buckets@[k].max_size == 8
                &&& r.buckets@[k].connecting_count == 0
            },
    {
        let mut buckets: Vec<Bucket> = Vec::new();
        let mut k: usize = 0;
        while k < 160
            invariant
                k <= 160,
                buckets@.len() == k,
                forall|q: int| 0 <= q < k ==> {
                    &&& (#[trigger] buckets@[q]).range_start@ == spec_range_start(q)
                    &&& buckets@[q].range_end@ == spec_range_end(q)
                    &&& buckets@[q].nodes@.len() == 0
                    &&& buckets@[q].max_size == 8
                    &&& buckets@[q].connecting_count == 0
                },
            decreases 160 - k,
        {
            let (sb, eb) = range_bytes(k % 8);
            let mut start: Vec<u8> = Vec::new();
            let mut end: Vec<u8> = Vec::new();
            let mut j: usize = 0;
            while j < 20
                invariant
                    j <= 20,
                    k < 160,
                    sb == range_start_byte((k % 8) as int),
                    eb == range_end_byte((k % 8) as int),
                    start@ == spec_range_start(k as int).take(j as int),
                    end@ == spec_range_end(k as int).take(j as int),
                decreases 20 - j,
            {
                if j == k / 8 {
                    start.push(sb);
                    end.push(eb);
                } else if j > k / 8 {
                    start.push(0);
                    end.push(255);
                } else {
                    start.push(0);
                    end.push(0);
                }
                assert(start@ =~= spec_range_start(k as int).take(j + 1));
                assert(end@ =~= spec_range_end(k as int).take(j + 1));
                j = j + 1;
            }
            assert(spec_range_start(k as int).take(20) =~= spec_range_start(k as int));
            assert(spec_range_end(k as int).take(20) =~= spec_range_end(k as int));
            buckets.push(Bucket::new(start, end, 8));
            k = k + 1;
        }
        RoutingTable { buckets, local_node_id, bucket_size: 8 }
    }

    /// Byte-wise XOR of `a` and `b` over their common length.
    pub fn distance(&self, a: &[u8], b: &[u8]) -> (r: Vec<u8>)
        ensures
            r@ == spec_xor_distance(a@, b@),
    {
        let n = if a.len() < b.len() { a.len() } else { b.len() };
        let mut r: Vec<u8> = Vec::new();
        let mut i: usize = 0;
        while i < n
            invariant
                i <= n,
                n == (if a@.len() < b@.len() { a@.len() } else { b@.len() }),
                r@ == spec_xor_distance(a@, b@).take(i as int),
            decreases n - i,
        {
            r.push(a[i] ^ b[i]);
            assert(r@ =~= spec_xor_distance(a@, b@).take(i + 1));
            i = i + 1;
        }
        assert(spec_xor_distance(a@, b@).take(n as int) =~= spec_xor_distance(a@, b@));
        r
    }

    /// The bucket of `target_id` (see `spec_drt_bucket`).
    pub fn bucket_index(&self, target_id: &[u8]) -> (r: usize)
        ensures
            r == spec_drt_bucket(self.local_node_id@, target_id@),
    {
        broadcast use vstd::std_specs::bits::axiom_u8_leading_zeros;
        let dist = self.distance(&self.local_node_id, target_id);
        let mut i: usize = 0;
        assert(first_nonzero(dist@, 0) == first_nonzero(dist@, 0));
        while i < dist.len()
            invariant
                i <= dist@.len(),
                dist@ == spec_xor_distance(self.local_node_id@, target_id@),
                first_nonzero(dist@, 0) == first_nonzero(dist@, i as int),
            decreases dist@.len() - i,
        {
            if dist[i] != 0 {
                let bit = dist[i].leading_zeros() as usize;
                let base = i.checked_mul(8);
                return match base {
                    Some(b) => b.saturating_add(bit),
                    None => usize::MAX,
                };
            }
            i = i + 1;
        }
        159
    }

    /// Add or refresh `node` in its bucket; false when its bucket index is
    /// beyond the table or the bucket is full.
    pub fn add_node(&mut self, node: Node) -> (r: bool)
        ensures
            ({
                let idx = spec_drt_bucket(old(self).local_node_id@, node.id@);
                let bs = old(self).buckets@;
                if idx < bs.len() {
                    let b = bs[idx];
                    let i = node_pos(b.nodes@, node.id@);
                    let nb = final(self).buckets@[idx];
                    &&& final(self).buckets@.len() == bs.len()
                    &&& forall|j: int| 0 <= j < bs.len() && j != idx ==> final(self).buckets@[j] == bs[j]
                    &&& nb.range_start == b.range_start && nb.range_end == b.range_end
                    &&& nb.max_size == b.max_size && nb.connecting_count == b.connecting_count
                    &&& if i >= 0 {
                        r && nb.nodes@ == b.nodes@.update(i, node)
                    } else if b.nodes@.len() < b.max_size {
                        r && nb.nodes@ == b.nodes@.push(node)
                    } else {
                        !r && nb.nodes@ == b.nodes@
                    }
                } else {
                    !r && final(self).buckets@ == bs
                }
            }),
            final(self).local_node_id == old(self).local_node_id,
            final(self).bucket_size == old(self).bucket_size,
    {
        let idx = self.bucket_index(&node.id);
        if idx < self.buckets.len() {
            let mut b = Bucket::new(Vec::new(), Vec::new(), 0);
            self.buckets.set_and_swap(idx, &mut b);
            let r = b.add_node(node);
            self.buckets.set_and_swap(idx, &mut b);
            r
        } else {
            false
        }
    }

    /// Up to `count` connected nodes (at least one, if any), gathered from
    /// the bucket of `target_id` outwards (see `spiral_nodes`).
    pub fn find_closest(&self, target_id: &[u8], count: usize) -> (r: Vec<Node>)
        ensures
            ({
                let all = spiral_nodes(self.buckets@, spec_drt_bucket(self.local_node_id@, target_id@), self.buckets@.len() as nat);
                let want = if count == 0 { 1 } else { count as int };
                nodes_view(r@) == nodes_view(all.take(if all.len() < want { all.len() as int } else { want }))
            }),
    {
        let idx = self.bucket_index(target_id);
        let ghost want: int = if count == 0 { 1 } else { count as int };
        let ghost bs = self.buckets@;
        let mut candidates: Vec<Node> = Vec::new();
        let mut i: usize = 0;
        while i < self.buckets.len()
            invariant
                i <= self.buckets@.len(),
                bs == self.buckets@,
                idx == spec_drt_bucket(self.local_node_id@, target_id@),
                want == (if count == 0 { 1 } else { count as int }),
                nodes_view(candidates@) == nodes_view(spiral_nodes(bs, idx as int, i as nat)),
                candidates@.len() < want,
            decreases self.buckets@.len() - i,
        {
            let ghost before = spiral_nodes(bs, idx as int, i as nat);
            let len = self.buckets.len();
            let bucket_idx: Option<usize> = if i % 2 == 0 {
                Some(idx.saturating_sub(i / 2))
            } else if idx < len && (i + 1) / 2 < len - idx {
                Some(idx + (i + 1) / 2)
            } else {
                None
            };
            let ghost k = spiral(idx as int, i as int);
            assert(bucket_idx is Some && bucket_idx->0 < len ==> bucket_idx->0 == k);
            assert(bucket_idx is None || bucket_idx->0 >= len ==> k >= len);
            if let Some(b) = bucket_idx {
                if b < len {
                    let connected = self.buckets[b].get_connected();
                    let ghost conn = connected@.unref();
                    assert(b == k);
                    let mut j: usize = 0;
                    while j < connected.len()
                        invariant
                            j <= connected@.len(),
                            conn == connected@.unref(),
                            conn == bs[k].nodes@.filter(|m: Node| is_connected(m)),
                            want == (if count == 0 { 1 } else { count as int }),
                            i < bs.len(),
                            bs == self.buckets@,
                            0 <= k < bs.len(),
                            k == spiral(idx as int, i as int),
                            before == spiral_nodes(bs, idx as int, i as nat),
                            idx == spec_drt_bucket(self.local_node_id@, target_id@),
                            nodes_view(candidates@) == nodes_view(before + conn.take(j as int)),
                            candidates@.len() < want,
                        decreases connected@.len() - j,
                    {
                        let ghost cb = candidates@;
                        candidates.push(copy_node(connected[j]));
                        assert((before + conn.take(j + 1)) =~= (before + conn.take(j as int)).push(conn[j as int]));
                        assert(nodes_view(candidates@) =~= nodes_view(cb).push(node_view(conn[j as int])));
                        assert(nodes_view(candidates@) =~= nodes_view(before + conn.take(j + 1)));
                        if candidates.len() >= count {
                            proof {
                                let all = spiral_nodes(bs, idx as int, bs.len() as nat);
                                lemma_spiral_prefix(bs, idx as int, (i + 1) as nat, bs.len() as nat);
                                assert(spiral_nodes(bs, idx as int, (i + 1) as nat) == before + conn);
                                let pre = before + conn;
                                let got = before + conn.take(j + 1);
                                assert(all.take(pre.len() as int) == pre);
                                assert(candidates@.len() == nodes_view(candidates@).len());
                                assert(nodes_view(got).len() == got.len());
                                assert(got.len() == want);
                                assert(all.len() >= pre.len());
                                assert(all.take(want) =~= got) by {
                                    assert forall|q: int| 0 <= q < want implies all.take(want)[q] == got[q] by {
                                        assert(all.take(pre.len() as int)[q] == all[q]);
                                    }
                                }
                            }
                            return candidates;
                        }
                        j = j + 1;
                    }
                    assert(conn.take(j as int) =~= conn);
                }
            }
            assert(spiral_nodes(bs, idx as int, (i + 1) as nat) == before + (if k < bs.len() {
                bs[k].nodes@.filter(|m: Node| is_connected(m))
            } else {
                Seq::empty()
            }));
            proof {
                if !(k < bs.len()) {
                    assert(before + Seq::<Node>::empty() =~= before);
                }
            }
            i = i + 1;
        }
        proof {
            let all = spiral_nodes(bs, idx as int, bs.len() as nat);
            assert(all.take(all.len() as int) =~= all);
            assert(candidates@.len() == nodes_view(candidates@).len());
            assert(all.len() == nodes_view(all).len());
        }
        candidates
    }

    /// Every connected node, bucket by bucket.
    pub fn get_connected_nodes(&self) -> (r: Vec<Node>)
        ensures
            nodes_view(r@) == nodes_view(self.buckets@.map_values(|b: Bucket| b.nodes@.filter(|m: Node| is_connected(m))).flatten()),
    {
        let ghost groups = self.buckets@.map_values(|b: Bucket| b.nodes@.filter(|m: Node| is_connected(m)));
        let mut nodes: Vec<Node> = Vec::new();
        let mut b: usize = 0;
        while b < self.buckets.len()
            invariant
                b <= self.buckets@.len(),
                groups == self.buckets@.map_values(|b: Bucket| b.nodes@.filter(|m: Node| is_connected(m))),
                nodes_view(nodes@) == nodes_view(groups.take(b as int).flatten()),
            decreases self.buckets@.len() - b,
        {
            let connected = self.buckets[b].get_connected();
            let ghost conn = connected@.unref();
            let ghost before = groups.take(b as int).flatten();
            let mut j: usize = 0;
            while j < connected.len()
                invariant
                    j <= connected@.len(),
                    conn == connected@.unref(),
                    conn == groups[b as int],
                    before == groups.take(b as int).flatten(),
                    nodes_view(nodes@) == nodes_view(before + conn.take(j as int)),
                decreases connected@.len() - j,
            {
                let ghost nb = nodes@;
                nodes.push(copy_node(connected[j]));
                assert((before + conn.take(j + 1)) =~= (before + conn.take(j as int)).push(conn[j as int]));
                assert(nodes_view(nodes@) =~= nodes_view(nb).push(node_view(conn[j as int])));
                j = j + 1;
            }
            proof {
                assert(conn.take(j as int) =~= conn);
                assert(groups.take(b + 1) =~= groups.take(b as int).push(groups[b as int]));
                groups.take(b as int).lemma_flatten_push(groups[b as int]);
            }
            b = b + 1;
        }
        assert(groups.take(b as int) =~= groups);
        nodes
    }
}

/// Later steps of the spiral only add nodes after the earlier ones.
pub proof fn lemma_spiral_prefix(buckets: Seq<Bucket>, idx: int, m: nat, n: nat)
    requires
        m <= n,
    ensures
        spiral_nodes(buckets, idx, n).len() >= spiral_nodes(buckets, idx, m).len(),
        spiral_nodes(buckets, idx, n).take(spiral_nodes(buckets, idx, m).len() as int) == spiral_nodes(buckets, idx, m),
    decreases n - m,
{
    if m < n {
        lemma_spiral_prefix(buckets, idx, m, (n - 1) as nat);
        let a = spiral_nodes(buckets, idx, (n - 1) as nat);
        let k = spiral(idx, n - 1);
        let extra = if k < buckets.len() { buckets[k].nodes@.filter(|x: Node| is_connected(x)) } else { Seq::<Node>::empty() };
        assert(spiral_nodes(buckets, idx, n) == a + extra);
        let l = spiral_nodes(buckets, idx, m).len() as int;
        assert((a + extra).take(l) =~= a.take(l));
    } else {
        let s = spiral_nodes(buckets, idx, m);
        assert(s.take(s.len() as int) =~= s);
    }
}

/// A routing-protocol message.
pub enum DrpMessage {
    /// Ask a node for the `num` nodes it knows closest to `query`.
    Find { query: Vec<u8>, num: u32, node_id: Vec<u8> },
    /// The answer to a `Find`.
    Found { query: Vec<u8>, nodes: Vec<Node>, mobile_nodes: Vec<Node> },
    Ping,
    Pong,
}

/// A routing-protocol client: the local node's routing table.
pub struct DrpClient {
    pub routing_table: RoutingTable,
    pub local_id: Vec<u8>,
}

impl DrpClient {
    /// A client for `local_id` with an empty table of buckets of 8 nodes.
    pub fn new(local_id: Vec<u8>) -> (r: Self)
        ensures
            r.local_id@ == local_id@,
            r.routing_table.local_node_id@ == local_id@,
            r.routing_table.bucket_size == 8,
            r.routing_table.buckets@.len() == 160,
            forall|k: int| 0 <= k < 160 ==> (#[trigger] r.routing_table.buckets@[k]).nodes@.len() == 0,
    {
        let id_copy = bytes::copy_range(local_id.as_slice(), 0, local_id.len());
        assert(id_copy@ =~= local_id@);
        DrpClient { routing_table: RoutingTable::new(id_copy, 8), local_id }
    }

    /// Add or refresh a node in the table (see `RoutingTable::add_node`).
    pub fn add_node(&mut self, node: Node) -> (r: bool)
        ensures
            ({
                let idx = spec_drt_bucket(old(self).routing_table.local_node_id@, node.id@);
                let bs = old(self).routing_table.buckets@;
                if idx < bs.len() {
                    let b = bs[idx];
                    let i = node_pos(b.nodes@, node.id@);
                    let nb = final(self).routing_table.buckets@[idx];
                    &&& final(self).routing_table.buckets@.len() == bs.len()
                    &&& forall|j: int| 0 <= j < bs.len() && j != idx ==> final(self).routing_table.buckets@[j] == bs[j]
                    &&& if i >= 0 {
                        r && nb.nodes@ == b.nodes@.update(i, node)
                    } else if b.nodes@.len() < b.max_size {
                        r && nb.nodes@ == b.nodes@.push(node)
                    } else {
                        !r && nb.nodes@ == b.nodes@
                    }
                } else {
                    !r && final(self).routing_table.buckets@ == bs
                }
            }),
            final(self).local_id == old(self).local_id,
            final(self).routing_table.local_node_id == old(self).routing_table.local_node_id,
            bucket_nodes(final(self).routing_table.buckets@) == spec_add_to_table(
                bucket_nodes(old(self).routing_table.buckets@),
                bucket_caps(old(self).routing_table.buckets@),
                spec_drt_bucket(old(self).routing_table.local_node_id@, node.id@),
                node,
            ),
            bucket_caps(final(self).routing_table.buckets@) == bucket_caps(old(self).routing_table.buckets@),
    {
        let ghost idx = spec_drt_bucket(self.routing_table.local_node_id@, node.id@);
        let ghost bs = self.routing_table.buckets@;
        let ghost nd = node;
        let r = self.routing_table.add_node(node);
        proof {
            let fs = self.routing_table.buckets@;
            assert(idx >= 0);
            if idx < bs.len() {
                assert(fs[idx].max_size == bs[idx].max_size);
                assert(bucket_caps(fs) =~= bucket_caps(bs));
                assert(bucket_nodes(fs) =~= spec_add_to_table(bucket_nodes(bs), bucket_caps(bs), idx, nd));
            } else {
                assert(bucket_caps(fs) =~= bucket_caps(bs));
                assert(bucket_nodes(fs) =~= bucket_nodes(bs));
            }
        }
        r
    }

    /// Add each bootstrap node in turn.
    pub fn bootstrap(&mut self, bootstrap_nodes: Vec<Node>)
        ensures
            final(self).local_id == old(self).local_id,
            final(self).routing_table.local_node_id == old(self).routing_table.local_node_id,
            final(self).routing_table.buckets@.len() == old(self).routing_table.buckets@.len(),
            bucket_caps(final(self).routing_table.buckets@) == bucket_caps(old(self).routing_table.buckets@),
            bucket_nodes(final(self).routing_table.buckets@) == spec_add_all(
                bucket_nodes(old(self).routing_table.buckets@),
                bucket_caps(old(self).routing_table.buckets@),
                old(self).routing_table.local_node_id@,
                bootstrap_nodes@,
            ),
    {
        let mut nodes = bootstrap_nodes;
        let ghost caps = bucket_caps(self.routing_table.buckets@);
        let ghost local = self.routing_table.local_node_id@;
        let ghost goal = spec_add_all(bucket_nodes(self.routing_table.buckets@), caps, local, nodes@);
        while nodes.len() > 0
            invariant
                self.local_id == old(self).local_id,
                self.routing_table.local_node_id == old(self).routing_table.local_node_id,
                local == self.routing_table.local_node_id@,
                bucket_caps(self.routing_table.buckets@) == caps,
                spec_add_all(bucket_nodes(self.routing_table.buckets@), caps, local, nodes@) == goal,
            decreases nodes@.len(),
        {
            let ghost before = nodes@;
            let n = nodes.remove(0);
            assert(nodes@ =~= before.drop_first());
            self.add_node(n);
        }
        proof {
            assert(self.routing_table.buckets@.len() == bucket_caps(self.routing_table.buckets@).len());
        }
    }

    /// The 8 nodes closest to `target_id` (see `RoutingTable::find_closest`).
    pub fn find_node(&self, target_id: &[u8]) -> (r: Vec<Node>)
        ensures
            ({
                let all = spiral_nodes(self.routing_table.buckets@,
                    spec_drt_bucket(self.routing_table.local_node_id@, target_id@), self.routing_table.buckets@.len() as nat);
                nodes_view(r@) == nodes_view(all.take(if all.len() < 8 { all.len() as int } else { 8 }))
            }),
    {
        self.routing_table.find_closest(target_id, 8)
    }

    /// One round of table maintenance: a `Find` of the local id, for 8
    /// nodes, to each connected node.
    pub fn maintenance_finds(&self) -> (r: Vec<(Node, DrpMessage)>)
        ensures
            ({
                let conn = self.routing_table.buckets@.map_values(|b: Bucket| b.nodes@.filter(|m: Node| is_connected(m))).flatten();
                &&& r@.len() == conn.len()
                &&& forall|i: int| 0 <= i < r@.len() ==> {
                    &&& node_view((#[trigger] r@[i]).0) == node_view(conn[i])
                    &&& r@[i].1 matches DrpMessage::Find { query, num, node_id }
                        && query@ == self.local_id@ && num == 8 && node_id@ == conn[i].id@
                }
            }),
    {
        let connected = self.routing_table.get_connected_nodes();
        let ghost conn = self.routing_table.buckets@.map_values(|b: Bucket| b.nodes@.filter(|m: Node| is_connected(m))).flatten();
        proof { lemma_nodes_view_index(connected@, conn); }
        let mut out: Vec<(Node, DrpMessage)> = Vec::new();
        let mut i: usize = 0;
        while i < connected.len()
            invariant
                i <= connected@.len(),
                connected@.len() == conn.len(),
                forall|k: int| 0 <= k < connected@.len() ==> node_view(#[trigger] connected@[k]) == node_view(conn[k]),
                out@.len() == i,
                forall|k: int| 0 <= k < i ==> {
                    &&& node_view((#[trigger] out@[k]).0) == node_view(conn[k])
                    &&& out@[k].1 matches DrpMessage::Find { query, num, node_id }
                        && query@ == self.local_id@ && num == 8 && node_id@ == conn[k].id@
                },
            decreases connected@.len() - i,
        {
            let n = &connected[i];
            let query = bytes::copy_range(self.local_id.as_slice(), 0, self.local_id.len());
            let node_id = bytes::copy_range(n.id.as_slice(), 0, n.id.len());
            assert(query@ =~= self.local_id@);
            assert(node_id@ =~= n.id@);
            out.push((copy_node(n), DrpMessage::Find { query, num: 8, node_id }));
            i = i + 1;
        }
        out
    }
}

proof fn lemma_nodes_view_index(a: Seq<Node>, b: Seq<Node>)
    requires
        nodes_view(a) == nodes_view(b),
    ensures
        a.len() == b.len(),
        forall|k: int| 0 <= k < a.len() ==> node_view(#[trigger] a[k]) == node_view(b[k]),
{
    assert(nodes_view(a).len() == a.len());
    assert(nodes_view(b).len() == b.len());
    assert forall|k: int| 0 <= k < a.len() implies node_view(#[trigger] a[k]) == node_view(b[k]) by {
        assert(nodes_view(a)[k] == nodes_view(b)[k]);
    }
}

} // verus!
