//! Kademlia routing: 256-bit node ids, the XOR metric, k-buckets, signed
//! stored values, and the decisions a node takes on each message.
use vstd::prelude::*;
use crate::bytes;
use crate::primitives;
use crate::webrtc::ice::{AddrView, IpAddress, PeerAddr};

verus! {

/// ID space width in bits.
pub const ID_BITS: usize = 256;
/// Bucket size.
pub const K: usize = 8;
/// Parallel queries per lookup round.
pub const ALPHA: usize = 3;
/// Lookup rounds before giving up.
pub const MAX_ROUNDS: usize = 6;
/// Seconds a stored value stays fresh.
pub const VALUE_TTL_SECS: i64 = 300;

/// A 256-bit node or key identifier.
#[derive(Debug, Clone, Copy, PartialEq, Eq, Hash)]
pub struct NodeId(pub [u8; 32]);

/// XOR distance, ordered as a big-endian number.
#[derive(Debug, Clone, Copy, PartialEq, Eq, PartialOrd, Ord)]
pub struct Distance(pub [u8; 32]);

/// The XOR distance between two ids.
pub open spec fn spec_distance(a: Seq<u8>, b: Seq<u8>) -> Seq<u8> {
    bytes::xor_bytes(a, b)
}

/// Strict lexicographic order of byte strings of equal length.
pub open spec fn lex_lt(a: Seq<u8>, b: Seq<u8>) -> bool
    decreases a.len(),
{
    if a.len() == 0 || b.len() == 0 {
        false
    } else if a[0] != b[0] {
        a[0] < b[0]
    } else {
        lex_lt(a.drop_first(), b.drop_first())
    }
}

impl NodeId {
    /// Hash arbitrary bytes into a node id.
    pub fn from_sha256(data: &[u8]) -> (r: Self)
        ensures
            r.0@ == primitives::sha256_digest(data@),
    {
        NodeId(crate::webrtc::ice::sha256(data))
    }

    /// Node id derived from an identity's ed25519 public key.
    pub fn from_pubkey(pubkey: &[u8; 32]) -> (r: Self)
        ensures
            r.0@ == primitives::sha256_digest(pubkey@),
    {
        Self::from_sha256(pubkey)
    }

    /// A random id, used before an identity is provisioned.
    pub fn random() -> (r: Self)
    {
        NodeId(primitives::random_bytes32())
    }

    /// XOR distance to another id.
    pub fn distance(&self, other: &NodeId) -> (d: Distance)
        ensures
            d.0@ == spec_distance(self.0@, other.0@),
    {
        let mut d = [0u8; 32];
        let mut i: usize = 0;
        while i < 32
            invariant
                i <= 32,
                forall|j: int| 0 <= j < i ==> d@[j] == self.0@[j] ^ other.0@[j],
            decreases 32 - i,
        {
            d[i] = self.0[i] ^ other.0[i];
            i = i + 1;
        }
        assert(d@ =~= spec_distance(self.0@, other.0@));
        Distance(d)
    }

    /// Whether two ids are equal.
    pub fn same(&self, other: &NodeId) -> (r: bool)
        ensures
            r == (self.0@ == other.0@),
    {
        bytes::constant_time_eq(&self.0, &other.0)
    }
}

impl Distance {
    /// Whether this distance is smaller than `other`.
    pub fn less_than(&self, other: &Distance) -> (r: bool)
        ensures
            r == lex_lt(self.0@, other.0@),
    {
        let mut i: usize = 0;
        assert(self.0@.skip(0) =~= self.0@ && other.0@.skip(0) =~= other.0@);
        while i < 32 && self.0[i] == other.0[i]
            invariant
                i <= 32,
                lex_lt(self.0@, other.0@) == lex_lt(self.0@.skip(i as int), other.0@.skip(i as int)),
            decreases 32 - i,
        {
            assert(self.0@.skip(i as int).drop_first() =~= self.0@.skip(i + 1));
            assert(other.0@.skip(i as int).drop_first() =~= other.0@.skip(i + 1));
            i = i + 1;
        }
        if i == 32 {
            false
        } else {
            assert(self.0@.skip(i as int)[0] == self.0@[i as int]);
            assert(other.0@.skip(i as int)[0] == other.0@[i as int]);
            self.0[i] < other.0[i]
        }
    }
}

/// The XOR metric is symmetric and zero exactly from an id to itself.
pub proof fn lemma_distance_metric(a: Seq<u8>, b: Seq<u8>)
    requires
        a.len() == 32,
        b.len() == 32,
    ensures
        spec_distance(a, b) == spec_distance(b, a),
        spec_distance(a, a) == bytes::zeros(32),
        spec_distance(a, b) == bytes::zeros(32) ==> a == b,
{
    assert forall|i: int| 0 <= i < 32 implies a[i] ^ b[i] == b[i] ^ a[i] && a[i] ^ a[i] == 0
        && (a[i] ^ b[i] == 0 ==> a[i] == b[i]) by {
        let x = a[i];
        let y = b[i];
        assert(x ^ y == y ^ x && x ^ x == 0 && (x ^ y == 0 ==> x == y)) by (bit_vector);
    }
    assert(spec_distance(a, b) =~= spec_distance(b, a));
    assert(spec_distance(a, a) =~= bytes::zeros(32));
    if spec_distance(a, b) == bytes::zeros(32) {
        assert forall|i: int| 0 <= i < 32 implies a[i] == b[i] by {
            assert(spec_distance(a, b)[i] == 0);
        }
        assert(a =~= b);
    }
}

/// A reachable node.
#[derive(Debug, Clone, Copy, PartialEq, Eq)]
pub struct Contact {
    pub id: NodeId,
    pub addr: PeerAddr,
}

/// A signed, time-stamped value.
#[derive(Debug, Clone)]
pub struct StoredValue {
    pub key: NodeId,
    pub value: Vec<u8>,
    /// Ed25519 public key of the signer.
    pub pubkey: [u8; 32],
    pub signature: Vec<u8>,
    pub timestamp: i64,
}

/// The bytes a stored value's signature covers: key, value, and the
/// timestamp as a little-endian 64-bit value.
pub open spec fn spec_sign_payload(key: Seq<u8>, value: Seq<u8>, timestamp: i64) -> Seq<u8> {
    key + value + bytes::le64(timestamp as u64)
}

fn sign_payload(key: &NodeId, value: &[u8], timestamp: i64) -> (out: Vec<u8>)
    ensures
        out@ == spec_sign_payload(key.0@, value@, timestamp),
{
    let mut buf: Vec<u8> = Vec::new();
    bytes::push_all(&mut buf, &key.0);
    bytes::push_all(&mut buf, value);
    bytes::push_le64(&mut buf, timestamp as u64);
    buf
}

/// Whether a stored value carries a valid signature by its own key.
pub open spec fn spec_value_verifies(v: StoredValueView) -> bool {
    v.signature.len() == 64 && primitives::ed25519_accepts(v.pubkey, spec_sign_payload(v.key, v.value, v.timestamp), v.signature)
}

impl StoredValue {
    /// A value signed with the Ed25519 secret key `signing_key` at time `now`.
    pub fn new(key: NodeId, value: Vec<u8>, signing_key: &[u8; 32], now: i64) -> (r: Self)
        ensures
            r.key.0@ == key.0@,
            r.value@ == value@,
            r.pubkey@ == primitives::ed25519_public_key(signing_key@),
            r.signature@ == primitives::ed25519_signature(signing_key@, spec_sign_payload(key.0@, value@, now)),
            r.timestamp == now,
            r.signature@.len() == 64,
    {
        let payload = sign_payload(&key, value.as_slice(), now);
        let sig = primitives::ed25519_sign(signing_key, payload.as_slice());
        let mut signature: Vec<u8> = Vec::new();
        bytes::push_all(&mut signature, &sig);
        StoredValue { key, value, pubkey: primitives::ed25519_public(signing_key), signature, timestamp: now }
    }

    /// Verify the embedded signature against the embedded public key with
    /// the strict Ed25519 check.
    pub fn verify(&self) -> (ok: bool)
        ensures
            ok == spec_value_verifies(self@),
    {
        if self.signature.len() != 64 {
            return false;
        }
        let mut sig = [0u8; 64];
        let mut i: usize = 0;
        while i < 64
            invariant
                i <= 64,
                self.signature@.len() == 64,
                forall|j: int| 0 <= j < i ==> sig@[j] == self.signature@[j],
            decreases 64 - i,
        {
            sig[i] = self.signature[i];
            i = i + 1;
        }
        assert(sig@ =~= self.signature@);
        let payload = sign_payload(&self.key, self.value.as_slice(), self.timestamp);
        primitives::ed25519_verify_strict(&self.pubkey, payload.as_slice(), &sig)
    }
}


/// `lex_lt` is irreflexive.
pub proof fn lemma_lex_lt_irreflexive(a: Seq<u8>)
    ensures
        !lex_lt(a, a),
    decreases a.len(),
{
    if a.len() > 0 {
        lemma_lex_lt_irreflexive(a.drop_first());
    }
}

/// `lex_lt` is transitive.
pub proof fn lemma_lex_lt_order(a: Seq<u8>, b: Seq<u8>, c: Seq<u8>)
    ensures
        lex_lt(a, b) && lex_lt(b, c) ==> lex_lt(a, c),
    decreases a.len(),
{
    if a.len() > 0 && b.len() > 0 && c.len() > 0 {
        lemma_lex_lt_order(a.drop_first(), b.drop_first(), c.drop_first());
    }
}

/// Distance from a contact's id to `target`.
pub open spec fn dist_key(c: Contact, target: Seq<u8>) -> Seq<u8> {
    spec_distance(c.id.0@, target)
}

/// Contacts ordered by non-decreasing distance to `target`.
pub open spec fn sorted_by_distance(s: Seq<Contact>, target: Seq<u8>) -> bool {
    forall|i: int, j: int| 0 <= i < j < s.len() ==> !lex_lt(#[trigger] dist_key(s[j], target), #[trigger] dist_key(s[i], target))
}

/// `r` holds the `k` (or all, if fewer) contacts of `all` nearest to
/// `target`, nearest first.
pub open spec fn is_closest(r: Seq<Contact>, all: Seq<Contact>, target: Seq<u8>, k: int) -> bool {
    &&& r.len() == (if all.len() < k { all.len() as int } else { k })
    &&& sorted_by_distance(r, target)
    &&& exists|rest: Seq<Contact>| {
        &&& (r + rest).to_multiset() == all.to_multiset()
        &&& forall|x: int, y: int| 0 <= x < r.len() && 0 <= y < rest.len()
            ==> !lex_lt(#[trigger] dist_key(rest[y], target), #[trigger] dist_key(r[x], target))
    }
}

/// Insert `c` after every contact no farther from `target` than it.
fn insert_by_distance(out: &mut Vec<Contact>, c: Contact, target: &NodeId)
    requires
        sorted_by_distance(old(out)@, target.0@),
    ensures
        sorted_by_distance(final(out)@, target.0@),
        final(out)@.to_multiset() == old(out)@.to_multiset().insert(c),
{
    broadcast use vstd::seq_lib::group_to_multiset_ensures;
    let dc = c.id.distance(target);
    let mut p: usize = 0;
    while p < out.len() && !dc.less_than(&out[p].id.distance(target))
        invariant
            p <= out@.len(),
            dc.0@ == dist_key(c, target.0@),
            forall|q: int| 0 <= q < p ==> !lex_lt(dist_key(c, target.0@), #[trigger] dist_key(out@[q], target.0@)),
        decreases out@.len() - p,
    {
        p = p + 1;
    }
    let ghost before = out@;
    let ghost t = target.0@;
    out.insert(p, c);
    proof {
        before.insert_ensures(p as int, c);
        assert forall|i: int, j: int| 0 <= i < j < out@.len() implies !lex_lt(#[trigger] dist_key(out@[j], t), #[trigger] dist_key(out@[i], t)) by {
            if j < p {
                assert(out@[i] == before[i] && out@[j] == before[j]);
            } else if j == p {
                assert(out@[i] == before[i]);
            } else if i == p {
                assert(out@[j] == before[j - 1]);
                assert(lex_lt(dist_key(c, t), dist_key(before[p as int], t)));
                if p < j - 1 {
                    assert(!lex_lt(dist_key(before[j - 1], t), dist_key(before[p as int], t)));
                }
                lemma_lex_lt_irreflexive(dist_key(before[p as int], t));
                lemma_lex_lt_order(dist_key(before[j - 1], t), dist_key(c, t), dist_key(before[p as int], t));
            } else if i < p {
                assert(out@[i] == before[i] && out@[j] == before[j - 1]);
            } else {
                assert(out@[i] == before[i - 1] && out@[j] == before[j - 1]);
            }
        }
    }
}

/// Sort contacts by distance to `target` (stable) and keep the first `k`.
pub fn nearest(all: &Vec<Contact>, target: &NodeId, k: usize) -> (r: Vec<Contact>)
    ensures
        is_closest(r@, all@, target.0@, k as int),
{
    broadcast use vstd::seq_lib::group_to_multiset_ensures;
    let mut out: Vec<Contact> = Vec::new();
    let mut i: usize = 0;
    while i < all.len()
        invariant
            i <= all@.len(),
            sorted_by_distance(out@, target.0@),
            out@.to_multiset() == all@.take(i as int).to_multiset(),
        decreases all@.len() - i,
    {
        insert_by_distance(&mut out, all[i], target);
        assert(all@.take(i + 1) =~= all@.take(i as int).push(all@[i as int]));
        proof { vstd::seq_lib::to_multiset_build(all@.take(i as int), all@[i as int]); }
        i = i + 1;
    }
    assert(all@.take(all@.len() as int) =~= all@);
    let ghost full = out@;
    out.truncate(k);
    proof {
        vstd::seq_lib::to_multiset_len(full);
        vstd::seq_lib::to_multiset_len(all@);
        let rest = if k < full.len() { full.skip(k as int) } else { Seq::<Contact>::empty() };
        assert(out@ + rest =~= full);
        assert forall|x: int, y: int| 0 <= x < out@.len() && 0 <= y < rest.len()
            implies !lex_lt(#[trigger] dist_key(rest[y], target.0@), #[trigger] dist_key(out@[x], target.0@)) by {
            assert(rest[y] == full[k + y]);
            assert(out@[x] == full[x]);
        }
        assert(sorted_by_distance(out@, target.0@)) by {
            assert forall|a: int, b: int| 0 <= a < b < out@.len() implies !lex_lt(#[trigger] dist_key(out@[b], target.0@), #[trigger] dist_key(out@[a], target.0@)) by {
                assert(out@[a] == full[a] && out@[b] == full[b]);
            }
        }
    }
    out
}

/// First byte index at or after `i` where `a` and `b` differ, or 32.
pub open spec fn first_diff(a: Seq<u8>, b: Seq<u8>, i: int) -> int
    decreases 32 - i,
{
    if i >= 32 {
        32
    } else if a[i] != b[i] {
        i
    } else {
        first_diff(a, b, i + 1)
    }
}

/// The bucket for `other` as seen from `local`: 255 minus the position of
/// the highest differing bit, counted from the most significant bit; 255
/// when the ids are equal.
pub open spec fn spec_bucket_index(local: Seq<u8>, other: Seq<u8>) -> int {
    let i = first_diff(local, other, 0);
    if i >= 32 {
        255
    } else {
        255 - (i * 8 + ((local[i] ^ other[i]) as u8).leading_zeros())
    }
}

/// Ids in a bucket are pairwise distinct.
pub open spec fn distinct_ids(b: Seq<Contact>) -> bool {
    forall|i: int, j: int| 0 <= i < j < b.len() ==> (#[trigger] b[i]).id.0@ != (#[trigger] b[j]).id.0@
}

/// A bucket after `c` is seen: a known id moves to the back with its new
/// address; a new id is appended, evicting the least recently seen
/// contact (the front) when the bucket is full.
pub open spec fn bucket_after_insert(b: Seq<Contact>, c: Contact) -> Seq<Contact> {
    if exists|j: int| 0 <= j < b.len() && (#[trigger] b[j]).id.0@ == c.id.0@ {
        let j = choose|j: int| 0 <= j < b.len() && (#[trigger] b[j]).id.0@ == c.id.0@;
        b.remove(j).push(c)
    } else if b.len() < K {
        b.push(c)
    } else {
        b.drop_first().push(c)
    }
}

/// Whether bucket `b` holds a contact with the id of `c`.
pub open spec fn holds_id(b: Seq<Contact>, c: Contact) -> bool {
    exists|j: int| 0 <= j < b.len() && (#[trigger] b[j]).id.0@ == c.id.0@
}

/// Seeing a contact keeps a bucket within `K` contacts with distinct ids;
/// the contact ends up last (most recently seen); the bucket's other
/// contacts are its earlier ones without that id, in order; every earlier
/// contact with another id stays, except that a full bucket without the id
/// evicts exactly its front (least recently seen) contact.
pub proof fn lemma_bucket_insert(b: Seq<Contact>, c: Contact)
    requires
        b.len() <= K,
        distinct_ids(b),
    ensures
        ({
            let r = bucket_after_insert(b, c);
            &&& r.len() <= K
            &&& distinct_ids(r)
            &&& r.len() > 0 && r.last() == c
            &&& forall|i: int| 0 <= i < r.len() - 1 ==> b.contains(#[trigger] r[i]) && r[i].id.0@ != c.id.0@
            &&& forall|i: int| 0 <= i < b.len() && (#[trigger] b[i]).id.0@ != c.id.0@
                && !(i == 0 && b.len() == K && !holds_id(b, c)) ==> r.contains(b[i])
            &&& b.len() == K && !holds_id(b, c) ==> r == b.drop_first().push(c)
        }),
{
    let r = bucket_after_insert(b, c);
    if holds_id(b, c) {
        let j = choose|j: int| 0 <= j < b.len() && (#[trigger] b[j]).id.0@ == c.id.0@;
        let m = b.remove(j);
        assert(r == m.push(c));
        assert forall|k: int| 0 <= k < m.len() implies #[trigger] m[k] == b[if k < j { k } else { k + 1 }] by {}
        assert forall|i: int| 0 <= i < r.len() - 1 implies b.contains(#[trigger] r[i]) && r[i].id.0@ != c.id.0@ by {
            let ii = if i < j { i } else { i + 1 };
            assert(r[i] == m[i] && m[i] == b[ii]);
            if ii < j { assert(b[ii].id.0@ != b[j].id.0@); } else { assert(b[j].id.0@ != b[ii].id.0@); }
        }
        assert forall|i: int| 0 <= i < b.len() && (#[trigger] b[i]).id.0@ != c.id.0@
            && !(i == 0 && b.len() == K && !holds_id(b, c)) implies r.contains(b[i]) by {
            assert(i != j);
            let k = if i < j { i } else { i - 1 };
            assert(m[k] == b[i]);
            assert(r[k] == b[i]);
        }
        assert forall|p: int, q: int| 0 <= p < q < r.len() implies (#[trigger] r[p]).id.0@ != (#[trigger] r[q]).id.0@ by {
            let pp = if p < j { p } else { p + 1 };
            assert(r[p] == b[pp]);
            if q == r.len() - 1 {
                if pp < j { assert(b[pp].id.0@ != b[j].id.0@); } else { assert(b[j].id.0@ != b[pp].id.0@); }
            } else {
                let qq = if q < j { q } else { q + 1 };
                assert(r[q] == b[qq]);
            }
        }
    } else if b.len() < K {
        assert(r == b.push(c));
        assert forall|i: int| 0 <= i < r.len() - 1 implies b.contains(#[trigger] r[i]) && r[i].id.0@ != c.id.0@ by {
            assert(r[i] == b[i]);
        }
        assert forall|i: int| 0 <= i < b.len() && (#[trigger] b[i]).id.0@ != c.id.0@
            && !(i == 0 && b.len() == K && !holds_id(b, c)) implies r.contains(b[i]) by {
            assert(r[i] == b[i]);
        }
        assert forall|p: int, q: int| 0 <= p < q < r.len() implies (#[trigger] r[p]).id.0@ != (#[trigger] r[q]).id.0@ by {
            assert(r[p] == b[p]);
            if q < b.len() { assert(r[q] == b[q]); }
        }
    } else {
        let d = b.drop_first();
        assert(r == d.push(c));
        assert forall|i: int| 0 <= i < r.len() - 1 implies b.contains(#[trigger] r[i]) && r[i].id.0@ != c.id.0@ by {
            assert(r[i] == b[i + 1]);
        }
        assert forall|i: int| 0 <= i < b.len() && (#[trigger] b[i]).id.0@ != c.id.0@
            && !(i == 0 && b.len() == K && !holds_id(b, c)) implies r.contains(b[i]) by {
            assert(r[i - 1] == b[i]);
        }
        assert forall|p: int, q: int| 0 <= p < q < r.len() implies (#[trigger] r[p]).id.0@ != (#[trigger] r[q]).id.0@ by {
            assert(r[p] == b[p + 1]);
            if q < r.len() - 1 { assert(r[q] == b[q + 1]); }
        }
    }
}

/// Kademlia routing table: 256 k-buckets.
pub struct RoutingTable {
    buckets: Vec<Vec<Contact>>,
}

impl View for RoutingTable {
    type V = Seq<Seq<Contact>>;

    closed spec fn view(&self) -> Seq<Seq<Contact>> {
        Seq::new(self.buckets@.len(), |i: int| self.buckets@[i]@)
    }
}

impl RoutingTable {
    /// Exactly 256 buckets, each with at most `K` contacts of distinct ids.
    pub closed spec fn wf(self) -> bool {
        &&& self.buckets@.len() == ID_BITS
        &&& forall|i: int| 0 <= i < self.buckets@.len() ==> (#[trigger] self.buckets@[i])@.len() <= K
        &&& forall|i: int| 0 <= i < self.buckets@.len() ==> distinct_ids((#[trigger] self.buckets@[i])@)
    }

    /// Every contact the table holds, bucket by bucket.
    pub open spec fn contacts(&self) -> Seq<Contact> {
        self@.flatten()
    }

    /// An empty table.
    pub fn new() -> (r: Self)
        ensures
            r.wf(),
            r@ == Seq::new(256, |i: int| Seq::<Contact>::empty()),
    {
        let mut buckets: Vec<Vec<Contact>> = Vec::new();
        let mut i: usize = 0;
        while i < ID_BITS
            invariant
                i <= ID_BITS,
                buckets@.len() == i,
                forall|j: int| 0 <= j < i ==> (#[trigger] buckets@[j])@.len() == 0,
            decreases ID_BITS - i,
        {
            buckets.push(Vec::new());
            i = i + 1;
        }
        let r = RoutingTable { buckets };
        assert forall|j: int| 0 <= j < 256 implies r@[j] =~= Seq::<Contact>::empty() by {
            assert(r.buckets@[j]@.len() == 0);
        }
        assert(r@ =~= Seq::new(256, |i: int| Seq::<Contact>::empty()));
        r
    }

    /// Forget every contact.
    pub fn clear(&mut self)
        requires
            old(self).wf(),
        ensures
            final(self).wf(),
            final(self)@ == Seq::new(256, |i: int| Seq::<Contact>::empty()),
    {
        let mut i: usize = 0;
        while i < ID_BITS
            invariant
                i <= ID_BITS,
                self.buckets@.len() == ID_BITS,
                forall|j: int| 0 <= j < i ==> (#[trigger] self.buckets@[j])@.len() == 0,
                forall|j: int| 0 <= j < self.buckets@.len() ==> (#[trigger] self.buckets@[j])@.len() <= K,
                forall|j: int| 0 <= j < self.buckets@.len() ==> distinct_ids((#[trigger] self.buckets@[j])@),
            decreases ID_BITS - i,
        {
            let mut empty: Vec<Contact> = Vec::new();
            self.buckets.set_and_swap(i, &mut empty);
            i = i + 1;
        }
        assert forall|j: int| 0 <= j < 256 implies self@[j] =~= Seq::<Contact>::empty() by {
            assert(self.buckets@[j]@.len() == 0);
        }
        assert(self@ =~= Seq::new(256, |i: int| Seq::<Contact>::empty()));
    }

    /// Index of the bucket that holds `other` as seen from `local`.
    pub fn bucket_index(&self, local: &NodeId, other: &NodeId) -> (r: usize)
        ensures
            r == spec_bucket_index(local.0@, other.0@),
            r < ID_BITS,
    {
        broadcast use vstd::std_specs::bits::axiom_u8_leading_zeros;
        let mut i: usize = 0;
        while i < 32
            invariant
                i <= 32,
                first_diff(local.0@, other.0@, 0) == first_diff(local.0@, other.0@, i as int),
            decreases 32 - i,
        {
            let x = local.0[i];
            let y = other.0[i];
            let diff = x ^ y;
            assert((diff != 0) == (x != y)) by (bit_vector)
                requires
                    diff == x ^ y,
            ;
            if diff != 0 {
                let leading = diff.leading_zeros() as usize;
                return ID_BITS - 1 - (i * 8 + leading);
            }
            i = i + 1;
        }
        ID_BITS - 1
    }

    /// Record that `contact` was seen, in the bucket that `local` assigns it
    /// (see `bucket_after_insert`); every other bucket is unchanged.
    pub fn insert(&mut self, local: &NodeId, contact: Contact)
        requires
            old(self).wf(),
        ensures
            final(self).wf(),
            final(self)@ == old(self)@.update(
                spec_bucket_index(local.0@, contact.id.0@),
                bucket_after_insert(old(self)@[spec_bucket_index(local.0@, contact.id.0@)], contact),
            ),
    {
        let bi = self.bucket_index(local, &contact.id);
        let ghost old_buckets = self.buckets@;
        let mut bucket: Vec<Contact> = Vec::new();
        self.buckets.set_and_swap(bi, &mut bucket);
        let ghost b0 = bucket@;
        assert(b0 == old_buckets[bi as int]@);
        match position_of_id(&bucket, &contact.id) {
            Some(j) => {
                proof {
                    let jj = choose|q: int| 0 <= q < b0.len() && (#[trigger] b0[q]).id.0@ == contact.id.0@;
                    assert(b0[j as int].id.0@ == contact.id.0@);
                    if jj != j {
                        if jj < j {
                            assert(b0[jj].id.0@ != b0[j as int].id.0@);
                        } else {
                            assert(b0[j as int].id.0@ != b0[jj].id.0@);
                        }
                    }
                }
                bucket.remove(j);
                bucket.push(contact);
                proof {
                    b0.remove_ensures(j as int);
                    assert forall|p: int, q: int| 0 <= p < q < bucket@.len() implies (#[trigger] bucket@[p]).id.0@ != (#[trigger] bucket@[q]).id.0@ by {
                        let pp = if p < j { p } else { p + 1 };
                        if q == bucket@.len() - 1 {
                            assert(bucket@[p] == b0[pp]);
                            if pp < j {
                                assert(b0[pp].id.0@ != b0[j as int].id.0@);
                            } else {
                                assert(b0[j as int].id.0@ != b0[pp].id.0@);
                            }
                        } else {
                            let qq = if q < j { q } else { q + 1 };
                            assert(bucket@[p] == b0[pp] && bucket@[q] == b0[qq]);
                        }
                    }
                }
            },
            None => {
                if bucket.len() < K {
                    bucket.push(contact);
                } else {
                    bucket.remove(0);
                    bucket.push(contact);
                    proof {
                        assert(b0.remove(0) =~= b0.drop_first());
                    }
                }
                proof {
                    assert forall|p: int, q: int| 0 <= p < q < bucket@.len() implies (#[trigger] bucket@[p]).id.0@ != (#[trigger] bucket@[q]).id.0@ by {
                        if b0.len() < K {
                            assert(bucket@[p] == b0[p]);
                            if q < b0.len() {
                                assert(bucket@[q] == b0[q]);
                            }
                        } else {
                            assert(bucket@[p] == b0[p + 1]);
                            if q < bucket@.len() - 1 {
                                assert(bucket@[q] == b0[q + 1]);
                            }
                        }
                    }
                }
            },
        }
        let ghost nb = bucket@;
        self.buckets.set_and_swap(bi, &mut bucket);
        proof {
            assert(nb == bucket_after_insert(b0, contact));
            assert forall|i: int| 0 <= i < self.buckets@.len() implies (#[trigger] self.buckets@[i])@.len() <= K && distinct_ids(self.buckets@[i]@) by {
                if i != bi {
                    assert(self.buckets@[i] == old_buckets[i]);
                }
            }
            assert(self@ =~= old(self)@.update(bi as int, nb));
        }
    }

    /// The up-to-`k` contacts closest to `target`, nearest first.
    pub fn closest(&self, target: &NodeId, k: usize) -> (r: Vec<Contact>)
        ensures
            is_closest(r@, self.contacts(), target.0@, k as int),
    {
        let mut all: Vec<Contact> = Vec::new();
        let mut b: usize = 0;
        while b < self.buckets.len()
            invariant
                b <= self.buckets@.len(),
                all@ == self@.take(b as int).flatten(),
            decreases self.buckets@.len() - b,
        {
            let bucket = &self.buckets[b];
            let mut j: usize = 0;
            while j < bucket.len()
                invariant
                    j <= bucket@.len(),
                    b < self.buckets@.len(),
                    bucket == self.buckets@[b as int],
                    all@ == self@.take(b as int).flatten() + bucket@.take(j as int),
                decreases bucket@.len() - j,
            {
                all.push(bucket[j]);
                assert(bucket@.take(j + 1) =~= bucket@.take(j as int).push(bucket@[j as int]));
                j = j + 1;
            }
            proof {
                assert(bucket@.take(j as int) =~= bucket@);
                assert(self@.take(b + 1) =~= self@.take(b as int).push(self@[b as int]));
                self@.take(b as int).lemma_flatten_push(self@[b as int]);
            }
            b = b + 1;
        }
        assert(self@.take(b as int) =~= self@);
        nearest(&all, target, k)
    }
}

/// Where a contact with id `id` sits in `bucket`, if anywhere.
fn position_of_id(bucket: &Vec<Contact>, id: &NodeId) -> (r: Option<usize>)
    ensures
        match r {
            Some(j) => j < bucket@.len() && bucket@[j as int].id.0@ == id.0@
                && forall|q: int| 0 <= q < j ==> (#[trigger] bucket@[q]).id.0@ != id.0@,
            None => forall|q: int| 0 <= q < bucket@.len() ==> (#[trigger] bucket@[q]).id.0@ != id.0@,
        },
{
    let mut j: usize = 0;
    while j < bucket.len()
        invariant
            j <= bucket@.len(),
            forall|q: int| 0 <= q < j ==> (#[trigger] bucket@[q]).id.0@ != id.0@,
        decreases bucket@.len() - j,
    {
        if bucket[j].id.same(id) {
            return Some(j);
        }
        j = j + 1;
    }
    None
}


/// Whether two addresses are the same.
pub fn same_addr(a: &PeerAddr, b: &PeerAddr) -> (r: bool)
    ensures
        r == (a@ == b@),
{
    if a.port != b.port {
        return false;
    }
    match (&a.ip, &b.ip) {
        (IpAddress::V4(x), IpAddress::V4(y)) => bytes::constant_time_eq(x, y),
        (IpAddress::V6(x), IpAddress::V6(y)) => bytes::constant_time_eq(x, y),
        _ => false,
    }
}

/// Abstract contact: id bytes and address.
pub open spec fn contact_view(c: Contact) -> (Seq<u8>, AddrView) {
    (c.id.0@, c.addr@)
}

/// Whether two contact lists hold the same contacts in the same order.
pub fn same_contacts(a: &Vec<Contact>, b: &Vec<Contact>) -> (r: bool)
    ensures
        r == (a@.map_values(|c: Contact| contact_view(c)) == b@.map_values(|c: Contact| contact_view(c))),
{
    let ghost va = a@.map_values(|c: Contact| contact_view(c));
    let ghost vb = b@.map_values(|c: Contact| contact_view(c));
    if a.len() != b.len() {
        assert(va.len() != vb.len());
        return false;
    }
    let mut i: usize = 0;
    while i < a.len()
        invariant
            i <= a@.len(),
            a@.len() == b@.len(),
            va == a@.map_values(|c: Contact| contact_view(c)),
            vb == b@.map_values(|c: Contact| contact_view(c)),
            forall|j: int| 0 <= j < i ==> va[j] == vb[j],
        decreases a@.len() - i,
    {
        if !a[i].id.same(&b[i].id) || !same_addr(&a[i].addr, &b[i].addr) {
            assert(va[i as int] != vb[i as int]);
            return false;
        }
        i = i + 1;
    }
    assert(va =~= vb);
    true
}

/// Abstract stored value.
pub struct StoredValueView {
    pub key: Seq<u8>,
    pub value: Seq<u8>,
    pub pubkey: Seq<u8>,
    pub signature: Seq<u8>,
    pub timestamp: i64,
}

impl View for StoredValue {
    type V = StoredValueView;

    open spec fn view(&self) -> StoredValueView {
        StoredValueView {
            key: self.key.0@,
            value: self.value@,
            pubkey: self.pubkey@,
            signature: self.signature@,
            timestamp: self.timestamp,
        }
    }
}

impl StoredValue {
    /// A copy of this value.
    pub fn copy(&self) -> (r: Self)
        ensures
            r@ == self@,
    {
        let value = bytes::copy_range(&self.value, 0, self.value.len());
        let signature = bytes::copy_range(&self.signature, 0, self.signature.len());
        assert(value@ =~= self.value@);
        assert(signature@ =~= self.signature@);
        StoredValue { key: self.key, value, pubkey: self.pubkey, signature, timestamp: self.timestamp }
    }
}

/// Wire messages exchanged between nodes.
#[derive(Debug, Clone)]
pub enum Message {
    Ping { request_id: u64, id: NodeId },
    Pong { request_id: u64, id: NodeId },
    FindNode { request_id: u64, id: NodeId, target: NodeId },
    FoundNodes { request_id: u64, id: NodeId, nodes: Vec<Contact> },
    Store { request_id: u64, id: NodeId, key: NodeId, value: StoredValue },
    StoreValue { request_id: u64, id: NodeId, key: NodeId, value: StoredValue },
}

/// The request id a message carries.
pub open spec fn spec_request_id(msg: Message) -> u64 {
    match msg {
        Message::Ping { request_id, .. } => request_id,
        Message::Pong { request_id, .. } => request_id,
        Message::FindNode { request_id, .. } => request_id,
        Message::FoundNodes { request_id, .. } => request_id,
        Message::Store { request_id, .. } => request_id,
        Message::StoreValue { request_id, .. } => request_id,
    }
}

/// Whether a datagram answers the request with id `request_id`: replies
/// are matched to their request by the id they echo alone; any other
/// datagram is served as a request of its own.
pub fn answers_request(request_id: u64, msg: &Message) -> (r: bool)
    ensures
        r == (spec_request_id(*msg) == request_id),
{
    msg_request_id(msg) == request_id
}

/// The request id a message carries; replies echo the id of their request.
pub fn msg_request_id(msg: &Message) -> (r: u64)
    ensures
        r == spec_request_id(*msg),
{
    match msg {
        Message::Ping { request_id, .. } => *request_id,
        Message::Pong { request_id, .. } => *request_id,
        Message::FindNode { request_id, .. } => *request_id,
        Message::FoundNodes { request_id, .. } => *request_id,
        Message::Store { request_id, .. } => *request_id,
        Message::StoreValue { request_id, .. } => *request_id,
    }
}

/// The values stored under one key.
pub struct StoreEntry {
    pub key: NodeId,
    pub values: Vec<StoredValue>,
}

/// The values stored under `key`, oldest first.
pub open spec fn values_at(entries: Seq<StoreEntry>, key: Seq<u8>) -> Seq<StoredValueView> {
    if exists|i: int| 0 <= i < entries.len() && (#[trigger] entries[i]).key.0@ == key {
        let i = choose|i: int| 0 <= i < entries.len() && (#[trigger] entries[i]).key.0@ == key;
        entries[i].values@.map_values(|v: StoredValue| v@)
    } else {
        Seq::empty()
    }
}

/// Keys occur at most once in the store.
pub open spec fn distinct_keys(entries: Seq<StoreEntry>) -> bool {
    forall|i: int, j: int| 0 <= i < j < entries.len() ==> (#[trigger] entries[i]).key.0@ != (#[trigger] entries[j]).key.0@
}

/// The values under a key after `value` is put there: appended unless a
/// value with the same bytes is already held.
pub open spec fn values_after_put(vs: Seq<StoredValueView>, value: StoredValueView) -> Seq<StoredValueView> {
    if exists|i: int| 0 <= i < vs.len() && (#[trigger] vs[i]).value == value.value {
        vs
    } else {
        vs.push(value)
    }
}

/// Whether a value with the bytes of `value` is among `vs`.
pub open spec fn holds_bytes(vs: Seq<StoredValueView>, value: StoredValueView) -> bool {
    exists|i: int| 0 <= i < vs.len() && (#[trigger] vs[i]).value == value.value
}

/// A put value can be read back and never displaces another: after it,
/// some value under the key holds its bytes; every value held before is
/// still held, in its place; the list grows by exactly the new value when
/// its bytes were not held, and is unchanged when they were; putting the
/// same value again changes nothing.
pub proof fn lemma_put_then_held(vs: Seq<StoredValueView>, value: StoredValueView)
    ensures
        values_after_put(vs, value).len() > 0,
        holds_bytes(values_after_put(vs, value), value),
        vs.len() <= values_after_put(vs, value).len() <= vs.len() + 1,
        forall|i: int| 0 <= i < vs.len() ==> #[trigger] values_after_put(vs, value)[i] == vs[i],
        !holds_bytes(vs, value) ==> values_after_put(vs, value) == vs.push(value),
        holds_bytes(vs, value) ==> values_after_put(vs, value) == vs,
        values_after_put(values_after_put(vs, value), value) == values_after_put(vs, value),
{
    let after = values_after_put(vs, value);
    if holds_bytes(vs, value) {
        let i = choose|i: int| 0 <= i < vs.len() && (#[trigger] vs[i]).value == value.value;
        assert(after[i].value == value.value);
    } else {
        assert(after[vs.len() as int].value == value.value);
    }
}

/// The routing table after `c` is seen from `local`.
pub open spec fn table_after_learn(t: Seq<Seq<Contact>>, local: Seq<u8>, c: Contact) -> Seq<Seq<Contact>> {
    t.update(spec_bucket_index(local, c.id.0@), bucket_after_insert(t[spec_bucket_index(local, c.id.0@)], c))
}

/// The routing table after each of `cs` is seen in turn.
pub open spec fn table_after_learn_all(t: Seq<Seq<Contact>>, local: Seq<u8>, cs: Seq<Contact>) -> Seq<Seq<Contact>>
    decreases cs.len(),
{
    if cs.len() == 0 {
        t
    } else {
        table_after_learn(table_after_learn_all(t, local, cs.drop_last()), local, cs.last())
    }
}

/// Whether a value stored at time `ts` is still fresh at time `now`.
pub open spec fn is_fresh(ts: i64, now: i64) -> bool {
    now - ts <= VALUE_TTL_SECS
}

/// The state a Kademlia node keeps: its id, routing table, stored values,
/// request counter and bootstrap addresses.
pub struct NodeInner {
    id: NodeId,
    table: RoutingTable,
    store: Vec<StoreEntry>,
    next_request_id: u64,
    bootstrap: Vec<PeerAddr>,
}

impl NodeInner {
    /// The node's invariant.
    pub closed spec fn wf(&self) -> bool {
        &&& self.table.wf()
        &&& distinct_keys(self.store@)
    }

    /// The node's id.
    pub closed spec fn spec_id(&self) -> Seq<u8> {
        self.id.0@
    }

    /// The routing table's buckets.
    pub closed spec fn table_view(&self) -> Seq<Seq<Contact>> {
        self.table@
    }

    /// Every contact in the routing table.
    pub closed spec fn contacts(&self) -> Seq<Contact> {
        self.table.contacts()
    }

    /// The values held under `key`.
    pub closed spec fn stored(&self, key: Seq<u8>) -> Seq<StoredValueView> {
        values_at(self.store@, key)
    }

    /// The next request id to hand out.
    pub closed spec fn spec_next_request_id(&self) -> u64 {
        self.next_request_id
    }

    /// The configured bootstrap addresses.
    pub closed spec fn spec_bootstrap(&self) -> Seq<PeerAddr> {
        self.bootstrap@
    }

    /// A node with an empty table and store; request ids start at 1.
    pub fn new(id: NodeId, bootstrap: Vec<PeerAddr>) -> (r: Self)
        ensures
            r.wf(),
            r.spec_id() == id.0@,
            r.table_view() == Seq::new(256, |i: int| Seq::<Contact>::empty()),
            forall|k: Seq<u8>| r.stored(k) == Seq::<StoredValueView>::empty(),
            r.spec_next_request_id() == 1,
            r.spec_bootstrap() == bootstrap@,
    {
        NodeInner { id, table: RoutingTable::new(), store: Vec::new(), next_request_id: 1, bootstrap }
    }

    /// The node's current id.
    pub fn current_id(&self) -> (r: NodeId)
        ensures
            r.0@ == self.spec_id(),
    {
        self.id
    }

    /// The bootstrap addresses.
    pub fn bootstrap_addrs(&self) -> (r: Vec<PeerAddr>)
        ensures
            r@ == self.spec_bootstrap(),
    {
        let mut r: Vec<PeerAddr> = Vec::new();
        let mut i: usize = 0;
        while i < self.bootstrap.len()
            invariant
                i <= self.bootstrap@.len(),
                r@ == self.bootstrap@.take(i as int),
            decreases self.bootstrap@.len() - i,
        {
            r.push(self.bootstrap[i]);
            assert(self.bootstrap@.take(i + 1) =~= self.bootstrap@.take(i as int).push(self.bootstrap@[i as int]));
            i = i + 1;
        }
        assert(self.bootstrap@.take(i as int) =~= self.bootstrap@);
        r
    }

    /// Hand out a fresh request id (wrapping at the top of the range).
    pub fn next_request_id(&mut self) -> (r: u64)
        ensures
            r == old(self).spec_next_request_id(),
            final(self).spec_next_request_id() == r.wrapping_add(1),
            final(self).spec_id() == old(self).spec_id(),
            final(self).table_view() == old(self).table_view(),
            forall|k: Seq<u8>| final(self).stored(k) == old(self).stored(k),
            final(self).spec_bootstrap() == old(self).spec_bootstrap(),
            old(self).wf() ==> final(self).wf(),
    {
        let r = self.next_request_id;
        self.next_request_id = r.wrapping_add(1);
        r
    }

    /// Re-key the node to a stable identity id and forget routing state.
    pub fn set_id(&mut self, id: NodeId)
        requires
            old(self).wf(),
        ensures
            final(self).wf(),
            final(self).spec_id() == id.0@,
            final(self).table_view() == Seq::new(256, |i: int| Seq::<Contact>::empty()),
            forall|k: Seq<u8>| final(self).stored(k) == old(self).stored(k),
            final(self).spec_next_request_id() == old(self).spec_next_request_id(),
            final(self).spec_bootstrap() == old(self).spec_bootstrap(),
    {
        self.id = id;
        self.table.clear();
    }

    /// Record that `contact` was seen.
    pub fn learn(&mut self, contact: Contact)
        requires
            old(self).wf(),
        ensures
            final(self).wf(),
            final(self).table_view() == table_after_learn(old(self).table_view(), old(self).spec_id(), contact),
            final(self).spec_id() == old(self).spec_id(),
            forall|k: Seq<u8>| final(self).stored(k) == old(self).stored(k),
            final(self).spec_next_request_id() == old(self).spec_next_request_id(),
            final(self).spec_bootstrap() == old(self).spec_bootstrap(),
    {
        let local = self.id;
        self.table.insert(&local, contact);
    }

    /// The `K` known contacts closest to `target`.
    pub fn closest(&self, target: &NodeId) -> (r: Vec<Contact>)
        ensures
            is_closest(r@, self.contacts(), target.0@, K as int),
    {
        self.table.closest(target, K)
    }

    /// Where `key` sits in the store, if it is there.
    fn entry_index(&self, key: &NodeId) -> (r: Option<usize>)
        requires
            self.wf(),
        ensures
            match r {
                Some(i) => i < self.store@.len() && self.store@[i as int].key.0@ == key.0@
                    && self.stored(key.0@) == self.store@[i as int].values@.map_values(|v: StoredValue| v@),
                None => forall|i: int| 0 <= i < self.store@.len() ==> (#[trigger] self.store@[i]).key.0@ != key.0@,
            },
            r is None ==> self.stored(key.0@) == Seq::<StoredValueView>::empty(),
    {
        let mut i: usize = 0;
        while i < self.store.len()
            invariant
                i <= self.store@.len(),
                distinct_keys(self.store@),
                forall|j: int| 0 <= j < i ==> (#[trigger] self.store@[j]).key.0@ != key.0@,
            decreases self.store@.len() - i,
        {
            if self.store[i].key.same(key) {
                proof {
                    let c = choose|j: int| 0 <= j < self.store@.len() && (#[trigger] self.store@[j]).key.0@ == key.0@;
                    if c != i {
                        if c < i {
                            assert(self.store@[c].key.0@ != self.store@[i as int].key.0@);
                        } else {
                            assert(self.store@[i as int].key.0@ != self.store@[c].key.0@);
                        }
                    }
                }
                return Some(i);
            }
            i = i + 1;
        }
        None
    }

    /// Store `value` under `key` unless a value with the same bytes is
    /// already held there.
    pub fn put_value(&mut self, key: NodeId, value: StoredValue)
        requires
            old(self).wf(),
        ensures
            final(self).wf(),
            final(self).stored(key.0@) == values_after_put(old(self).stored(key.0@), value@),
            holds_bytes(final(self).stored(key.0@), value@),
            old(self).stored(key.0@).len() <= final(self).stored(key.0@).len() <= old(self).stored(key.0@).len() + 1,
            forall|i: int| 0 <= i < old(self).stored(key.0@).len()
                ==> #[trigger] final(self).stored(key.0@)[i] == old(self).stored(key.0@)[i],
            !holds_bytes(old(self).stored(key.0@), value@) ==> final(self).stored(key.0@) == old(self).stored(key.0@).push(value@),
            holds_bytes(old(self).stored(key.0@), value@) ==> final(self).stored(key.0@) == old(self).stored(key.0@),
            forall|k: Seq<u8>| k != key.0@ ==> final(self).stored(k) == old(self).stored(k),
            final(self).spec_id() == old(self).spec_id(),
            final(self).table_view() == old(self).table_view(),
            final(self).spec_next_request_id() == old(self).spec_next_request_id(),
            final(self).spec_bootstrap() == old(self).spec_bootstrap(),
    {
        let ghost old_store = self.store@;
        let ghost vv = value@;
        let ghost kb = key.0@;
        proof { lemma_put_then_held(values_at(old_store, kb), vv); }
        match self.entry_index(&key) {
            None => {
                let mut values: Vec<StoredValue> = Vec::new();
                values.push(value);
                self.store.push(StoreEntry { key, values });
                proof {
                    let ns = self.store@;
                    assert(ns[old_store.len() as int].key.0@ == key.0@);
                    assert forall|k: Seq<u8>| k != key.0@ implies values_at(ns, k) == values_at(old_store, k) by {
                        if exists|i: int| 0 <= i < ns.len() && (#[trigger] ns[i]).key.0@ == k {
                            let i = choose|i: int| 0 <= i < ns.len() && (#[trigger] ns[i]).key.0@ == k;
                            assert(old_store[i].key.0@ == k);
                        }
                        if exists|i: int| 0 <= i < old_store.len() && (#[trigger] old_store[i]).key.0@ == k {
                            let i = choose|i: int| 0 <= i < old_store.len() && (#[trigger] old_store[i]).key.0@ == k;
                            assert(ns[i].key.0@ == k);
                        }
                    }
                    let c = choose|i: int| 0 <= i < ns.len() && (#[trigger] ns[i]).key.0@ == key.0@;
                    assert(c == old_store.len());
                    assert(values_at(ns, key.0@) =~= seq![vv]);
                    assert(values_after_put(Seq::<StoredValueView>::empty(), vv) =~= seq![vv]);
                }
            },
            Some(i) => {
                let mut present = false;
                let mut j: usize = 0;
                let ghost vs = self.store@[i as int].values@.map_values(|v: StoredValue| v@);
                while j < self.store[i].values.len()
                    invariant
                        i < self.store@.len(),
                        self.store@ == old_store,
                        j <= self.store@[i as int].values@.len(),
                        vs == self.store@[i as int].values@.map_values(|v: StoredValue| v@),
                        vv == value@,
                        !present ==> forall|q: int| 0 <= q < j ==> (#[trigger] vs[q]).value != vv.value,
                        present ==> exists|q: int| 0 <= q < vs.len() && (#[trigger] vs[q]).value == vv.value,
                    decreases self.store@[i as int].values@.len() - j,
                {
                    assert(vs[j as int] == self.store@[i as int].values@[j as int]@);
                    if bytes::constant_time_eq(&self.store[i].values[j].value, &value.value) {
                        present = true;
                        assert(vs[j as int].value == vv.value);
                    }
                    j = j + 1;
                }
                if !present {
                    let mut entry = StoreEntry { key, values: Vec::new() };
                    self.store.set_and_swap(i, &mut entry);
                    entry.values.push(value);
                    self.store.set_and_swap(i, &mut entry);
                    proof {
                        let ns = self.store@;
                        assert(ns[i as int].values@.map_values(|v: StoredValue| v@) =~= vs.push(vv));
                        assert forall|k: Seq<u8>| k != key.0@ implies values_at(ns, k) == values_at(old_store, k) by {
                            if exists|q: int| 0 <= q < ns.len() && (#[trigger] ns[q]).key.0@ == k {
                                let q = choose|q: int| 0 <= q < ns.len() && (#[trigger] ns[q]).key.0@ == k;
                                assert(old_store[q].key.0@ == k);
                            }
                            if exists|q: int| 0 <= q < old_store.len() && (#[trigger] old_store[q]).key.0@ == k {
                                let q = choose|q: int| 0 <= q < old_store.len() && (#[trigger] old_store[q]).key.0@ == k;
                                assert(ns[q].key.0@ == k);
                                assert(ns[q] == old_store[q]);
                            }
                        }
                        let c = choose|q: int| 0 <= q < ns.len() && (#[trigger] ns[q]).key.0@ == key.0@;
                        if c != i {
                            if c < i {
                                assert(old_store[c].key.0@ != old_store[i as int].key.0@);
                            } else {
                                assert(old_store[i as int].key.0@ != old_store[c].key.0@);
                            }
                        }
                        assert(distinct_keys(ns)) by {
                            assert forall|a: int, b: int| 0 <= a < b < ns.len() implies (#[trigger] ns[a]).key.0@ != (#[trigger] ns[b]).key.0@ by {
                                assert(ns[a].key.0@ == old_store[a].key.0@);
                                assert(ns[b].key.0@ == old_store[b].key.0@);
                            }
                        }
                    }
                }
            },
        }
    }

    /// The oldest value stored under `key`, if any.
    pub fn first_value(&self, key: &NodeId) -> (r: Option<StoredValue>)
        requires
            self.wf(),
        ensures
            r is Some <==> self.stored(key.0@).len() > 0,
            r matches Some(v) ==> v@ == self.stored(key.0@)[0],
    {
        match self.entry_index(key) {
            None => None,
            Some(i) => {
                if self.store[i].values.len() == 0 {
                    None
                } else {
                    Some(self.store[i].values[0].copy())
                }
            },
        }
    }

    /// The values under `key` that are still fresh at time `now` (at most
    /// `VALUE_TTL_SECS` old), oldest first.
    pub fn fresh_values(&self, key: &NodeId, now: i64) -> (r: Vec<StoredValue>)
        requires
            self.wf(),
        ensures
            r@.map_values(|v: StoredValue| v@) == self.stored(key.0@).filter(|v: StoredValueView| is_fresh(v.timestamp, now)),
    {
        let mut out: Vec<StoredValue> = Vec::new();
        match self.entry_index(key) {
            None => {
                proof {
                    reveal(Seq::filter);
                }
                assert(out@.map_values(|v: StoredValue| v@) =~= Seq::<StoredValueView>::empty());
            },
            Some(e) => {
                let ghost vs = self.stored(key.0@);
                let ghost pred = |v: StoredValueView| is_fresh(v.timestamp, now);
                let mut i: usize = 0;
                while i < self.store[e].values.len()
                    invariant
                        e < self.store@.len(),
                        i <= self.store@[e as int].values@.len(),
                        vs == self.store@[e as int].values@.map_values(|v: StoredValue| v@),
                        pred == |v: StoredValueView| is_fresh(v.timestamp, now),
                        out@.map_values(|v: StoredValue| v@) == vs.take(i as int).filter(pred),
                    decreases self.store@[e as int].values@.len() - i,
                {
                    let v = &self.store[e].values[i];
                    proof {
                        assert(vs.take(i + 1) =~= vs.take(i as int).push(vs[i as int]));
                        vs.take(i as int).lemma_filter_push(vs[i as int], pred);
                    }
                    let fresh = (now as i128) - (v.timestamp as i128) <= VALUE_TTL_SECS as i128;
                    if fresh {
                        let ghost before = out@;
                        out.push(v.copy());
                        assert(out@.map_values(|v: StoredValue| v@) =~= before.map_values(|v: StoredValue| v@).push(vs[i as int]));
                    }
                    i = i + 1;
                }
                assert(vs.take(i as int) =~= vs);
            },
        }
        out
    }
}

/// A message to send, and where.
pub struct Outgoing {
    pub to: PeerAddr,
    pub msg: Message,
}

/// The contact a message's sender reveals.
pub open spec fn sender_contact(id: NodeId, from: PeerAddr) -> Contact {
    Contact { id, addr: from }
}

/// The routing table after a message from `from` is handled: the sender
/// is learned, and for `FoundNodes` each listed node in turn.
pub open spec fn table_after_message(t: Seq<Seq<Contact>>, local: Seq<u8>, from: PeerAddr, msg: Message) -> Seq<Seq<Contact>> {
    match msg {
        Message::Ping { id, .. } => table_after_learn(t, local, sender_contact(id, from)),
        Message::Pong { id, .. } => table_after_learn(t, local, sender_contact(id, from)),
        Message::FindNode { id, .. } => table_after_learn(t, local, sender_contact(id, from)),
        Message::FoundNodes { nodes, .. } => table_after_learn_all(t, local, nodes@),
        Message::Store { id, .. } => table_after_learn(t, local, sender_contact(id, from)),
        Message::StoreValue { id, .. } => table_after_learn(t, local, sender_contact(id, from)),
    }
}

/// What a message stores, if anything: its key and value.
pub open spec fn stored_by_message(msg: Message) -> Option<(Seq<u8>, StoredValueView)> {
    match msg {
        Message::Store { key, value, .. } => Some((key.0@, value@)),
        Message::StoreValue { key, value, .. } => Some((key.0@, value@)),
        _ => None,
    }
}

/// The FindNode reply's node list: the `K` closest known contacts to the
/// target, without the node itself.
pub open spec fn is_found_nodes(nodes: Seq<Contact>, contacts: Seq<Contact>, target: Seq<u8>, local: Seq<u8>) -> bool {
    exists|r: Seq<Contact>| is_closest(r, contacts, target, K as int)
        && nodes == r.filter(|c: Contact| c.id.0@ != local)
}

/// The replies to a message, sent back to its sender.
pub open spec fn replies_ok(replies: Seq<Outgoing>, node: NodeInner, from: PeerAddr, msg: Message) -> bool {
    let local = node.spec_id();
    &&& forall|i: int| 0 <= i < replies.len() ==> (#[trigger] replies[i]).to == from
    &&& match msg {
        Message::Ping { request_id, .. } => replies.len() == 1
            && (replies[0].msg matches Message::Pong { request_id: r, id } && r == request_id && id.0@ == local),
        Message::FindNode { request_id, target, .. } => {
            let held = node.stored(target.0@);
            &&& replies.len() == (if held.len() > 0 { 2int } else { 1int })
            &&& replies[0].msg matches Message::FoundNodes { request_id: r, id, nodes }
                && r == request_id && id.0@ == local && is_found_nodes(nodes@, node.contacts(), target.0@, local)
            &&& held.len() > 0 ==> (replies[1].msg matches Message::StoreValue { request_id: r, id, key, value }
                && r == request_id && id.0@ == local && key.0@ == target.0@ && value@ == held[0])
        },
        Message::Store { request_id, key, value, .. } => replies.len() == 1
            && (replies[0].msg matches Message::StoreValue { request_id: r, id, key: k, value: v }
            && r == request_id && id.0@ == local && k.0@ == key.0@ && v@ == value@),
        _ => replies.len() == 0,
    }
}

impl NodeInner {
    /// Handle one incoming message from `from`: learn the sender (and, for
    /// `FoundNodes`, the listed nodes), store what it carries, and return
    /// the replies to send back. Replies are computed after the sender is
    /// learned and the value stored.
    pub fn handle_message(&mut self, from: PeerAddr, msg: Message) -> (replies: Vec<Outgoing>)
        requires
            old(self).wf(),
        ensures
            final(self).wf(),
            final(self).spec_id() == old(self).spec_id(),
            final(self).table_view() == table_after_message(old(self).table_view(), old(self).spec_id(), from, msg),
            match stored_by_message(msg) {
                Some((k, v)) => final(self).stored(k) == values_after_put(old(self).stored(k), v)
                    && forall|k2: Seq<u8>| k2 != k ==> final(self).stored(k2) == old(self).stored(k2),
                None => forall|k2: Seq<u8>| final(self).stored(k2) == old(self).stored(k2),
            },
            final(self).spec_next_request_id() == old(self).spec_next_request_id(),
            final(self).spec_bootstrap() == old(self).spec_bootstrap(),
            replies_ok(replies@, *final(self), from, msg),
    {
        let mut replies: Vec<Outgoing> = Vec::new();
        match msg {
            Message::Ping { request_id, id } => {
                self.learn(Contact { id, addr: from });
                replies.push(Outgoing { to: from, msg: Message::Pong { request_id, id: self.current_id() } });
            },
            Message::Pong { id, .. } => {
                self.learn(Contact { id, addr: from });
            },
            Message::FindNode { request_id, id, target } => {
                self.learn(Contact { id, addr: from });
                let local = self.current_id();
                let closest = self.closest(&target);
                let nodes = without_id(&closest, &local);
                replies.push(Outgoing { to: from, msg: Message::FoundNodes { request_id, id: local, nodes } });
                match self.first_value(&target) {
                    Some(value) => {
                        replies.push(Outgoing { to: from, msg: Message::StoreValue { request_id, id: local, key: target, value } });
                    },
                    None => {},
                }
            },
            Message::FoundNodes { nodes, .. } => {
                let ghost t0 = self.table_view();
                let mut i: usize = 0;
                while i < nodes.len()
                    invariant
                        i <= nodes@.len(),
                        self.wf(),
                        self.spec_id() == old(self).spec_id(),
                        self.table_view() == table_after_learn_all(t0, self.spec_id(), nodes@.take(i as int)),
                        forall|k: Seq<u8>| self.stored(k) == old(self).stored(k),
                        self.spec_next_request_id() == old(self).spec_next_request_id(),
                        self.spec_bootstrap() == old(self).spec_bootstrap(),
                    decreases nodes@.len() - i,
                {
                    self.learn(nodes[i]);
                    assert(nodes@.take(i + 1).drop_last() =~= nodes@.take(i as int));
                    i = i + 1;
                }
                assert(nodes@.take(i as int) =~= nodes@);
            },
            Message::Store { request_id, id, key, value } => {
                self.learn(Contact { id, addr: from });
                let kept = value.copy();
                self.put_value(key, kept);
                replies.push(Outgoing { to: from, msg: Message::StoreValue { request_id, id: self.current_id(), key, value } });
            },
            Message::StoreValue { id, key, value, .. } => {
                self.learn(Contact { id, addr: from });
                self.put_value(key, value);
            },
        }
        replies
    }
}

/// The contacts of `cs` whose id is not `id`, in order.
pub fn without_id(cs: &Vec<Contact>, id: &NodeId) -> (r: Vec<Contact>)
    ensures
        r@ == cs@.filter(|c: Contact| c.id.0@ != id.0@),
{
    let ghost pred = |c: Contact| c.id.0@ != id.0@;
    let mut out: Vec<Contact> = Vec::new();
    let mut i: usize = 0;
    proof {
        reveal(Seq::filter);
    }
    assert(cs@.take(0) =~= Seq::<Contact>::empty());
    while i < cs.len()
        invariant
            i <= cs@.len(),
            pred == |c: Contact| c.id.0@ != id.0@,
            out@ == cs@.take(i as int).filter(pred),
        decreases cs@.len() - i,
    {
        proof {
            assert(cs@.take(i + 1) =~= cs@.take(i as int).push(cs@[i as int]));
            cs@.take(i as int).lemma_filter_push(cs@[i as int], pred);
        }
        if !cs[i].id.same(id) {
            out.push(cs[i]);
        }
        i = i + 1;
    }
    assert(cs@.take(i as int) =~= cs@);
    out
}


/// Whether `id` is among `ids`.
fn contains_id(ids: &Vec<NodeId>, id: &NodeId) -> (r: bool)
    ensures
        r == ids@.map_values(|n: NodeId| n.0@).contains(id.0@),
{
    let ghost v = ids@.map_values(|n: NodeId| n.0@);
    let mut i: usize = 0;
    while i < ids.len()
        invariant
            i <= ids@.len(),
            v == ids@.map_values(|n: NodeId| n.0@),
            forall|j: int| 0 <= j < i ==> v[j] != id.0@,
        decreases ids@.len() - i,
    {
        if ids[i].same(id) {
            assert(v[i as int] == id.0@);
            return true;
        }
        i = i + 1;
    }
    false
}

/// Ids already queried in a lookup.
pub open spec fn seen_ids(seen: Seq<NodeId>) -> Seq<Seq<u8>> {
    seen.map_values(|n: NodeId| n.0@)
}

/// The next nodes to query: the first `ALPHA` of `closest` not queried yet.
pub open spec fn candidates_of(closest: Seq<Contact>, seen: Seq<Seq<u8>>) -> Seq<Contact> {
    let f = closest.filter(|c: Contact| !seen.contains(c.id.0@));
    if f.len() <= ALPHA { f } else { f.take(ALPHA as int) }
}

/// `merged` after the nodes of one reply: each node that is not `local`
/// and whose id is not yet listed is appended.
pub open spec fn merge_nodes(merged: Seq<Contact>, nodes: Seq<Contact>, local: Seq<u8>) -> Seq<Contact>
    decreases nodes.len(),
{
    if nodes.len() == 0 {
        merged
    } else {
        let m = merge_nodes(merged, nodes.drop_last(), local);
        let n = nodes.last();
        if n.id.0@ != local && !(exists|i: int| 0 <= i < m.len() && (#[trigger] m[i]).id.0@ == n.id.0@) {
            m.push(n)
        } else {
            m
        }
    }
}

/// Values found after the values of one reply: each that carries a valid
/// signature and whose bytes are not yet held is appended.
pub open spec fn accept_values(found: Seq<StoredValueView>, values: Seq<StoredValueView>) -> Seq<StoredValueView>
    decreases values.len(),
{
    if values.len() == 0 {
        found
    } else {
        let f = accept_values(found, values.drop_last());
        let v = values.last();
        if spec_value_verifies(v) && !(exists|i: int| 0 <= i < f.len() && (#[trigger] f[i]).value == v.value) {
            f.push(v)
        } else {
            f
        }
    }
}

proof fn lemma_merge_extends(merged: Seq<Contact>, nodes: Seq<Contact>, local: Seq<u8>)
    ensures
        merge_nodes(merged, nodes, local).len() >= merged.len(),
        merge_nodes(merged, nodes, local).take(merged.len() as int) == merged,
    decreases nodes.len(),
{
    if nodes.len() > 0 {
        lemma_merge_extends(merged, nodes.drop_last(), local);
        let m = merge_nodes(merged, nodes.drop_last(), local);
        assert(m.push(nodes.last()).take(merged.len() as int) =~= m.take(merged.len() as int));
    } else {
        assert(merged.take(merged.len() as int) =~= merged);
    }
}

/// An iterative nearest-node lookup for a target id. Each round queries up
/// to `ALPHA` unqueried nodes of the current closest set, merges the nodes
/// they return, and keeps the `K` closest; the lookup ends when a round
/// brings no change, after `MAX_ROUNDS` rounds, or (when it looks for
/// values) once a valid value is found.
pub struct Lookup {
    target: NodeId,
    want_values: bool,
    closest: Vec<Contact>,
    seen: Vec<NodeId>,
    merged: Vec<Contact>,
    found: Vec<StoredValue>,
    rounds: usize,
    done: bool,
}

impl Lookup {
    pub closed spec fn spec_target(&self) -> Seq<u8> {
        self.target.0@
    }

    pub closed spec fn spec_want_values(&self) -> bool {
        self.want_values
    }

    /// The current closest set, nearest first.
    pub closed spec fn spec_closest(&self) -> Seq<Contact> {
        self.closest@
    }

    /// Ids queried so far.
    pub closed spec fn spec_seen(&self) -> Seq<Seq<u8>> {
        seen_ids(self.seen@)
    }

    /// Contacts gathered in the current round.
    pub closed spec fn spec_merged(&self) -> Seq<Contact> {
        self.merged@
    }

    /// Valid values found so far.
    pub closed spec fn spec_found(&self) -> Seq<StoredValueView> {
        self.found@.map_values(|v: StoredValue| v@)
    }

    pub closed spec fn spec_rounds(&self) -> nat {
        self.rounds as nat
    }

    pub closed spec fn spec_done(&self) -> bool {
        self.done
    }

    /// Begin a lookup for `target` from the node's own table. When values
    /// are wanted, the node's own fresh values at time `now` are the first
    /// found. A node that knows no contact is done at once.
    pub fn start(inner: &NodeInner, target: NodeId, want_values: bool, now: i64) -> (r: Self)
        requires
            inner.wf(),
        ensures
            r.spec_target() == target.0@,
            r.spec_want_values() == want_values,
            is_closest(r.spec_closest(), inner.contacts(), target.0@, K as int),
            r.spec_seen() == Seq::<Seq<u8>>::empty(),
            r.spec_merged() == Seq::<Contact>::empty(),
            r.spec_found() == (if want_values {
                inner.stored(target.0@).filter(|v: StoredValueView| is_fresh(v.timestamp, now))
            } else {
                Seq::<StoredValueView>::empty()
            }),
            r.spec_rounds() == 0,
            r.spec_done() == (r.spec_closest().len() == 0),
    {
        let closest = inner.closest(&target);
        let found = if want_values { inner.fresh_values(&target, now) } else { Vec::new() };
        let done = closest.len() == 0;
        let r = Lookup { target, want_values, closest, seen: Vec::new(), merged: Vec::new(), found, rounds: 0, done };
        assert(r.spec_seen() =~= Seq::<Seq<u8>>::empty());
        assert(!want_values ==> r.spec_found() =~= Seq::<StoredValueView>::empty());
        r
    }

    /// The nodes to query this round (empty when the lookup is over). They
    /// are marked as queried, and the round's merge set starts as the
    /// current closest set.
    pub fn next_candidates(&mut self) -> (r: Vec<Contact>)
        ensures
            final(self).spec_target() == old(self).spec_target(),
            final(self).spec_want_values() == old(self).spec_want_values(),
            final(self).spec_closest() == old(self).spec_closest(),
            final(self).spec_found() == old(self).spec_found(),
            final(self).spec_rounds() == old(self).spec_rounds(),
            (old(self).spec_done() || old(self).spec_rounds() >= MAX_ROUNDS) ==> {
                &&& r@.len() == 0
                &&& final(self).spec_done()
                &&& final(self).spec_seen() == old(self).spec_seen()
                &&& final(self).spec_merged() == old(self).spec_merged()
            },
            !(old(self).spec_done() || old(self).spec_rounds() >= MAX_ROUNDS) ==> {
                &&& r@ == candidates_of(old(self).spec_closest(), old(self).spec_seen())
                &&& final(self).spec_done() == (r@.len() == 0)
                &&& final(self).spec_seen() == old(self).spec_seen() + r@.map_values(|c: Contact| c.id.0@)
                &&& final(self).spec_merged() == (if r@.len() == 0 { old(self).spec_merged() } else { old(self).spec_closest() })
            },
    {
        if self.done || self.rounds >= MAX_ROUNDS {
            self.done = true;
            return Vec::new();
        }
        let ghost seen0 = seen_ids(self.seen@);
        let ghost pred = |c: Contact| !seen0.contains(c.id.0@);
        let mut out: Vec<Contact> = Vec::new();
        let mut i: usize = 0;
        proof {
            reveal(Seq::filter);
        }
        assert(self.closest@.take(0) =~= Seq::<Contact>::empty());
        while i < self.closest.len()
            invariant
                i <= self.closest@.len(),
                seen0 == seen_ids(self.seen@),
                pred == |c: Contact| !seen0.contains(c.id.0@),
                out@ == self.closest@.take(i as int).filter(pred),
            decreases self.closest@.len() - i,
        {
            proof {
                assert(self.closest@.take(i + 1) =~= self.closest@.take(i as int).push(self.closest@[i as int]));
                self.closest@.take(i as int).lemma_filter_push(self.closest@[i as int], pred);
            }
            if !contains_id(&self.seen, &self.closest[i].id) {
                out.push(self.closest[i]);
            }
            i = i + 1;
        }
        assert(self.closest@.take(i as int) =~= self.closest@);
        out.truncate(ALPHA);
        if out.len() == 0 {
            self.done = true;
            assert(out@.map_values(|c: Contact| c.id.0@) =~= Seq::<Seq<u8>>::empty());
            assert(seen0 + out@.map_values(|c: Contact| c.id.0@) =~= seen0);
            return out;
        }
        let ghost seen_before = self.seen@;
        let mut j: usize = 0;
        while j < out.len()
            invariant
                j <= out@.len(),
                self.target == old(self).target,
                self.want_values == old(self).want_values,
                self.closest@ == old(self).closest@,
                self.found@ == old(self).found@,
                self.rounds == old(self).rounds,
                self.done == old(self).done,
                self.seen@ == seen_before + out@.take(j as int).map_values(|c: Contact| c.id),
            decreases out@.len() - j,
        {
            self.seen.push(out[j].id);
            assert(out@.take(j + 1).map_values(|c: Contact| c.id) =~= out@.take(j as int).map_values(|c: Contact| c.id).push(out@[j as int].id));
            j = j + 1;
        }
        assert(out@.take(j as int) =~= out@);
        assert(seen_ids(self.seen@) =~= seen0 + out@.map_values(|c: Contact| c.id.0@));
        let mut merged: Vec<Contact> = Vec::new();
        let mut q: usize = 0;
        while q < self.closest.len()
            invariant
                q <= self.closest@.len(),
                merged@ == self.closest@.take(q as int),
                self.target == old(self).target,
                self.want_values == old(self).want_values,
                self.closest@ == old(self).closest@,
                self.found@ == old(self).found@,
                self.rounds == old(self).rounds,
                self.done == old(self).done,
                seen_ids(self.seen@) == seen0 + out@.map_values(|c: Contact| c.id.0@),
            decreases self.closest@.len() - q,
        {
            merged.push(self.closest[q]);
            assert(self.closest@.take(q + 1) =~= self.closest@.take(q as int).push(self.closest@[q as int]));
            q = q + 1;
        }
        assert(self.closest@.take(q as int) =~= self.closest@);
        self.merged = merged;
        out
    }

    /// Take in one reply of this round: its new nodes join the merge set
    /// and the node's routing table; when values are wanted, its valid,
    /// not yet held values join the found values.
    pub fn absorb(&mut self, inner: &mut NodeInner, nodes: Vec<Contact>, values: Vec<StoredValue>)
        requires
            old(inner).wf(),
        ensures
            final(inner).wf(),
            final(inner).spec_id() == old(inner).spec_id(),
            final(self).spec_merged() == merge_nodes(old(self).spec_merged(), nodes@, old(inner).spec_id()),
            final(inner).table_view() == table_after_learn_all(
                old(inner).table_view(),
                old(inner).spec_id(),
                final(self).spec_merged().skip(old(self).spec_merged().len() as int),
            ),
            forall|k: Seq<u8>| final(inner).stored(k) == old(inner).stored(k),
            final(inner).spec_next_request_id() == old(inner).spec_next_request_id(),
            final(inner).spec_bootstrap() == old(inner).spec_bootstrap(),
            final(self).spec_found() == (if old(self).spec_want_values() {
                accept_values(old(self).spec_found(), values@.map_values(|v: StoredValue| v@))
            } else {
                old(self).spec_found()
            }),
            final(self).spec_target() == old(self).spec_target(),
            final(self).spec_want_values() == old(self).spec_want_values(),
            final(self).spec_closest() == old(self).spec_closest(),
            final(self).spec_seen() == old(self).spec_seen(),
            final(self).spec_rounds() == old(self).spec_rounds(),
            final(self).spec_done() == old(self).spec_done(),
    {
        let local = inner.current_id();
        let ghost m0 = self.merged@;
        let ghost t0 = inner.table_view();
        let mut i: usize = 0;
        assert(m0.skip(m0.len() as int) =~= Seq::<Contact>::empty());
        assert(nodes@.take(0) =~= Seq::<Contact>::empty());
        while i < nodes.len()
            invariant
                i <= nodes@.len(),
                inner.wf(),
                inner.spec_id() == old(inner).spec_id(),
                local.0@ == inner.spec_id(),
                self.merged@ == merge_nodes(m0, nodes@.take(i as int), local.0@),
                inner.table_view() == table_after_learn_all(t0, local.0@, self.merged@.skip(m0.len() as int)),
                forall|k: Seq<u8>| inner.stored(k) == old(inner).stored(k),
                inner.spec_next_request_id() == old(inner).spec_next_request_id(),
                inner.spec_bootstrap() == old(inner).spec_bootstrap(),
                self.target == old(self).target,
                self.want_values == old(self).want_values,
                self.closest@ == old(self).closest@,
                self.seen@ == old(self).seen@,
                self.found@ == old(self).found@,
                self.rounds == old(self).rounds,
                self.done == old(self).done,
            decreases nodes@.len() - i,
        {
            let n = nodes[i];
            proof {
                assert(nodes@.take(i + 1).drop_last() =~= nodes@.take(i as int));
                assert(nodes@.take(i + 1).last() == n);
                lemma_merge_extends(m0, nodes@.take(i as int), local.0@);
            }
            if !n.id.same(&local) {
                match position_of_id(&self.merged, &n.id) {
                    None => {
                        let ghost before = self.merged@;
                        self.merged.push(n);
                        inner.learn(n);
                        proof {
                            assert(before.push(n).skip(m0.len() as int) =~= before.skip(m0.len() as int).push(n));
                            assert(before.push(n).skip(m0.len() as int).drop_last() =~= before.skip(m0.len() as int));
                        }
                    },
                    Some(_) => {},
                }
            }
            i = i + 1;
        }
        assert(nodes@.take(i as int) =~= nodes@);
        if self.want_values {
            let ghost f0 = self.found@.map_values(|v: StoredValue| v@);
            let ghost vs = values@.map_values(|v: StoredValue| v@);
            let mut j: usize = 0;
            assert(vs.take(0) =~= Seq::<StoredValueView>::empty());
            while j < values.len()
                invariant
                    j <= values@.len(),
                    vs == values@.map_values(|v: StoredValue| v@),
                    self.found@.map_values(|v: StoredValue| v@) == accept_values(f0, vs.take(j as int)),
                    self.target == old(self).target,
                    self.want_values == old(self).want_values,
                    self.closest@ == old(self).closest@,
                    self.seen@ == old(self).seen@,
                    self.merged@ == merge_nodes(m0, nodes@, local.0@),
                    self.rounds == old(self).rounds,
                    self.done == old(self).done,
                decreases values@.len() - j,
            {
                let v = &values[j];
                proof {
                    assert(vs.take(j + 1).drop_last() =~= vs.take(j as int));
                    assert(vs.take(j + 1).last() == v@);
                }
                if v.verify() {
                    let ghost fv = self.found@.map_values(|x: StoredValue| x@);
                    let mut held = false;
                    let mut q: usize = 0;
                    while q < self.found.len()
                        invariant
                            q <= self.found@.len(),
                            fv == self.found@.map_values(|x: StoredValue| x@),
                            !held ==> forall|p: int| 0 <= p < q ==> (#[trigger] fv[p]).value != v.value@,
                            held ==> exists|p: int| 0 <= p < fv.len() && (#[trigger] fv[p]).value == v.value@,
                        decreases self.found@.len() - q,
                    {
                        assert(fv[q as int] == self.found@[q as int]@);
                        if bytes::constant_time_eq(&self.found[q].value, &v.value) {
                            held = true;
                        }
                        q = q + 1;
                    }
                    if !held {
                        self.found.push(v.copy());
                        assert(self.found@.map_values(|x: StoredValue| x@) =~= fv.push(v@));
                    }
                }
                j = j + 1;
            }
            assert(vs.take(j as int) =~= vs);
        }
    }

    /// Close the round. When values are wanted and some were found, the
    /// lookup ends. Otherwise the merge set, sorted by distance and cut to
    /// `K`, becomes the closest set; the lookup ends when that brings no
    /// change. After `MAX_ROUNDS` rounds the lookup only ends.
    pub fn finish_round(&mut self)
        ensures
            final(self).spec_target() == old(self).spec_target(),
            final(self).spec_want_values() == old(self).spec_want_values(),
            final(self).spec_seen() == old(self).spec_seen(),
            final(self).spec_merged() == old(self).spec_merged(),
            final(self).spec_found() == old(self).spec_found(),
            (old(self).spec_want_values() && old(self).spec_found().len() > 0) || old(self).spec_rounds() >= MAX_ROUNDS ==> {
                &&& final(self).spec_done()
                &&& final(self).spec_closest() == old(self).spec_closest()
                &&& final(self).spec_rounds() == old(self).spec_rounds()
            },
            !((old(self).spec_want_values() && old(self).spec_found().len() > 0) || old(self).spec_rounds() >= MAX_ROUNDS) ==> {
                &&& is_closest(final(self).spec_closest(), old(self).spec_merged(), old(self).spec_target(), K as int)
                &&& final(self).spec_rounds() == old(self).spec_rounds() + 1
                &&& final(self).spec_done() == (old(self).spec_done()
                    || final(self).spec_closest().map_values(|c: Contact| contact_view(c))
                        == old(self).spec_closest().map_values(|c: Contact| contact_view(c)))
            },
    {
        if (self.want_values && self.found.len() > 0) || self.rounds >= MAX_ROUNDS {
            self.done = true;
            return;
        }
        let sorted = nearest(&self.merged, &self.target, K);
        let unchanged = same_contacts(&sorted, &self.closest);
        self.closest = sorted;
        self.rounds = self.rounds + 1;
        if unchanged {
            self.done = true;
        }
    }

    /// Whether the lookup is over.
    pub fn is_done(&self) -> (r: bool)
        ensures
            r == self.spec_done(),
    {
        self.done
    }

    /// The closest set: the result of a node lookup.
    pub fn closest(&self) -> (r: Vec<Contact>)
        ensures
            r@ == self.spec_closest(),
    {
        let mut r: Vec<Contact> = Vec::new();
        let mut i: usize = 0;
        while i < self.closest.len()
            invariant
                i <= self.closest@.len(),
                r@ == self.closest@.take(i as int),
            decreases self.closest@.len() - i,
        {
            r.push(self.closest[i]);
            assert(self.closest@.take(i + 1) =~= self.closest@.take(i as int).push(self.closest@[i as int]));
            i = i + 1;
        }
        assert(self.closest@.take(i as int) =~= self.closest@);
        r
    }

    /// The values found: the result of a value lookup.
    pub fn found(&self) -> (r: Vec<StoredValue>)
        ensures
            r@.map_values(|v: StoredValue| v@) == self.spec_found(),
    {
        let mut r: Vec<StoredValue> = Vec::new();
        let mut i: usize = 0;
        while i < self.found.len()
            invariant
                i <= self.found@.len(),
                r@.map_values(|v: StoredValue| v@) == self.found@.take(i as int).map_values(|v: StoredValue| v@),
            decreases self.found@.len() - i,
        {
            r.push(self.found[i].copy());
            assert(self.found@.take(i + 1).map_values(|v: StoredValue| v@) =~= self.found@.take(i as int).map_values(|v: StoredValue| v@).push(self.found@[i as int]@));
            assert(r@.map_values(|v: StoredValue| v@) =~= self.found@.take(i + 1).map_values(|v: StoredValue| v@));
            i = i + 1;
        }
        assert(self.found@.take(i as int) =~= self.found@);
        r
    }
}

} // verus!
