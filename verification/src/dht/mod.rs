//! Peer discovery over a Kademlia distributed hash table, and the keys
//! under which a peer's presence, ICE candidates and messages are stored.
use vstd::prelude::*;
use vstd::string::StringExecFns;
use vstd::string::StringSliceAdditionalSpecFns;
use crate::primitives;

pub mod kademlia;

verus! {

/// The key of topic `topic` of `identity`: the SHA-256 digest of
/// "identity:topic".
pub open spec fn spec_topic_key(identity: Seq<char>, topic: Seq<char>) -> Seq<u8> {
    primitives::sha256_digest(vstd::utf8::encode_utf8(identity + ":"@ + topic))
}

/// The key of topic `topic` of `identity` (see `spec_topic_key`).
pub fn topic_key(identity: &str, topic: &str) -> (r: kademlia::NodeId)
    ensures
        r.0@ == spec_topic_key(identity@, topic@),
{
    let joined = String::from_str(identity).concat(":").concat(topic);
    let js = joined.as_str();
    let b = js.as_bytes();
    assert(js@ == identity@ + ":"@ + topic@);
    kademlia::NodeId::from_sha256(b)
}

/// Where `identity` publishes its presence.
pub fn presence_key(identity: &str) -> (r: kademlia::NodeId)
    ensures
        r.0@ == spec_topic_key(identity@, "presence"@),
{
    topic_key(identity, "presence")
}

/// Where ICE candidates for `identity` are left.
pub fn ice_key(identity: &str) -> (r: kademlia::NodeId)
    ensures
        r.0@ == spec_topic_key(identity@, "ice"@),
{
    topic_key(identity, "ice")
}

/// Where messages for `identity` are left.
pub fn message_key(identity: &str) -> (r: kademlia::NodeId)
    ensures
        r.0@ == spec_topic_key(identity@, "msg"@),
{
    topic_key(identity, "msg")
}

} // verus!
