//! Call signaling: the invite / accept / reject / end exchange between two
//! peers, and the table of calls it maintains.
use vstd::prelude::*;
use crate::primitives;
use crate::text;

verus! {

/// Kind of call.
#[derive(Debug, Clone, Copy, PartialEq, Eq, Structural)]
pub enum CallType {
    Audio,
    Video,
    ScreenShare,
}

/// Where a call stands.
#[derive(Debug, Clone, Copy, PartialEq, Eq, Structural)]
pub enum CallState {
    Idle,
    Calling,
    Ringing,
    Connected,
    OnHold,
    Ended,
    Failed,
}

/// One call and what was negotiated for it.
#[derive(Debug)]
pub struct CallSession {
    pub call_id: String,
    pub peer_identity: String,
    pub call_type: CallType,
    pub state: CallState,
    pub is_initiator: bool,
    pub created_at: i64,
    pub connected_at: Option<i64>,
    pub local_sdp: Option<String>,
    pub remote_sdp: Option<String>,
    pub ice_candidates_local: Vec<String>,
    pub ice_candidates_remote: Vec<String>,
}

/// Messages exchanged between the two ends of a call.
#[derive(Debug)]
pub enum SignalingMessage {
    Invite { call_id: String, call_type: CallType, sdp: String, ice_candidates: Vec<String> },
    Ringing { call_id: String },
    Accept { call_id: String, sdp: String, ice_candidates: Vec<String> },
    Reject { call_id: String, reason: String },
    End { call_id: String },
    IceCandidate { call_id: String, candidate: String },
    MediaChange { call_id: String, sdp: String },
    Heartbeat { call_id: String },
}

/// Why a call operation was refused.
#[derive(Debug, Clone, Copy, PartialEq, Eq, Structural)]
pub enum SignalingError {
    /// No call has the given id.
    CallNotFound,
}

/// The first call with id `id`, or -1.
pub open spec fn call_pos(calls: Seq<CallSession>, id: Seq<char>) -> int
    decreases calls.len(),
{
    if calls.len() == 0 {
        -1
    } else if calls.last().call_id@ == id {
        let earlier = call_pos(calls.drop_last(), id);
        if earlier >= 0 { earlier } else { calls.len() - 1 }
    } else {
        call_pos(calls.drop_last(), id)
    }
}

pub proof fn lemma_call_pos(calls: Seq<CallSession>, id: Seq<char>)
    ensures
        -1 <= call_pos(calls, id) < calls.len(),
        call_pos(calls, id) >= 0 ==> calls[call_pos(calls, id)].call_id@ == id,
        call_pos(calls, id) >= 0 ==> forall|j: int| 0 <= j < call_pos(calls, id) ==> calls[j].call_id@ != id,
        call_pos(calls, id) == -1 ==> forall|j: int| 0 <= j < calls.len() ==> calls[j].call_id@ != id,
    decreases calls.len(),
{
    if calls.len() > 0 {
        lemma_call_pos(calls.drop_last(), id);
        assert forall|j: int| 0 <= j < calls.len() - 1 implies calls.drop_last()[j] == calls[j] by {}
    }
}

/// The table after storing `c` under its id: it replaces the call with
/// that id, or is added at the end.
pub open spec fn calls_with(calls: Seq<CallSession>, c: CallSession) -> Seq<CallSession> {
    let i = call_pos(calls, c.call_id@);
    if i >= 0 { calls.update(i, c) } else { calls.push(c) }
}

/// The table without the call with id `id` (unchanged if there is none).
pub open spec fn calls_without(calls: Seq<CallSession>, id: Seq<char>) -> Seq<CallSession> {
    let i = call_pos(calls, id);
    if i >= 0 { calls.remove(i) } else { calls }
}

/// Whether two calls hold the same values.
pub open spec fn same_call(a: CallSession, b: CallSession) -> bool {
    &&& a.call_id@ == b.call_id@
    &&& a.peer_identity@ == b.peer_identity@
    &&& a.call_type == b.call_type
    &&& a.state == b.state
    &&& a.is_initiator == b.is_initiator
    &&& a.created_at == b.created_at
    &&& a.connected_at == b.connected_at
    &&& opt_str(a.local_sdp) == opt_str(b.local_sdp)
    &&& opt_str(a.remote_sdp) == opt_str(b.remote_sdp)
    &&& strs(a.ice_candidates_local@) == strs(b.ice_candidates_local@)
    &&& strs(a.ice_candidates_remote@) == strs(b.ice_candidates_remote@)
}

/// The text of an optional string.
pub open spec fn opt_str(s: Option<String>) -> Option<Seq<char>> {
    text::opt_text(s)
}

/// The texts of a list of strings.
pub open spec fn strs(v: Seq<String>) -> Seq<Seq<char>> {
    text::texts(v)
}

/// A copy of a call.
pub fn copy_call(c: &CallSession) -> (r: CallSession)
    ensures
        same_call(r, *c),
{
    CallSession {
        call_id: text::copy_string(&c.call_id),
        peer_identity: text::copy_string(&c.peer_identity),
        call_type: c.call_type,
        state: c.state,
        is_initiator: c.is_initiator,
        created_at: c.created_at,
        connected_at: c.connected_at,
        local_sdp: text::copy_opt_string(&c.local_sdp),
        remote_sdp: text::copy_opt_string(&c.remote_sdp),
        ice_candidates_local: text::copy_strings(&c.ice_candidates_local),
        ice_candidates_remote: text::copy_strings(&c.ice_candidates_remote),
    }
}

/// The calls a peer takes part in, and its identity.
pub struct SignalingClient {
    calls: Vec<CallSession>,
    local_identity: String,
}

impl SignalingClient {
    /// The calls, in the order they were first stored.
    pub closed spec fn spec_calls(&self) -> Seq<CallSession> {
        self.calls@
    }

    /// This peer's identity.
    pub closed spec fn spec_identity(&self) -> Seq<char> {
        self.local_identity@
    }

    /// A client with no calls.
    pub fn new(local_identity: String) -> (r: Self)
        ensures
            r.spec_calls() == Seq::<CallSession>::empty(),
            r.spec_identity() == local_identity@,
    {
        SignalingClient { calls: Vec::new(), local_identity }
    }

    /// This peer's identity.
    pub fn local_identity(&self) -> (r: &String)
        ensures
            r@ == self.spec_identity(),
    {
        &self.local_identity
    }

    fn find(&self, call_id: &str) -> (r: Option<usize>)
        ensures
            match r {
                None => call_pos(self.calls@, call_id@) == -1,
                Some(i) => i == call_pos(self.calls@, call_id@) && i < self.calls@.len()
                    && self.calls@[i as int].call_id@ == call_id@,
            },
    {
        proof { lemma_call_pos(self.calls@, call_id@); }
        let mut i: usize = 0;
        while i < self.calls.len()
            invariant
                i <= self.calls@.len(),
                forall|j: int| 0 <= j < i ==> self.calls@[j].call_id@ != call_id@,
                -1 <= call_pos(self.calls@, call_id@) < self.calls@.len(),
                call_pos(self.calls@, call_id@) >= 0 ==> self.calls@[call_pos(self.calls@, call_id@)].call_id@ == call_id@,
                call_pos(self.calls@, call_id@) >= 0 ==> forall|j: int| 0 <= j < call_pos(self.calls@, call_id@) ==> self.calls@[j].call_id@ != call_id@,
                call_pos(self.calls@, call_id@) == -1 ==> forall|j: int| 0 <= j < self.calls@.len() ==> self.calls@[j].call_id@ != call_id@,
            decreases self.calls@.len() - i,
        {
            if primitives::str_eq(self.calls[i].call_id.as_str(), call_id) {
                return Some(i);
            }
            i = i + 1;
        }
        None
    }

    /// Store a call under its id, replacing any call with that id.
    fn store(&mut self, c: CallSession)
        ensures
            final(self).spec_calls() == calls_with(old(self).spec_calls(), c),
            final(self).spec_identity() == old(self).spec_identity(),
    {
        match self.find(c.call_id.as_str()) {
            Some(i) => {
                let mut c = c;
                self.calls.set_and_swap(i, &mut c);
            },
            None => {
                self.calls.push(c);
            },
        }
    }

    /// Start a call to `peer_identity` under a fresh random id at time
    /// `now` (see `invite_with_id`).
    pub fn invite(&mut self, peer_identity: &str, call_type: CallType, local_sdp: String, ice_candidates: Vec<String>, now: i64) -> (r: (String, SignalingMessage))
        ensures
            invited(*old(self), *final(self), r.0@, peer_identity@, call_type, local_sdp@, strs(ice_candidates@), now, r.1),
    {
        let call_id = primitives::uuid_v4();
        self.invite_with_id(call_id, peer_identity, call_type, local_sdp, ice_candidates, now)
    }

    /// Start a call with id `call_id` to `peer_identity`: it is stored in
    /// state `Calling` as initiator, and the returned id and `Invite` are
    /// to be sent to the peer.
    pub fn invite_with_id(&mut self, call_id: String, peer_identity: &str, call_type: CallType, local_sdp: String, ice_candidates: Vec<String>, now: i64) -> (r: (String, SignalingMessage))
        ensures
            r.0@ == call_id@,
            invited(*old(self), *final(self), call_id@, peer_identity@, call_type, local_sdp@, strs(ice_candidates@), now, r.1),
    {
        let call = CallSession {
            call_id: text::copy_string(&call_id),
            peer_identity: peer_identity.to_string(),
            call_type,
            state: CallState::Calling,
            is_initiator: true,
            created_at: now,
            connected_at: None,
            local_sdp: Some(text::copy_string(&local_sdp)),
            remote_sdp: None,
            ice_candidates_local: text::copy_strings(&ice_candidates),
            ice_candidates_remote: Vec::new(),
        };
        let ghost stored = call;
        self.store(call);
        let msg = SignalingMessage::Invite { call_id: text::copy_string(&call_id), call_type, sdp: local_sdp, ice_candidates };
        proof {
            assert(strs(stored.ice_candidates_remote@) =~= Seq::<Seq<char>>::empty());
        }
        (call_id, msg)
    }

    /// Fail a call that is still `Calling` or `Ringing` (its answer timed
    /// out); other calls are unchanged. Whether it failed is returned.
    pub fn expire_call(&mut self, call_id: &str) -> (r: bool)
        ensures
            ({
                let i = call_pos(old(self).spec_calls(), call_id@);
                let c = old(self).spec_calls()[i];
                if i >= 0 && (c.state == CallState::Calling || c.state == CallState::Ringing) {
                    &&& r
                    &&& final(self).spec_calls() == old(self).spec_calls().update(i, CallSession { state: CallState::Failed, ..c })
                } else {
                    &&& !r
                    &&& final(self).spec_calls() == old(self).spec_calls()
                }
            }),
            final(self).spec_identity() == old(self).spec_identity(),
    {
        match self.find(call_id) {
            None => false,
            Some(i) => {
                if self.calls[i].state == CallState::Calling || self.calls[i].state == CallState::Ringing {
                    let mut c = CallSession {
                        call_id: String::new(), peer_identity: String::new(), call_type: CallType::Audio, state: CallState::Idle,
                        is_initiator: false, created_at: 0, connected_at: None, local_sdp: None, remote_sdp: None,
                        ice_candidates_local: Vec::new(), ice_candidates_remote: Vec::new(),
                    };
                    self.calls.set_and_swap(i, &mut c);
                    c.state = CallState::Failed;
                    self.calls.set_and_swap(i, &mut c);
                    true
                } else {
                    false
                }
            },
        }
    }
}

/// What `invite` does: a `Calling` call with the given id, peer, kind,
/// local description and candidates is stored, and the `Invite` message
/// carries the id, kind, description and candidates.
pub open spec fn invited(before: SignalingClient, after: SignalingClient, call_id: Seq<char>, peer: Seq<char>, call_type: CallType, sdp: Seq<char>, ice: Seq<Seq<char>>, now: i64, msg: SignalingMessage) -> bool {
    &&& after.spec_identity() == before.spec_identity()
    &&& exists|c: CallSession| {
        &&& #[trigger] calls_with(before.spec_calls(), c) == after.spec_calls()
        &&& c.call_id@ == call_id
        &&& c.peer_identity@ == peer
        &&& c.call_type == call_type
        &&& c.state == CallState::Calling
        &&& c.is_initiator
        &&& c.created_at == now
        &&& c.connected_at is None
        &&& opt_str(c.local_sdp) == Some(sdp)
        &&& c.remote_sdp is None
        &&& strs(c.ice_candidates_local@) == ice
        &&& strs(c.ice_candidates_remote@) == Seq::<Seq<char>>::empty()
    }
    &&& msg matches SignalingMessage::Invite { call_id: id, call_type: t, sdp: d, ice_candidates: cs }
    &&& id@ == call_id && t == call_type && d@ == sdp && strs(cs@) == ice
}


/// A blank idle audio call: empty ids, no SDP, no candidates, times zero.
fn placeholder() -> (c: CallSession)
    ensures
        c.call_id@.len() == 0 && c.peer_identity@.len() == 0,
        c.call_type == CallType::Audio && c.state == CallState::Idle && !c.is_initiator,
        c.created_at == 0 && c.connected_at is None,
        c.local_sdp is None && c.remote_sdp is None,
        c.ice_candidates_local@.len() == 0 && c.ice_candidates_remote@.len() == 0,
{
    CallSession {
        call_id: String::new(), peer_identity: String::new(), call_type: CallType::Audio, state: CallState::Idle,
        is_initiator: false, created_at: 0, connected_at: None, local_sdp: None, remote_sdp: None,
        ice_candidates_local: Vec::new(), ice_candidates_remote: Vec::new(),
    }
}

/// The calls after call `i` is replaced by `c`, and nothing else changes.
pub open spec fn replaced(before: Seq<CallSession>, after: Seq<CallSession>, i: int, c: CallSession) -> bool {
    after == before.update(i, c)
}

impl SignalingClient {
    /// Answer call `call_id` at time `now`: it becomes `Connected` with our
    /// description and candidates, and the returned `Accept` is to be sent
    /// to the returned peer.
    pub fn accept(&mut self, call_id: &str, local_sdp: String, ice_candidates: Vec<String>, now: i64) -> (r: Result<(String, SignalingMessage), SignalingError>)
        ensures
            final(self).spec_identity() == old(self).spec_identity(),
            ({
                let i = call_pos(old(self).spec_calls(), call_id@);
                if i < 0 {
                    r == Err::<(String, SignalingMessage), SignalingError>(SignalingError::CallNotFound)
                        && final(self).spec_calls() == old(self).spec_calls()
                } else {
                    let c = old(self).spec_calls()[i];
                    &&& final(self).spec_calls() == old(self).spec_calls().update(i, CallSession {
                        state: CallState::Connected,
                        connected_at: Some(now),
                        local_sdp: Some(local_sdp),
                        ice_candidates_local: ice_candidates,
                        ..c
                    })
                    &&& r matches Ok((peer, m)) && peer@ == c.peer_identity@
                        && (m matches SignalingMessage::Accept { call_id: id, sdp, ice_candidates: cs }
                            && id@ == call_id@ && sdp@ == local_sdp@ && strs(cs@) == strs(ice_candidates@))
                }
            }),
    {
        match self.find(call_id) {
            None => Err(SignalingError::CallNotFound),
            Some(i) => {
                let msg = SignalingMessage::Accept {
                    call_id: call_id.to_string(),
                    sdp: text::copy_string(&local_sdp),
                    ice_candidates: text::copy_strings(&ice_candidates),
                };
                let mut c = placeholder();
                self.calls.set_and_swap(i, &mut c);
                c.state = CallState::Connected;
                c.connected_at = Some(now);
                c.local_sdp = Some(local_sdp);
                c.ice_candidates_local = ice_candidates;
                let peer = text::copy_string(&c.peer_identity);
                self.calls.set_and_swap(i, &mut c);
                Ok((peer, msg))
            },
        }
    }

    /// Mark call `call_id` as ended and give the message that tells its
    /// peer; the call stays in the table until `remove_call`, once the
    /// message is sent.
    fn finish(&mut self, call_id: &str) -> (r: Result<String, SignalingError>)
        ensures
            final(self).spec_identity() == old(self).spec_identity(),
            ({
                let i = call_pos(old(self).spec_calls(), call_id@);
                if i < 0 {
                    r == Err::<String, SignalingError>(SignalingError::CallNotFound)
                        && final(self).spec_calls() == old(self).spec_calls()
                } else {
                    let c = old(self).spec_calls()[i];
                    &&& final(self).spec_calls() == old(self).spec_calls().update(i, CallSession { state: CallState::Ended, ..c })
                    &&& r matches Ok(peer) && peer@ == c.peer_identity@
                }
            }),
    {
        match self.find(call_id) {
            None => Err(SignalingError::CallNotFound),
            Some(i) => {
                let mut c = placeholder();
                self.calls.set_and_swap(i, &mut c);
                c.state = CallState::Ended;
                let peer = text::copy_string(&c.peer_identity);
                self.calls.set_and_swap(i, &mut c);
                Ok(peer)
            },
        }
    }

    /// Reject call `call_id`: it is marked `Ended`, and the returned
    /// `Reject` is to be sent to the returned peer, after which the call is
    /// removed with `remove_call`.
    pub fn reject(&mut self, call_id: &str, reason: String) -> (r: Result<(String, SignalingMessage), SignalingError>)
        ensures
            final(self).spec_identity() == old(self).spec_identity(),
            ({
                let i = call_pos(old(self).spec_calls(), call_id@);
                if i < 0 {
                    r == Err::<(String, SignalingMessage), SignalingError>(SignalingError::CallNotFound)
                        && final(self).spec_calls() == old(self).spec_calls()
                } else {
                    let c = old(self).spec_calls()[i];
                    &&& final(self).spec_calls() == old(self).spec_calls().update(i, CallSession { state: CallState::Ended, ..c })
                    &&& r matches Ok((peer, m)) && peer@ == c.peer_identity@
                        && (m matches SignalingMessage::Reject { call_id: id, reason: why } && id@ == call_id@ && why == reason)
                }
            }),
    {
        let peer = self.finish(call_id)?;
        Ok((peer, SignalingMessage::Reject { call_id: call_id.to_string(), reason }))
    }

    /// End call `call_id`: it is marked `Ended`, and the returned `End` is
    /// to be sent to the returned peer, after which the call is removed with
    /// `remove_call`.
    pub fn end_call(&mut self, call_id: &str) -> (r: Result<(String, SignalingMessage), SignalingError>)
        ensures
            final(self).spec_identity() == old(self).spec_identity(),
            ({
                let i = call_pos(old(self).spec_calls(), call_id@);
                if i < 0 {
                    r == Err::<(String, SignalingMessage), SignalingError>(SignalingError::CallNotFound)
                        && final(self).spec_calls() == old(self).spec_calls()
                } else {
                    let c = old(self).spec_calls()[i];
                    &&& final(self).spec_calls() == old(self).spec_calls().update(i, CallSession { state: CallState::Ended, ..c })
                    &&& r matches Ok((peer, m)) && peer@ == c.peer_identity@
                        && (m matches SignalingMessage::End { call_id: id } && id@ == call_id@)
                }
            }),
    {
        let peer = self.finish(call_id)?;
        Ok((peer, SignalingMessage::End { call_id: call_id.to_string() }))
    }

    /// Forget call `call_id` (nothing changes if there is none).
    pub fn remove_call(&mut self, call_id: &str)
        ensures
            final(self).spec_identity() == old(self).spec_identity(),
            final(self).spec_calls() == calls_without(old(self).spec_calls(), call_id@),
    {
        match self.find(call_id) {
            None => {},
            Some(i) => {
                self.calls.remove(i);
            },
        }
    }

    /// Offer one more local ICE candidate for call `call_id`; the returned
    /// `IceCandidate` is to be sent to the returned peer.
    pub fn add_ice_candidate(&mut self, call_id: &str, candidate: String) -> (r: Result<(String, SignalingMessage), SignalingError>)
        ensures
            final(self).spec_identity() == old(self).spec_identity(),
            ({
                let i = call_pos(old(self).spec_calls(), call_id@);
                if i < 0 {
                    r == Err::<(String, SignalingMessage), SignalingError>(SignalingError::CallNotFound)
                        && final(self).spec_calls() == old(self).spec_calls()
                } else {
                    let c = old(self).spec_calls()[i];
                    let d = final(self).spec_calls()[i];
                    &&& final(self).spec_calls().len() == old(self).spec_calls().len()
                    &&& forall|j: int| 0 <= j < old(self).spec_calls().len() && j != i ==> final(self).spec_calls()[j] == old(self).spec_calls()[j]
                    &&& d.ice_candidates_local@ == c.ice_candidates_local@.push(candidate)
                    &&& d == CallSession { ice_candidates_local: d.ice_candidates_local, ..c }
                    &&& r matches Ok((peer, m)) && peer@ == c.peer_identity@
                        && (m matches SignalingMessage::IceCandidate { call_id: id, candidate: cand } && id@ == call_id@ && cand@ == candidate@)
                }
            }),
    {
        match self.find(call_id) {
            None => Err(SignalingError::CallNotFound),
            Some(i) => {
                let msg = SignalingMessage::IceCandidate { call_id: call_id.to_string(), candidate: text::copy_string(&candidate) };
                let mut c = placeholder();
                self.calls.set_and_swap(i, &mut c);
                c.ice_candidates_local.push(candidate);
                let peer = text::copy_string(&c.peer_identity);
                self.calls.set_and_swap(i, &mut c);
                Ok((peer, msg))
            },
        }
    }

    /// A copy of call `call_id`, if there is one.
    pub fn get_call(&self, call_id: &str) -> (r: Option<CallSession>)
        ensures
            ({
                let i = call_pos(self.spec_calls(), call_id@);
                if i < 0 { r is None } else { r matches Some(c) && same_call(c, self.spec_calls()[i]) }
            }),
    {
        match self.find(call_id) {
            None => None,
            Some(i) => Some(copy_call(&self.calls[i])),
        }
    }

    /// Copies of all calls.
    pub fn list_calls(&self) -> (r: Vec<CallSession>)
        ensures
            r@.len() == self.spec_calls().len(),
            forall|j: int| 0 <= j < r@.len() ==> same_call(#[trigger] r@[j], self.spec_calls()[j]),
    {
        let mut r: Vec<CallSession> = Vec::new();
        let mut i: usize = 0;
        while i < self.calls.len()
            invariant
                i <= self.calls@.len(),
                r@.len() == i,
                forall|j: int| 0 <= j < i ==> same_call(#[trigger] r@[j], self.calls@[j]),
            decreases self.calls@.len() - i,
        {
            r.push(copy_call(&self.calls[i]));
            i = i + 1;
        }
        r
    }
}


/// The call an incoming `Invite` creates: `Ringing`, not ours, with the
/// caller's description and candidates.
pub open spec fn incoming_call(from: String, call_id: String, call_type: CallType, sdp: String, ice: Vec<String>, now: i64, empty: Vec<String>) -> CallSession {
    CallSession {
        call_id,
        peer_identity: from,
        call_type,
        state: CallState::Ringing,
        is_initiator: false,
        created_at: now,
        connected_at: None,
        local_sdp: None,
        remote_sdp: Some(sdp),
        ice_candidates_local: empty,
        ice_candidates_remote: ice,
    }
}

/// Whether `after` is `before` with call `i` (if any) replaced by `c`.
pub open spec fn updated_at(before: Seq<CallSession>, after: Seq<CallSession>, i: int, c: CallSession) -> bool {
    if i >= 0 { after == before.update(i, c) } else { after == before }
}

impl SignalingClient {
    /// Apply a message from peer `from` received at time `now`. An `Invite`
    /// stores a new `Ringing` call; `Ringing`, `Accept`, `IceCandidate` and
    /// `MediaChange` update the call they name (if known); `Reject` and
    /// `End` remove it; `Heartbeat` changes nothing.
    pub fn handle_incoming(&mut self, from: String, msg: SignalingMessage, now: i64)
        ensures
            final(self).spec_identity() == old(self).spec_identity(),
            ({
                let calls = old(self).spec_calls();
                let after = final(self).spec_calls();
                match msg {
                    SignalingMessage::Invite { call_id, call_type, sdp, ice_candidates } =>
                        exists|empty: Vec<String>| empty@.len() == 0
                            && after == #[trigger] calls_with(calls, incoming_call(from, call_id, call_type, sdp, ice_candidates, now, empty)),
                    SignalingMessage::Ringing { call_id } => {
                        let i = call_pos(calls, call_id@);
                        updated_at(calls, after, i, CallSession { state: CallState::Ringing, ..calls[i] })
                    },
                    SignalingMessage::Accept { call_id, sdp, ice_candidates } => {
                        let i = call_pos(calls, call_id@);
                        updated_at(calls, after, i, CallSession {
                            state: CallState::Connected,
                            connected_at: Some(now),
                            remote_sdp: Some(sdp),
                            ice_candidates_remote: ice_candidates,
                            ..calls[i]
                        })
                    },
                    SignalingMessage::Reject { call_id, .. } => after == calls_without(calls, call_id@),
                    SignalingMessage::End { call_id } => after == calls_without(calls, call_id@),
                    SignalingMessage::IceCandidate { call_id, candidate } => {
                        let i = call_pos(calls, call_id@);
                        if i < 0 {
                            after == calls
                        } else {
                            &&& after.len() == calls.len()
                            &&& forall|j: int| 0 <= j < calls.len() && j != i ==> after[j] == calls[j]
                            &&& after[i].ice_candidates_remote@ == calls[i].ice_candidates_remote@.push(candidate)
                            &&& after[i] == CallSession { ice_candidates_remote: after[i].ice_candidates_remote, ..calls[i] }
                        }
                    },
                    SignalingMessage::MediaChange { call_id, sdp } => {
                        let i = call_pos(calls, call_id@);
                        updated_at(calls, after, i, CallSession { remote_sdp: Some(sdp), ..calls[i] })
                    },
                    SignalingMessage::Heartbeat { .. } => after == calls,
                }
            }),
    {
        match msg {
            SignalingMessage::Invite { call_id, call_type, sdp, ice_candidates } => {
                let empty: Vec<String> = Vec::new();
                let ghost e = empty;
                let ghost expected = incoming_call(from, call_id, call_type, sdp, ice_candidates, now, empty);
                let call = CallSession {
                    call_id,
                    peer_identity: from,
                    call_type,
                    state: CallState::Ringing,
                    is_initiator: false,
                    created_at: now,
                    connected_at: None,
                    local_sdp: None,
                    remote_sdp: Some(sdp),
                    ice_candidates_local: empty,
                    ice_candidates_remote: ice_candidates,
                };
                assert(call == expected);
                self.store(call);
                assert(e@.len() == 0);
                assert(self.calls@ == calls_with(old(self).calls@, incoming_call(from, call_id, call_type, sdp, ice_candidates, now, e)));
            },
            SignalingMessage::Ringing { call_id } => {
                match self.find(call_id.as_str()) {
                    None => {},
                    Some(i) => {
                        let mut c = placeholder();
                        self.calls.set_and_swap(i, &mut c);
                        c.state = CallState::Ringing;
                        self.calls.set_and_swap(i, &mut c);
                        assert(self.calls@ =~= old(self).calls@.update(i as int, CallSession { state: CallState::Ringing, ..old(self).calls@[i as int] }));
                    },
                }
            },
            SignalingMessage::Accept { call_id, sdp, ice_candidates } => {
                match self.find(call_id.as_str()) {
                    None => {},
                    Some(i) => {
                        let mut c = placeholder();
                        self.calls.set_and_swap(i, &mut c);
                        c.state = CallState::Connected;
                        c.connected_at = Some(now);
                        c.remote_sdp = Some(sdp);
                        c.ice_candidates_remote = ice_candidates;
                        self.calls.set_and_swap(i, &mut c);
                        assert(self.calls@ =~= old(self).calls@.update(i as int, CallSession {
                            state: CallState::Connected,
                            connected_at: Some(now),
                            remote_sdp: Some(sdp),
                            ice_candidates_remote: ice_candidates,
                            ..old(self).calls@[i as int]
                        }));
                    },
                }
            },
            SignalingMessage::Reject { call_id, .. } => {
                self.remove_call(call_id.as_str());
            },
            SignalingMessage::End { call_id } => {
                self.remove_call(call_id.as_str());
            },
            SignalingMessage::IceCandidate { call_id, candidate } => {
                match self.find(call_id.as_str()) {
                    None => {},
                    Some(i) => {
                        let mut c = placeholder();
                        self.calls.set_and_swap(i, &mut c);
                        c.ice_candidates_remote.push(candidate);
                        self.calls.set_and_swap(i, &mut c);
                    },
                }
            },
            SignalingMessage::MediaChange { call_id, sdp } => {
                match self.find(call_id.as_str()) {
                    None => {},
                    Some(i) => {
                        let mut c = placeholder();
                        self.calls.set_and_swap(i, &mut c);
                        c.remote_sdp = Some(sdp);
                        self.calls.set_and_swap(i, &mut c);
                        assert(self.calls@ =~= old(self).calls@.update(i as int, CallSession { remote_sdp: Some(sdp), ..old(self).calls@[i as int] }));
                    },
                }
            },
            SignalingMessage::Heartbeat { .. } => {},
        }
    }
}

} // verus!
