//! Call bookkeeping: the active calls, their state changes and the call
//! history.
use vstd::prelude::*;
use vstd::string::StringExecFns;
use crate::primitives;
use super::{CallStatus, CallType};

verus! {

/// An active call.
#[derive(Debug, Clone)]
pub struct CallSession {
    pub call_id: String,
    pub peer_onion: String,
    pub is_initiator: bool,
    pub status: CallStatus,
    /// Unix time in seconds when the call started.
    pub started_at: i64,
    pub call_type: CallType,
    pub audio_muted: bool,
    pub video_enabled: bool,
    pub screen_sharing: bool,
    pub ice_candidates: Vec<String>,
}

/// A call in the history.
#[derive(Debug, Clone)]
pub struct CallLogEntry {
    pub id: String,
    pub peer_onion: String,
    pub call_type: CallType,
    /// "outgoing" for calls we placed, "incoming" otherwise.
    pub direction: String,
    pub started_at: i64,
    pub ended_at: Option<i64>,
    pub duration_secs: Option<i64>,
    pub status: CallStatus,
}

/// Why a call operation was refused.
#[derive(Debug, Clone, Copy, PartialEq, Eq, Structural)]
pub enum CallError {
    /// No active call has the given id.
    NotFound,
    /// The call is not ringing, so it cannot be answered.
    NotRinging,
    /// The call is not connected, so screen sharing cannot start.
    NotConnected,
}

/// Index of the first call with id `id`, or -1.
pub open spec fn call_index(calls: Seq<CallSession>, id: Seq<char>) -> int
    decreases calls.len(),
{
    if calls.len() == 0 {
        -1
    } else if calls.last().call_id@ == id {
        let earlier = call_index(calls.drop_last(), id);
        if earlier >= 0 { earlier } else { calls.len() - 1 }
    } else {
        call_index(calls.drop_last(), id)
    }
}

pub proof fn lemma_call_index(calls: Seq<CallSession>, id: Seq<char>)
    ensures
        -1 <= call_index(calls, id) < calls.len(),
        call_index(calls, id) >= 0 ==> calls[call_index(calls, id)].call_id@ == id,
        call_index(calls, id) >= 0 ==> forall|j: int| 0 <= j < call_index(calls, id) ==> calls[j].call_id@ != id,
        call_index(calls, id) == -1 ==> forall|j: int| 0 <= j < calls.len() ==> calls[j].call_id@ != id,
    decreases calls.len(),
{
    if calls.len() > 0 {
        lemma_call_index(calls.drop_last(), id);
        assert forall|j: int| 0 <= j < calls.len() - 1 implies calls.drop_last()[j] == calls[j] by {}
    }
}

/// Active calls and the call history.
pub struct WebRTCState {
    pub active_calls: Vec<CallSession>,
    pub call_history: Vec<CallLogEntry>,
}

/// A new call session in state `Initiating`, with video on.
pub fn build_session(call_id: &str, peer_onion: &str, is_initiator: bool, call_type: CallType, now: i64) -> (r: CallSession)
    ensures
        r.call_id@ == call_id@,
        r.peer_onion@ == peer_onion@,
        r.is_initiator == is_initiator,
        r.status == CallStatus::Initiating,
        r.started_at == now,
        r.call_type == call_type,
        !r.audio_muted,
        r.video_enabled,
        !r.screen_sharing,
        r.ice_candidates@.len() == 0,
{
    CallSession {
        call_id: call_id.to_owned(),
        peer_onion: peer_onion.to_owned(),
        is_initiator,
        status: CallStatus::Initiating,
        started_at: now,
        call_type,
        audio_muted: false,
        video_enabled: true,
        screen_sharing: false,
        ice_candidates: Vec::new(),
    }
}

/// How the history names a call's direction.
pub open spec fn direction_text(outgoing: bool) -> Seq<char> {
    if outgoing { "outgoing"@ } else { "incoming"@ }
}

/// The history entry for `call` when it reaches `status`.
fn log_entry(id: String, call: &CallSession, status: CallStatus, ended_at: Option<i64>, duration_secs: Option<i64>) -> (e: CallLogEntry)
    ensures
        e.id@ == id@,
        e.peer_onion@ == call.peer_onion@,
        e.call_type == call.call_type,
        e.direction@ == direction_text(call.is_initiator),
        e.started_at == call.started_at,
        e.ended_at == ended_at,
        e.duration_secs == duration_secs,
        e.status == status,
{
    CallLogEntry {
        id,
        peer_onion: call.peer_onion.clone(),
        call_type: call.call_type,
        direction: if call.is_initiator { String::from_str("outgoing") } else { String::from_str("incoming") },
        started_at: call.started_at,
        ended_at,
        duration_secs,
        status,
    }
}

/// Whether two sessions hold the same values.
pub open spec fn same_session(a: CallSession, b: CallSession) -> bool {
    &&& a.call_id@ == b.call_id@
    &&& a.peer_onion@ == b.peer_onion@
    &&& a.is_initiator == b.is_initiator
    &&& a.status == b.status
    &&& a.started_at == b.started_at
    &&& a.call_type == b.call_type
    &&& a.audio_muted == b.audio_muted
    &&& a.video_enabled == b.video_enabled
    &&& a.screen_sharing == b.screen_sharing
    &&& a.ice_candidates@.len() == b.ice_candidates@.len()
    &&& forall|k: int| 0 <= k < a.ice_candidates@.len() ==> a.ice_candidates@[k]@ == b.ice_candidates@[k]@
}

fn copy_strings(v: &Vec<String>) -> (r: Vec<String>)
    ensures
        r@.len() == v@.len(),
        forall|k: int| 0 <= k < v@.len() ==> r@[k]@ == v@[k]@,
{
    let mut r: Vec<String> = Vec::new();
    let mut i: usize = 0;
    while i < v.len()
        invariant
            i <= v@.len(),
            r@.len() == i,
            forall|k: int| 0 <= k < i ==> r@[k]@ == v@[k]@,
        decreases v@.len() - i,
    {
        r.push(v[i].clone());
        i = i + 1;
    }
    r
}

fn copy_session(c: &CallSession) -> (r: CallSession)
    ensures
        same_session(r, *c),
{
    CallSession {
        call_id: c.call_id.clone(),
        peer_onion: c.peer_onion.clone(),
        is_initiator: c.is_initiator,
        status: c.status,
        started_at: c.started_at,
        call_type: c.call_type,
        audio_muted: c.audio_muted,
        video_enabled: c.video_enabled,
        screen_sharing: c.screen_sharing,
        ice_candidates: copy_strings(&c.ice_candidates),
    }
}

/// Whether a call that started at `c.started_at` is more than an hour old
/// at `now`.
pub open spec fn is_stale(c: CallSession, now: i64) -> bool {
    now - c.started_at > 3600
}

/// Whether two history entries hold the same values.
pub open spec fn same_entry(a: CallLogEntry, b: CallLogEntry) -> bool {
    &&& a.id@ == b.id@ && a.peer_onion@ == b.peer_onion@ && a.call_type == b.call_type
    &&& a.direction@ == b.direction@ && a.started_at == b.started_at && a.ended_at == b.ended_at
    &&& a.duration_secs == b.duration_secs && a.status == b.status
}

fn copy_entry(e: &CallLogEntry) -> (r: CallLogEntry)
    ensures
        same_entry(r, *e),
{
    CallLogEntry {
        id: e.id.clone(),
        peer_onion: e.peer_onion.clone(),
        call_type: e.call_type,
        direction: e.direction.clone(),
        started_at: e.started_at,
        ended_at: e.ended_at,
        duration_secs: e.duration_secs,
        status: e.status,
    }
}

/// Seconds from `start` to `end`, when that fits.
pub open spec fn spec_duration(start: i64, end: i64) -> Option<i64> {
    if i64::MIN <= end - start <= i64::MAX { Some((end - start) as i64) } else { None }
}

fn duration(start: i64, end: i64) -> (r: Option<i64>)
    ensures
        r == spec_duration(start, end),
{
    end.checked_sub(start)
}

impl WebRTCState {
    pub fn new() -> (r: Self)
        ensures
            r.active_calls@.len() == 0,
            r.call_history@.len() == 0,
    {
        WebRTCState { active_calls: Vec::new(), call_history: Vec::new() }
    }

    /// Position of the active call with id `call_id`.
    pub fn find_call(&self, call_id: &str) -> (r: Option<usize>)
        ensures
            match r {
                None => call_index(self.active_calls@, call_id@) == -1,
                Some(i) => i == call_index(self.active_calls@, call_id@),
            },
    {
        proof { lemma_call_index(self.active_calls@, call_id@); }
        let mut i: usize = 0;
        while i < self.active_calls.len()
            invariant
                i <= self.active_calls@.len(),
                forall|j: int| 0 <= j < i ==> self.active_calls@[j].call_id@ != call_id@,
                -1 <= call_index(self.active_calls@, call_id@) < self.active_calls@.len(),
                call_index(self.active_calls@, call_id@) >= 0 ==> self.active_calls@[call_index(self.active_calls@, call_id@)].call_id@ == call_id@,
                call_index(self.active_calls@, call_id@) >= 0 ==> forall|j: int| 0 <= j < call_index(self.active_calls@, call_id@) ==> self.active_calls@[j].call_id@ != call_id@,
                call_index(self.active_calls@, call_id@) == -1 ==> forall|j: int| 0 <= j < self.active_calls@.len() ==> self.active_calls@[j].call_id@ != call_id@,
            decreases self.active_calls@.len() - i,
        {
            if primitives::str_eq(self.active_calls[i].call_id.as_str(), call_id) {
                return Some(i);
            }
            i = i + 1;
        }
        None
    }

    /// Start an outgoing call: it is recorded, connected at once, and logged
    /// as a connected outgoing call.
    pub fn start_call(&mut self, call_id: &str, peer_onion: &str, call_type: CallType, now: i64, log_id: String) -> (r: CallSession)
        ensures
            r.call_id@ == call_id@ && r.peer_onion@ == peer_onion@ && r.is_initiator,
            r.status == CallStatus::Initiating,
            r.call_type == call_type,
            r.started_at == now,
            r.video_enabled == (call_type != CallType::Audio),
            final(self).active_calls@.len() == old(self).active_calls@.len() + 1,
            final(self).active_calls@.last().call_id@ == call_id@,
            final(self).active_calls@.last().status == CallStatus::Connected,
            forall|j: int| 0 <= j < old(self).active_calls@.len() ==> final(self).active_calls@[j] == old(self).active_calls@[j],
            final(self).call_history@.len() == old(self).call_history@.len() + 1,
            final(self).call_history@.last().status == CallStatus::Connected,
            final(self).call_history@.last().direction@ == direction_text(true),
            final(self).call_history@.last().id@ == log_id@,
    {
        let mut session = build_session(call_id, peer_onion, true, call_type, now);
        if matches!(call_type, CallType::Audio) {
            session.video_enabled = false;
        }
        let mut connected = copy_session(&session);
        connected.status = CallStatus::Connected;
        let entry = log_entry(log_id, &connected, CallStatus::Connected, None, None);
        self.active_calls.push(connected);
        self.call_history.push(entry);
        session
    }

    /// Record an incoming call, ringing; audio calls start with video off.
    pub fn establish_incoming_call(&mut self, call_id: &str, peer_onion: &str, call_type: CallType, now: i64) -> (r: CallSession)
        ensures
            r.call_id@ == call_id@ && r.peer_onion@ == peer_onion@ && !r.is_initiator,
            r.status == CallStatus::Ringing,
            r.call_type == call_type,
            r.video_enabled == (call_type != CallType::Audio),
            final(self).active_calls@.drop_last() == old(self).active_calls@,
            final(self).active_calls@.len() == old(self).active_calls@.len() + 1,
            same_session(final(self).active_calls@.last(), r),
            final(self).call_history@ == old(self).call_history@,
    {
        let mut session = build_session(call_id, peer_onion, false, call_type, now);
        if matches!(call_type, CallType::Audio) {
            session.video_enabled = false;
        }
        session.status = CallStatus::Ringing;
        let out = copy_session(&session);
        self.active_calls.push(session);
        assert(self.active_calls@.drop_last() =~= old(self).active_calls@);
        out
    }

    /// Answer a ringing call, which becomes connected.
    pub fn answer_video_call(&mut self, call_id: &str) -> (r: Result<CallSession, CallError>)
        ensures
            ({
                let i = call_index(old(self).active_calls@, call_id@);
                if i < 0 {
                    r == Err::<CallSession, CallError>(CallError::NotFound) && final(self).active_calls@ == old(self).active_calls@
                } else if old(self).active_calls@[i].status != CallStatus::Ringing {
                    r == Err::<CallSession, CallError>(CallError::NotRinging) && final(self).active_calls@ == old(self).active_calls@
                } else {
                    &&& final(self).active_calls@.len() == old(self).active_calls@.len()
                    &&& forall|j: int| 0 <= j < old(self).active_calls@.len() && j != i ==> final(self).active_calls@[j] == old(self).active_calls@[j]
                    &&& final(self).active_calls@[i].status == CallStatus::Connected
                    &&& final(self).active_calls@[i].call_id@ == call_id@
                    &&& r matches Ok(c) && c.status == CallStatus::Connected && c.call_id@ == call_id@
                }
            }),
            final(self).call_history@ == old(self).call_history@,
    {
        match self.find_call(call_id) {
            None => Err(CallError::NotFound),
            Some(i) => {
                proof { lemma_call_index(self.active_calls@, call_id@); }
                if !matches!(self.active_calls[i].status, CallStatus::Ringing) {
                    return Err(CallError::NotRinging);
                }
                let mut call = copy_session(&self.active_calls[i]);
                call.status = CallStatus::Connected;
                let out = copy_session(&call);
                self.active_calls.set(i, call);
                Ok(out)
            },
        }
    }

    /// End a call: it leaves the active calls and is logged as ended at
    /// `now` with its duration.
    pub fn end_video_call(&mut self, call_id: &str, now: i64) -> (r: Result<(), CallError>)
        ensures
            ({
                let i = call_index(old(self).active_calls@, call_id@);
                if i < 0 {
                    r == Err::<(), CallError>(CallError::NotFound) && final(self).active_calls@ == old(self).active_calls@
                        && final(self).call_history@ == old(self).call_history@
                } else {
                    let c = old(self).active_calls@[i];
                    &&& r == Ok::<(), CallError>(())
                    &&& final(self).active_calls@ == old(self).active_calls@.remove(i)
                    &&& final(self).call_history@.len() == old(self).call_history@.len() + 1
                    &&& final(self).call_history@.drop_last() == old(self).call_history@
                    &&& final(self).call_history@.last().status == CallStatus::Ended
                    &&& final(self).call_history@.last().peer_onion@ == c.peer_onion@
                    &&& final(self).call_history@.last().call_type == c.call_type
                    &&& final(self).call_history@.last().started_at == c.started_at
                    &&& final(self).call_history@.last().ended_at == Some(now)
                    &&& final(self).call_history@.last().duration_secs == spec_duration(c.started_at, now)
                    &&& final(self).call_history@.last().direction@ == direction_text(c.is_initiator)
                }
            }),
    {
        self.finish_call(call_id, now, primitives::uuid_v4(), CallStatus::Ended)
    }

    /// Reject a call: it leaves the active calls and is logged as rejected.
    pub fn send_call_reject(&mut self, call_id: &str, now: i64) -> (r: Result<(), CallError>)
        ensures
            ({
                let i = call_index(old(self).active_calls@, call_id@);
                if i < 0 {
                    r == Err::<(), CallError>(CallError::NotFound) && final(self).active_calls@ == old(self).active_calls@
                        && final(self).call_history@ == old(self).call_history@
                } else {
                    let c = old(self).active_calls@[i];
                    &&& r == Ok::<(), CallError>(())
                    &&& final(self).active_calls@ == old(self).active_calls@.remove(i)
                    &&& final(self).call_history@.len() == old(self).call_history@.len() + 1
                    &&& final(self).call_history@.drop_last() == old(self).call_history@
                    &&& final(self).call_history@.last().status == CallStatus::Rejected
                    &&& final(self).call_history@.last().peer_onion@ == c.peer_onion@
                    &&& final(self).call_history@.last().call_type == c.call_type
                    &&& final(self).call_history@.last().started_at == c.started_at
                    &&& final(self).call_history@.last().ended_at == Some(now)
                    &&& final(self).call_history@.last().duration_secs == spec_duration(c.started_at, now)
                    &&& final(self).call_history@.last().direction@ == direction_text(c.is_initiator)
                }
            }),
    {
        self.finish_call(call_id, now, primitives::uuid_v4(), CallStatus::Rejected)
    }

    fn finish_call(&mut self, call_id: &str, now: i64, log_id: String, status: CallStatus) -> (r: Result<(), CallError>)
        ensures
            ({
                let i = call_index(old(self).active_calls@, call_id@);
                if i < 0 {
                    r == Err::<(), CallError>(CallError::NotFound) && final(self).active_calls@ == old(self).active_calls@
                        && final(self).call_history@ == old(self).call_history@
                } else {
                    let c = old(self).active_calls@[i];
                    &&& r == Ok::<(), CallError>(())
                    &&& final(self).active_calls@ == old(self).active_calls@.remove(i)
                    &&& final(self).call_history@.len() == old(self).call_history@.len() + 1
                    &&& final(self).call_history@.drop_last() == old(self).call_history@
                    &&& final(self).call_history@.last().status == status
                    &&& final(self).call_history@.last().id@ == log_id@
                    &&& final(self).call_history@.last().peer_onion@ == c.peer_onion@
                    &&& final(self).call_history@.last().call_type == c.call_type
                    &&& final(self).call_history@.last().started_at == c.started_at
                    &&& final(self).call_history@.last().ended_at == Some(now)
                    &&& final(self).call_history@.last().duration_secs == spec_duration(c.started_at, now)
                    &&& final(self).call_history@.last().direction@ == direction_text(c.is_initiator)
                }
            }),
    {
        match self.find_call(call_id) {
            None => Err(CallError::NotFound),
            Some(i) => {
                proof { lemma_call_index(self.active_calls@, call_id@); }
                let d = duration(self.active_calls[i].started_at, now);
                let entry = log_entry(log_id, &self.active_calls[i], status, Some(now), d);
                self.call_history.push(entry);
                self.active_calls.remove(i);
                assert(self.call_history@.drop_last() =~= old(self).call_history@);
                Ok(())
            },
        }
    }

    /// Start screen sharing on a connected call.
    pub fn start_screen_share(&mut self, call_id: &str) -> (r: Result<(), CallError>)
        ensures
            ({
                let i = call_index(old(self).active_calls@, call_id@);
                if i < 0 {
                    r == Err::<(), CallError>(CallError::NotFound) && final(self).active_calls@ == old(self).active_calls@
                } else if old(self).active_calls@[i].status != CallStatus::Connected {
                    r == Err::<(), CallError>(CallError::NotConnected) && final(self).active_calls@ == old(self).active_calls@
                } else {
                    &&& r == Ok::<(), CallError>(())
                    &&& final(self).active_calls@.len() == old(self).active_calls@.len()
                    &&& forall|j: int| 0 <= j < old(self).active_calls@.len() && j != i ==> final(self).active_calls@[j] == old(self).active_calls@[j]
                    &&& final(self).active_calls@[i].screen_sharing
                    &&& final(self).active_calls@[i].call_type == CallType::ScreenShare
                    &&& final(self).active_calls@[i].status == CallStatus::ScreenSharing
                }
            }),
            final(self).call_history@ == old(self).call_history@,
    {
        match self.find_call(call_id) {
            None => Err(CallError::NotFound),
            Some(i) => {
                proof { lemma_call_index(self.active_calls@, call_id@); }
                if !matches!(self.active_calls[i].status, CallStatus::Connected) {
                    return Err(CallError::NotConnected);
                }
                let mut call = copy_session(&self.active_calls[i]);
                call.screen_sharing = true;
                call.call_type = CallType::ScreenShare;
                call.status = CallStatus::ScreenSharing;
                self.active_calls.set(i, call);
                Ok(())
            },
        }
    }

    /// Stop screen sharing: the call goes back to video or audio and is
    /// connected.
    pub fn stop_screen_share(&mut self, call_id: &str) -> (r: Result<(), CallError>)
        ensures
            ({
                let i = call_index(old(self).active_calls@, call_id@);
                if i < 0 {
                    r == Err::<(), CallError>(CallError::NotFound) && final(self).active_calls@ == old(self).active_calls@
                } else {
                    let c = old(self).active_calls@[i];
                    &&& r == Ok::<(), CallError>(())
                    &&& final(self).active_calls@.len() == old(self).active_calls@.len()
                    &&& forall|j: int| 0 <= j < old(self).active_calls@.len() && j != i ==> final(self).active_calls@[j] == old(self).active_calls@[j]
                    &&& !final(self).active_calls@[i].screen_sharing
                    &&& final(self).active_calls@[i].call_type == (if c.video_enabled { CallType::Video } else { CallType::Audio })
                    &&& final(self).active_calls@[i].status == CallStatus::Connected
                }
            }),
            final(self).call_history@ == old(self).call_history@,
    {
        match self.find_call(call_id) {
            None => Err(CallError::NotFound),
            Some(i) => {
                proof { lemma_call_index(self.active_calls@, call_id@); }
                let mut call = copy_session(&self.active_calls[i]);
                call.screen_sharing = false;
                call.call_type = if call.video_enabled { CallType::Video } else { CallType::Audio };
                call.status = CallStatus::Connected;
                self.active_calls.set(i, call);
                Ok(())
            },
        }
    }

    /// Toggle the microphone: a muted call is `Muted`, an unmuted one
    /// `Connected`. Returns whether audio is now muted.
    pub fn toggle_audio_mute(&mut self, call_id: &str) -> (r: Result<bool, CallError>)
        ensures
            ({
                let i = call_index(old(self).active_calls@, call_id@);
                if i < 0 {
                    r == Err::<bool, CallError>(CallError::NotFound) && final(self).active_calls@ == old(self).active_calls@
                } else {
                    let m = !old(self).active_calls@[i].audio_muted;
                    &&& r == Ok::<bool, CallError>(m)
                    &&& final(self).active_calls@.len() == old(self).active_calls@.len()
                    &&& forall|j: int| 0 <= j < old(self).active_calls@.len() && j != i ==> final(self).active_calls@[j] == old(self).active_calls@[j]
                    &&& final(self).active_calls@[i].audio_muted == m
                    &&& final(self).active_calls@[i].status == (if m { CallStatus::Muted } else { CallStatus::Connected })
                }
            }),
            final(self).call_history@ == old(self).call_history@,
    {
        match self.find_call(call_id) {
            None => Err(CallError::NotFound),
            Some(i) => {
                proof { lemma_call_index(self.active_calls@, call_id@); }
                let mut call = copy_session(&self.active_calls[i]);
                call.audio_muted = !call.audio_muted;
                call.status = if call.audio_muted { CallStatus::Muted } else { CallStatus::Connected };
                let m = call.audio_muted;
                self.active_calls.set(i, call);
                Ok(m)
            },
        }
    }

    /// Toggle the camera. Returns whether video is now enabled.
    pub fn toggle_video(&mut self, call_id: &str) -> (r: Result<bool, CallError>)
        ensures
            ({
                let i = call_index(old(self).active_calls@, call_id@);
                if i < 0 {
                    r == Err::<bool, CallError>(CallError::NotFound) && final(self).active_calls@ == old(self).active_calls@
                } else {
                    let v = !old(self).active_calls@[i].video_enabled;
                    &&& r == Ok::<bool, CallError>(v)
                    &&& final(self).active_calls@.len() == old(self).active_calls@.len()
                    &&& forall|j: int| 0 <= j < old(self).active_calls@.len() && j != i ==> final(self).active_calls@[j] == old(self).active_calls@[j]
                    &&& final(self).active_calls@[i].video_enabled == v
                    &&& final(self).active_calls@[i].status == old(self).active_calls@[i].status
                }
            }),
            final(self).call_history@ == old(self).call_history@,
    {
        match self.find_call(call_id) {
            None => Err(CallError::NotFound),
            Some(i) => {
                proof { lemma_call_index(self.active_calls@, call_id@); }
                let mut call = copy_session(&self.active_calls[i]);
                call.video_enabled = !call.video_enabled;
                let v = call.video_enabled;
                self.active_calls.set(i, call);
                Ok(v)
            },
        }
    }

    /// Remember an ICE candidate for a call.
    pub fn add_ice_candidate(&mut self, call_id: &str, candidate: &str) -> (r: Result<(), CallError>)
        ensures
            ({
                let i = call_index(old(self).active_calls@, call_id@);
                if i < 0 {
                    r == Err::<(), CallError>(CallError::NotFound) && final(self).active_calls@ == old(self).active_calls@
                } else {
                    &&& r == Ok::<(), CallError>(())
                    &&& final(self).active_calls@.len() == old(self).active_calls@.len()
                    &&& forall|j: int| 0 <= j < old(self).active_calls@.len() && j != i ==> final(self).active_calls@[j] == old(self).active_calls@[j]
                    &&& final(self).active_calls@[i].ice_candidates@.len() == old(self).active_calls@[i].ice_candidates@.len() + 1
                    &&& final(self).active_calls@[i].ice_candidates@.last()@ == candidate@
                }
            }),
            final(self).call_history@ == old(self).call_history@,
    {
        match self.find_call(call_id) {
            None => Err(CallError::NotFound),
            Some(i) => {
                proof { lemma_call_index(self.active_calls@, call_id@); }
                let mut call = copy_session(&self.active_calls[i]);
                call.ice_candidates.push(candidate.to_owned());
                self.active_calls.set(i, call);
                Ok(())
            },
        }
    }

    /// Start an outgoing video call to `recipient_onion` at time `now` under
    /// a fresh random call id (see `start_call`).
    pub fn start_video_call(&mut self, recipient_onion: &str, now: i64) -> (r: CallSession)
        ensures
            r.peer_onion@ == recipient_onion@ && r.is_initiator && r.status == CallStatus::Initiating,
            r.call_type == CallType::Video && r.video_enabled && r.started_at == now,
            final(self).active_calls@.len() == old(self).active_calls@.len() + 1,
            final(self).active_calls@.last().call_id@ == r.call_id@,
            final(self).active_calls@.last().status == CallStatus::Connected,
            forall|j: int| 0 <= j < old(self).active_calls@.len() ==> final(self).active_calls@[j] == old(self).active_calls@[j],
            final(self).call_history@.len() == old(self).call_history@.len() + 1,
            final(self).call_history@.last().status == CallStatus::Connected,
    {
        let call_id = primitives::uuid_v4();
        self.start_call(call_id.as_str(), recipient_onion, CallType::Video, now, primitives::uuid_v4())
    }

    /// Start an outgoing audio call (video off) to `recipient_onion` at
    /// time `now` under a fresh random call id (see `start_call`).
    pub fn start_audio_call(&mut self, recipient_onion: &str, now: i64) -> (r: CallSession)
        ensures
            r.peer_onion@ == recipient_onion@ && r.is_initiator && r.status == CallStatus::Initiating,
            r.call_type == CallType::Audio && !r.video_enabled && r.started_at == now,
            final(self).active_calls@.len() == old(self).active_calls@.len() + 1,
            final(self).active_calls@.last().call_id@ == r.call_id@,
            final(self).active_calls@.last().status == CallStatus::Connected,
            forall|j: int| 0 <= j < old(self).active_calls@.len() ==> final(self).active_calls@[j] == old(self).active_calls@[j],
            final(self).call_history@.len() == old(self).call_history@.len() + 1,
            final(self).call_history@.last().status == CallStatus::Connected,
    {
        let call_id = primitives::uuid_v4();
        self.start_call(call_id.as_str(), recipient_onion, CallType::Audio, now, primitives::uuid_v4())
    }

    /// A copy of the active call `call_id`.
    pub fn get_call_status(&self, call_id: &str) -> (r: Result<CallSession, CallError>)
        ensures
            ({
                let i = call_index(self.active_calls@, call_id@);
                if i < 0 {
                    r == Err::<CallSession, CallError>(CallError::NotFound)
                } else {
                    r matches Ok(c) && same_session(c, self.active_calls@[i])
                }
            }),
    {
        match self.find_call(call_id) {
            None => Err(CallError::NotFound),
            Some(i) => {
                proof { lemma_call_index(self.active_calls@, call_id@); }
                Ok(copy_session(&self.active_calls[i]))
            },
        }
    }

    /// Copies of the history entries, oldest first.
    pub fn get_call_history(&self) -> (r: Vec<CallLogEntry>)
        ensures
            r@.len() == self.call_history@.len(),
            forall|j: int| 0 <= j < r@.len() ==> same_entry(#[trigger] r@[j], self.call_history@[j]),
    {
        let mut r: Vec<CallLogEntry> = Vec::new();
        let mut i: usize = 0;
        while i < self.call_history.len()
            invariant
                i <= self.call_history@.len(),
                r@.len() == i,
                forall|j: int| 0 <= j < i ==> same_entry(#[trigger] r@[j], self.call_history@[j]),
            decreases self.call_history@.len() - i,
        {
            r.push(copy_entry(&self.call_history[i]));
            i = i + 1;
        }
        r
    }

    /// Copies of the active calls.
    pub fn get_active_calls(&self) -> (r: Vec<CallSession>)
        ensures
            r@.len() == self.active_calls@.len(),
            forall|j: int| 0 <= j < r@.len() ==> same_session(#[trigger] r@[j], self.active_calls@[j]),
    {
        let mut r: Vec<CallSession> = Vec::new();
        let mut i: usize = 0;
        while i < self.active_calls.len()
            invariant
                i <= self.active_calls@.len(),
                r@.len() == i,
                forall|j: int| 0 <= j < i ==> same_session(#[trigger] r@[j], self.active_calls@[j]),
            decreases self.active_calls@.len() - i,
        {
            r.push(copy_session(&self.active_calls[i]));
            i = i + 1;
        }
        r
    }

    /// Drop the calls that started more than an hour before `now`, logging
    /// each as failed at `now`; their ids are returned in order.
    pub fn cleanup_old_calls(&mut self, now: i64) -> (r: Vec<String>)
        ensures
            final(self).active_calls@ == old(self).active_calls@.filter(|c: CallSession| !is_stale(c, now)),
            ({
                let stale = old(self).active_calls@.filter(|c: CallSession| is_stale(c, now));
                &&& r@.len() == stale.len()
                &&& final(self).call_history@.len() == old(self).call_history@.len() + stale.len()
                &&& final(self).call_history@.take(old(self).call_history@.len() as int) == old(self).call_history@
                &&& forall|k: int| 0 <= k < stale.len() ==> {
                    let e = #[trigger] final(self).call_history@[old(self).call_history@.len() + k];
                    &&& r@[k]@ == stale[k].call_id@
                    &&& e.peer_onion@ == stale[k].peer_onion@
                    &&& e.call_type == stale[k].call_type
                    &&& e.direction@ == direction_text(stale[k].is_initiator)
                    &&& e.started_at == stale[k].started_at
                    &&& e.ended_at == Some(now)
                    &&& e.duration_secs == spec_duration(stale[k].started_at, now)
                    &&& e.status == CallStatus::Failed
                }
            }),
    {
        let ghost calls = self.active_calls@;
        let ghost hist = self.call_history@;
        let mut kept: Vec<CallSession> = Vec::new();
        let mut gone: Vec<String> = Vec::new();
        let mut i: usize = 0;
        proof {
            reveal(Seq::filter);
            assert(calls.take(0) =~= Seq::<CallSession>::empty());
        }
        while i < self.active_calls.len()
            invariant
                i <= self.active_calls@.len(),
                self.active_calls@.len() == calls.len(),
                forall|j: int| i <= j < calls.len() ==> self.active_calls@[j] == calls[j],
                kept@ == calls.take(i as int).filter(|c: CallSession| !is_stale(c, now)),
                gone@.len() == calls.take(i as int).filter(|c: CallSession| is_stale(c, now)).len(),
                self.call_history@.len() == hist.len() + gone@.len(),
                self.call_history@.take(hist.len() as int) == hist,
                forall|k: int| 0 <= k < gone@.len() ==> {
                    let st = calls.take(i as int).filter(|c: CallSession| is_stale(c, now));
                    let e = #[trigger] self.call_history@[hist.len() + k];
                    &&& gone@[k]@ == st[k].call_id@
                    &&& e.peer_onion@ == st[k].peer_onion@
                    &&& e.call_type == st[k].call_type
                    &&& e.direction@ == direction_text(st[k].is_initiator)
                    &&& e.started_at == st[k].started_at
                    &&& e.ended_at == Some(now)
                    &&& e.duration_secs == spec_duration(st[k].started_at, now)
                    &&& e.status == CallStatus::Failed
                },
            decreases self.active_calls@.len() - i,
        {
            proof {
                reveal(Seq::filter);
                assert(calls.take(i + 1).drop_last() =~= calls.take(i as int));
                assert(calls.take(i + 1).last() == calls[i as int]);
            }
            let mut c = build_session("", "", false, CallType::Audio, 0);
            self.active_calls.set_and_swap(i, &mut c);
            assert(c == calls[i as int]);
            let old_enough = now.checked_sub(c.started_at);
            let stale = match old_enough {
                Some(d) => d > 3600,
                None => now > c.started_at,
            };
            assert(stale == is_stale(calls[i as int], now));
            if stale {
                let ghost before = self.call_history@;
                let d = duration(c.started_at, now);
                let entry = log_entry(primitives::uuid_v4(), &c, CallStatus::Failed, Some(now), d);
                self.call_history.push(entry);
                gone.push(c.call_id.clone());
                assert(self.call_history@.take(hist.len() as int) =~= before.take(hist.len() as int));
            } else {
                kept.push(c);
            }
            i = i + 1;
        }
        proof {
            assert(calls.take(i as int) =~= calls);
        }
        self.active_calls = kept;
        gone
    }
}

} // verus!
