//! Call media: SRTP protection, the media pipeline and ICE/STUN framing.
use vstd::prelude::*;

pub mod srtp;
pub mod media;
pub mod ice;
pub mod calls;
pub mod conference;

verus! {

/// Summary of a call's UDP media session.
#[derive(Debug, Clone)]
pub struct MediaSessionInfo {
    pub local_addr: String,
    pub local_candidates: Vec<String>,
    pub connected: bool,
}

/// The track a media frame belongs to.
#[derive(Debug, Clone, Copy, PartialEq, Eq, Structural)]
pub enum MediaFrameKind {
    Video,
    Screen,
    Voice,
}

/// Kind of a call.
#[derive(Debug, Clone, Copy, PartialEq, Eq, Structural)]
pub enum CallType {
    Audio,
    Video,
    ScreenShare,
}

/// Lifecycle state of a call.
#[derive(Debug, Clone, Copy, PartialEq, Eq, Structural)]
pub enum CallStatus {
    Initiating,
    Ringing,
    Connected,
    Muted,
    ScreenSharing,
    Ended,
    Missed,
    Rejected,
    Failed,
}

} // verus!
