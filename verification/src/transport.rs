//! Protected media streams: one SRTP context bound to the synchronisation
//! source (SSRC) that a media session sends or receives on.
use vstd::prelude::*;
use crate::webrtc::srtp::{
    SrtpContext, SrtpState, spec_protect_rtp_step, spec_protect_rtcp_step, spec_unprotect_rtp,
    spec_unprotect_rtcp, rtp_too_short, tag_matches,
};

verus! {

/// An SRTP session for one direction of one media stream.
pub struct SrtpSession {
    session: SrtpContext,
    ssrc: u32,
}

impl SrtpSession {
    /// The state of the SRTP context that protects the stream.
    pub closed spec fn state(&self) -> SrtpState {
        self.session@
    }

    /// The synchronisation source the session was opened for.
    pub closed spec fn spec_ssrc(&self) -> u32 {
        self.ssrc
    }

    pub fn new(session: SrtpContext, ssrc: u32) -> (r: Self)
        ensures
            r.state() == session@,
            r.spec_ssrc() == ssrc,
    {
        SrtpSession { session, ssrc }
    }

    pub fn ssrc(&self) -> (r: u32)
        ensures
            r == self.spec_ssrc(),
    {
        self.ssrc
    }

    /// Encrypt and authenticate an RTP packet of the stream.
    pub fn protect_rtp(&mut self, data: &[u8]) -> (out: Vec<u8>)
        requires
            data@.len() + 10 <= usize::MAX,
        ensures
            (final(self).state(), out@) == spec_protect_rtp_step(old(self).state(), data@),
            final(self).spec_ssrc() == old(self).spec_ssrc(),
    {
        self.session.protect_rtp(data)
    }

    /// Check and decrypt an SRTP packet of the stream.
    pub fn unprotect_rtp(&mut self, data: &[u8]) -> (r: Result<Vec<u8>, &'static str>)
        ensures
            rtp_too_short(data@) ==> r == Err::<Vec<u8>, &'static str>("packet too short"),
            !rtp_too_short(data@) && !tag_matches(old(self).state(), data@)
                ==> r == Err::<Vec<u8>, &'static str>("authentication failed"),
            match spec_unprotect_rtp(old(self).state(), data@) {
                None => final(self).state() == old(self).state(),
                Some((s2, p)) => final(self).state() == s2 && (r matches Ok(q) && q@ == p),
            },
            final(self).spec_ssrc() == old(self).spec_ssrc(),
    {
        self.session.unprotect_rtp(data)
    }

    /// Encrypt and authenticate an RTCP packet of the stream.
    pub fn protect_rtcp(&mut self, data: &[u8]) -> (out: Vec<u8>)
        requires
            data@.len() + 10 <= usize::MAX,
        ensures
            (final(self).state(), out@) == spec_protect_rtcp_step(old(self).state(), data@),
            final(self).spec_ssrc() == old(self).spec_ssrc(),
    {
        self.session.protect_rtcp(data)
    }

    /// Check and decrypt an SRTCP packet of the stream.
    pub fn unprotect_rtcp(&mut self, data: &[u8]) -> (r: Result<Vec<u8>, &'static str>)
        ensures
            data@.len() < 10 ==> r == Err::<Vec<u8>, &'static str>("packet too short"),
            data@.len() >= 10 && !tag_matches(old(self).state(), data@)
                ==> r == Err::<Vec<u8>, &'static str>("authentication failed"),
            match spec_unprotect_rtcp(old(self).state(), data@) {
                None => final(self).state() == old(self).state(),
                Some((s2, p)) => final(self).state() == s2 && (r matches Ok(q) && q@ == p),
            },
            final(self).spec_ssrc() == old(self).spec_ssrc(),
    {
        self.session.unprotect_rtcp(data)
    }
}

} // verus!
