//! Media pipeline for calls: RTP framing of captured frames, one SRTP
//! context per track, and demultiplexing of received packets.
use vstd::prelude::*;
use crate::bytes;
use super::MediaFrameKind;
use super::srtp::{SrtpContext, SrtpProfile, SrtpState};
use super::srtp;

verus! {

/// RTP clock rate of the audio track.
pub const AUDIO_CLOCK_RATE: u32 = 48000;

/// Largest frame payload a pipeline accepts for protection.
pub const MAX_PAYLOAD_BYTES: usize = 16384;

/// A single captured or received media sample.
#[derive(Debug, Clone)]
pub struct CapturedFrame {
    /// Which track this frame belongs to.
    pub kind: MediaFrameKind,
    /// RTP timestamp in the track's clock rate.
    pub rtp_timestamp: u32,
    /// Synchronisation source of the track.
    pub ssrc: u32,
    /// Media payload.
    pub data: Vec<u8>,
}

impl CapturedFrame {
    pub fn new(kind: MediaFrameKind, rtp_timestamp: u32, ssrc: u32, data: Vec<u8>) -> (r: Self)
        ensures
            r.kind == kind,
            r.rtp_timestamp == rtp_timestamp,
            r.ssrc == ssrc,
            r.data@ == data@,
    {
        CapturedFrame { kind, rtp_timestamp, ssrc, data }
    }
}

/// Payload header placed in front of a captured frame.
#[derive(Debug, Clone, PartialEq, Eq, Structural)]
pub struct FrameHeader {
    pub kind: u8,
    pub track: u8,
    pub ctx_seq: u16,
    pub rtp_timestamp: u32,
    pub payload_len: u32,
}

impl FrameHeader {
    /// Builds a header; the payload length is stored modulo 2^32.
    pub fn from(u8kind: u8, track: u8, ctx_seq: u16, rtp_timestamp: u32, payload_len: usize) -> (r: Self)
        ensures
            r == (FrameHeader { kind: u8kind, track, ctx_seq, rtp_timestamp, payload_len: payload_len as u32 }),
    {
        FrameHeader { kind: u8kind, track, ctx_seq, rtp_timestamp, payload_len: payload_len as u32 }
    }
}

/// RTP payload type used for each track.
pub open spec fn payload_type(kind: MediaFrameKind) -> u8 {
    match kind {
        MediaFrameKind::Video => 96,
        MediaFrameKind::Screen => 98,
        MediaFrameKind::Voice => 111,
    }
}

/// The track announced by an RTP payload type, if any.
pub open spec fn kind_of_payload_type(pt: u8) -> Option<MediaFrameKind> {
    if pt == 96 {
        Some(MediaFrameKind::Video)
    } else if pt == 98 {
        Some(MediaFrameKind::Screen)
    } else if pt == 111 || pt == 112 {
        Some(MediaFrameKind::Voice)
    } else {
        None
    }
}

/// The RTP packet carrying `data`: version 2 with no padding, extension or
/// CSRC, the payload type, sequence number, timestamp and SSRC, big-endian.
pub open spec fn rtp_frame_packet(kind: MediaFrameKind, seq: u16, ts: u32, ssrc: u32, data: Seq<u8>) -> Seq<u8> {
    seq![0x80u8, payload_type(kind)] + bytes::be16(seq) + bytes::be32(ts) + bytes::be32(ssrc) + data
}

/// Abstract state of one track.
pub struct TrackState {
    pub ssrc: u32,
    pub srtp: SrtpState,
    pub seq: u16,
    pub rtp_timestamp: u32,
}

/// The new track state and protected packet for a frame of `data`.
pub open spec fn spec_track_protect(t: TrackState, kind: MediaFrameKind, data: Seq<u8>) -> (TrackState, Seq<u8>) {
    let p = rtp_frame_packet(kind, t.seq, t.rtp_timestamp, t.ssrc, data);
    let (s2, out) = srtp::spec_protect_rtp_step(t.srtp, p);
    (TrackState { srtp: s2, seq: t.seq.wrapping_add(1), rtp_timestamp: t.rtp_timestamp.wrapping_add(160), ..t }, out)
}

/// The new track state and payload (after the 12-byte RTP header) from
/// unprotecting `c`, or `None` when it is too short or rejected.
pub open spec fn spec_track_unprotect(t: TrackState, c: Seq<u8>) -> (TrackState, Option<Seq<u8>>) {
    if c.len() < 12 {
        (t, None)
    } else {
        match srtp::spec_unprotect_rtp(t.srtp, c) {
            None => (t, None),
            Some((s2, p)) => (TrackState { srtp: s2, ..t }, Some(p.subrange(12, p.len() as int))),
        }
    }
}

/// A single track's keying inside a pipeline.
pub struct TrackSession {
    pub ssrc: u32,
    pub srtp: SrtpContext,
    /// Sequence number of the next frame.
    pub seq: u16,
    /// RTP timestamp of the next frame.
    pub rtp_timestamp: u32,
}

impl View for TrackSession {
    type V = TrackState;

    open spec fn view(&self) -> TrackState {
        TrackState { ssrc: self.ssrc, srtp: self.srtp@, seq: self.seq, rtp_timestamp: self.rtp_timestamp }
    }
}

impl TrackSession {
    /// Frame `data` as an RTP packet, protect it, and advance the sequence
    /// number and timestamp.
    pub fn protect_frame(&mut self, kind: MediaFrameKind, data: &[u8]) -> (out: Vec<u8>)
        requires
            data@.len() + 22 <= usize::MAX,
        ensures
            (final(self)@, out@) == spec_track_protect(old(self)@, kind, data@),
    {
        let mut rtp_packet: Vec<u8> = Vec::new();
        let vpx: u8 = 0x80;
        let payload_type: u8 = match kind {
            MediaFrameKind::Video => 96,
            MediaFrameKind::Screen => 98,
            MediaFrameKind::Voice => 111,
        };
        rtp_packet.push(vpx);
        rtp_packet.push(payload_type & 0x7fu8);
        assert(payload_type & 0x7fu8 == payload_type) by (bit_vector)
            requires
                payload_type == 96 || payload_type == 98 || payload_type == 111,
        ;
        bytes::push_be16(&mut rtp_packet, self.seq);
        bytes::push_be32(&mut rtp_packet, self.rtp_timestamp);
        bytes::push_be32(&mut rtp_packet, self.ssrc);
        bytes::push_all(&mut rtp_packet, data);
        assert(rtp_packet@ =~= rtp_frame_packet(kind, self.seq, self.rtp_timestamp, self.ssrc, data@));
        proof {
            lemma_frame_packet_header(kind, self.seq, self.rtp_timestamp, self.ssrc, data@);
        }
        let protected = self.srtp.protect_rtp(rtp_packet.as_slice());
        self.seq = self.seq.wrapping_add(1);
        self.rtp_timestamp = self.rtp_timestamp.wrapping_add(160);
        protected
    }

    /// Unprotect a packet and return the payload after the RTP header.
    pub fn unprotect_frame(&mut self, protected: &[u8]) -> (r: Option<Vec<u8>>)
        ensures
            ({
                let (t2, res) = spec_track_unprotect(old(self)@, protected@);
                &&& final(self)@ == t2
                &&& match res {
                    None => r is None,
                    Some(p) => r matches Some(q) && q@ == p,
                }
            }),
    {
        if protected.len() < 12 {
            return None;
        }
        match self.srtp.unprotect_rtp(protected) {
            Ok(rtp_packet) => {
                proof {
                    srtp::lemma_unprotect_len(old(self)@.srtp, protected@);
                }
                Some(bytes::copy_range(rtp_packet.as_slice(), 12, rtp_packet.len()))
            },
            Err(_) => None,
        }
    }

    /// Advance the RTP timestamp when a frame is skipped.
    pub fn advance(&mut self, samples: u32)
        ensures
            final(self)@ == (TrackState { rtp_timestamp: old(self)@.rtp_timestamp.wrapping_add(samples), ..old(self)@ }),
    {
        self.rtp_timestamp = self.rtp_timestamp.wrapping_add(samples);
    }
}

/// The framed packet of a frame has a stable 12-byte RTP header whose
/// sequence field is `seq`.
proof fn lemma_frame_packet_header(kind: MediaFrameKind, seq: u16, ts: u32, ssrc: u32, data: Seq<u8>)
    ensures
        srtp::stable_rtp_header(rtp_frame_packet(kind, seq, ts, ssrc, data)),
        srtp::rtp_header_fits(rtp_frame_packet(kind, seq, ts, ssrc, data)),
        srtp::rtp_header_len(rtp_frame_packet(kind, seq, ts, ssrc, data)) == 12,
        bytes::read_be16(rtp_frame_packet(kind, seq, ts, ssrc, data), 2) == seq,
        bytes::read_be32(rtp_frame_packet(kind, seq, ts, ssrc, data), 4) == ts,
        rtp_frame_packet(kind, seq, ts, ssrc, data)[1] == payload_type(kind),
        rtp_frame_packet(kind, seq, ts, ssrc, data).len() == 12 + data.len(),
        rtp_frame_packet(kind, seq, ts, ssrc, data).subrange(12, (12 + data.len()) as int) == data,
{
    let p = rtp_frame_packet(kind, seq, ts, ssrc, data);
    assert(p[0] == 0x80u8);
    assert(((0x80u8 >> 6u8) == 2u8) && ((0x80u8 & 0x0fu8) == 0u8) && ((0x80u8 & 0x10u8) == 0u8)) by (bit_vector);
    assert(p[2] == (seq >> 8u16) as u8 && p[3] == (seq & 0xffu16) as u8);
    bytes::lemma_be16_roundtrip(seq);
    assert(p[4] == (ts >> 24u32) as u8);
    assert(p[5] == ((ts >> 16u32) & 0xffu32) as u8);
    assert(p[6] == ((ts >> 8u32) & 0xffu32) as u8);
    assert(p[7] == (ts & 0xffu32) as u8);
    bytes::lemma_be32_roundtrip(ts);
    assert(p.subrange(12, (12 + data.len()) as int) =~= data);
}

/// Round trip of a frame: a track whose SRTP state equals the sender's
/// accepts the packet the sender made of a frame, finds the frame's track from its payload type
/// and its timestamp from the header, returns the frame's bytes, and ends
/// with the same SRTP state as the sender.
pub proof fn lemma_track_round_trip(a: TrackState, b: TrackState, kind: MediaFrameKind, ts: u32, data: Seq<u8>)
    requires
        a.srtp == b.srtp,
    ensures
        ({
            let (a2, out) = spec_track_protect(TrackState { rtp_timestamp: ts, ..a }, kind, data);
            &&& out.len() >= 12
            &&& kind_of_payload_type(out[1] & 0x7fu8) == Some(kind)
            &&& bytes::read_be32(out, 4) == ts
            &&& spec_track_unprotect(b, out) == (TrackState { srtp: a2.srtp, ..b }, Some(data))
        }),
{
    let p = rtp_frame_packet(kind, a.seq, ts, a.ssrc, data);
    lemma_frame_packet_header(kind, a.seq, ts, a.ssrc, data);
    srtp::lemma_rtp_round_trip(a.srtp, p);
    let (s2, out) = srtp::spec_protect_rtp_step(a.srtp, p);
    let roc = srtp::next_roc(a.srtp.roc, a.srtp.seq, a.seq);
    assert(out == srtp::spec_protect_rtp(a.srtp, roc, p));
    let enc = srtp::encrypt_from(a.srtp, roc, a.seq, p, 12);
    assert(out == enc + srtp::auth_tag(a.srtp, enc));
    assert(out[1] == p[1]);
    assert(out[4] == p[4] && out[5] == p[5] && out[6] == p[6] && out[7] == p[7]);
    let pt = payload_type(kind);
    assert(pt & 0x7fu8 == pt) by (bit_vector)
        requires
            pt == 96 || pt == 98 || pt == 111,
    ;
}

/// Abstract state of a pipeline.
pub struct PipelineState {
    pub session_key: Seq<u8>,
    pub voice: Option<TrackState>,
    pub video: Option<TrackState>,
    pub screen: Option<TrackState>,
}

/// The track of `kind` in pipeline state `p`.
pub open spec fn track_of(p: PipelineState, kind: MediaFrameKind) -> Option<TrackState> {
    match kind {
        MediaFrameKind::Voice => p.voice,
        MediaFrameKind::Video => p.video,
        MediaFrameKind::Screen => p.screen,
    }
}

/// `p` with the track of `kind` replaced by `t`.
pub open spec fn with_track(p: PipelineState, kind: MediaFrameKind, t: TrackState) -> PipelineState {
    match kind {
        MediaFrameKind::Voice => PipelineState { voice: Some(t), ..p },
        MediaFrameKind::Video => PipelineState { video: Some(t), ..p },
        MediaFrameKind::Screen => PipelineState { screen: Some(t), ..p },
    }
}

/// The view of an optional track.
pub open spec fn opt_track_view(t: Option<TrackSession>) -> Option<TrackState> {
    match t {
        Some(s) => Some(s@),
        None => None,
    }
}

/// A fresh track keyed from the pipeline's session key.
pub open spec fn fresh_track(key: Seq<u8>, ssrc: u32) -> TrackState {
    TrackState {
        ssrc,
        srtp: srtp::shared_secret_state(key, ssrc, SrtpProfile::Aes256CtrHmacSha1_80),
        seq: 0,
        rtp_timestamp: 0,
    }
}

/// The tracks of a pipeline.
pub struct TrackSessions {
    pub voice: Option<TrackSession>,
    pub video: Option<TrackSession>,
    pub screen: Option<TrackSession>,
}

/// A per-call pipeline: one track for each media kind, all keyed from the
/// call's 32-byte session key.
pub struct MediaPipeline {
    pub session_key: [u8; 32],
    pub tracks: TrackSessions,
}

impl View for MediaPipeline {
    type V = PipelineState;

    open spec fn view(&self) -> PipelineState {
        PipelineState {
            session_key: self.session_key@,
            voice: opt_track_view(self.tracks.voice),
            video: opt_track_view(self.tracks.video),
            screen: opt_track_view(self.tracks.screen),
        }
    }
}

/// Protect a frame on an optional track.
fn protect_on(track: &mut Option<TrackSession>, kind: MediaFrameKind, frame: &CapturedFrame) -> (r: Option<Vec<u8>>)
    ensures
        match opt_track_view(*old(track)) {
            None => r is None && opt_track_view(*final(track)) == opt_track_view(*old(track)),
            Some(t) => if frame.data@.len() > MAX_PAYLOAD_BYTES {
                r is None && opt_track_view(*final(track)) == opt_track_view(*old(track))
            } else {
                let (t2, out) = spec_track_protect(TrackState { rtp_timestamp: frame.rtp_timestamp, ..t }, kind, frame.data@);
                opt_track_view(*final(track)) == Some(t2) && (r matches Some(o) && o@ == out)
            },
        },
{
    match track {
        Some(t) => {
            if frame.data.len() > MAX_PAYLOAD_BYTES {
                return None;
            }
            t.rtp_timestamp = frame.rtp_timestamp;
            Some(t.protect_frame(kind, frame.data.as_slice()))
        },
        None => None,
    }
}

/// Unprotect a packet on an optional track into a frame.
fn unprotect_on(track: &mut Option<TrackSession>, kind: MediaFrameKind, rtp_ts: u32, ssrc: u32, protected: &[u8]) -> (r: Option<CapturedFrame>)
    ensures
        match opt_track_view(*old(track)) {
            None => r is None && opt_track_view(*final(track)) == opt_track_view(*old(track)),
            Some(t) => {
                let (t2, res) = spec_track_unprotect(t, protected@);
                &&& opt_track_view(*final(track)) == Some(t2)
                &&& match res {
                    None => r is None,
                    Some(p) => r matches Some(f) && f.kind == kind && f.rtp_timestamp == rtp_ts && f.ssrc == ssrc && f.data@ == p,
                }
            },
        },
{
    match track {
        Some(t) => {
            match t.unprotect_frame(protected) {
                Some(payload) => Some(CapturedFrame::new(kind, rtp_ts, ssrc, payload)),
                None => None,
            }
        },
        None => None,
    }
}

impl MediaPipeline {
    pub fn new(session_key: [u8; 32]) -> (r: Self)
        ensures
            r@ == (PipelineState { session_key: session_key@, voice: None, video: None, screen: None }),
    {
        MediaPipeline { session_key, tracks: TrackSessions { voice: None, video: None, screen: None } }
    }

    /// Key every missing track: voice on `base_ssrc`, video on the next SSRC
    /// and screen on the one after; existing tracks are kept.
    pub fn ensure_tracks(&mut self, base_ssrc: u32)
        requires
            base_ssrc <= u32::MAX - 2,
        ensures
            final(self)@.session_key == old(self)@.session_key,
            final(self)@.voice == (if old(self)@.voice is Some { old(self)@.voice } else { Some(fresh_track(old(self)@.session_key, base_ssrc)) }),
            final(self)@.video == (if old(self)@.video is Some { old(self)@.video } else { Some(fresh_track(old(self)@.session_key, (base_ssrc + 1) as u32)) }),
            final(self)@.screen == (if old(self)@.screen is Some { old(self)@.screen } else { Some(fresh_track(old(self)@.session_key, (base_ssrc + 2) as u32)) }),
    {
        let profile = SrtpProfile::Aes256CtrHmacSha1_80;
        if self.tracks.voice.is_none() {
            let srtp = SrtpContext::from_shared_secret(&self.session_key, 0, base_ssrc, profile);
            self.tracks.voice = Some(TrackSession { ssrc: base_ssrc, srtp, seq: 0, rtp_timestamp: 0 });
        }
        if self.tracks.video.is_none() {
            let srtp = SrtpContext::from_shared_secret(&self.session_key, 0, base_ssrc + 1, profile);
            self.tracks.video = Some(TrackSession { ssrc: base_ssrc + 1, srtp, seq: 0, rtp_timestamp: 0 });
        }
        if self.tracks.screen.is_none() {
            let srtp = SrtpContext::from_shared_secret(&self.session_key, 0, base_ssrc + 2, profile);
            self.tracks.screen = Some(TrackSession { ssrc: base_ssrc + 2, srtp, seq: 0, rtp_timestamp: 0 });
        }
    }

    /// Protect a frame for transmission on its track; `None` when the track
    /// is not keyed or the payload is larger than `MAX_PAYLOAD_BYTES`.
    pub fn protect(&mut self, frame: CapturedFrame) -> (r: Option<Vec<u8>>)
        ensures
            match track_of(old(self)@, frame.kind) {
                None => r is None && final(self)@ == old(self)@,
                Some(t) => if frame.data@.len() > MAX_PAYLOAD_BYTES {
                    r is None && final(self)@ == old(self)@
                } else {
                    let (t2, out) = spec_track_protect(TrackState { rtp_timestamp: frame.rtp_timestamp, ..t }, frame.kind, frame.data@);
                    final(self)@ == with_track(old(self)@, frame.kind, t2) && (r matches Some(o) && o@ == out)
                },
            },
    {
        match frame.kind {
            MediaFrameKind::Voice => protect_on(&mut self.tracks.voice, frame.kind, &frame),
            MediaFrameKind::Video => protect_on(&mut self.tracks.video, frame.kind, &frame),
            MediaFrameKind::Screen => protect_on(&mut self.tracks.screen, frame.kind, &frame),
        }
    }

    /// Unprotect a received packet into a frame of the track named by its
    /// RTP payload type, stamped with its RTP timestamp and `ssrc`.
    pub fn unprotect(&mut self, ssrc: u32, protected: &[u8]) -> (r: Option<CapturedFrame>)
        ensures
            protected@.len() < 12 ==> r is None && final(self)@ == old(self)@,
            protected@.len() >= 12 ==> match kind_of_payload_type(protected@[1] & 0x7fu8) {
                None => r is None && final(self)@ == old(self)@,
                Some(kind) => match track_of(old(self)@, kind) {
                    None => r is None && final(self)@ == old(self)@,
                    Some(t) => {
                        let (t2, res) = spec_track_unprotect(t, protected@);
                        &&& final(self)@ == with_track(old(self)@, kind, t2)
                        &&& match res {
                            None => r is None,
                            Some(p) => r matches Some(f) && f.kind == kind && f.ssrc == ssrc && f.data@ == p
                                && f.rtp_timestamp == bytes::read_be32(protected@, 4),
                        }
                    },
                },
            },
    {
        if protected.len() < 12 {
            return None;
        }
        let pt = protected[1] & 0x7fu8;
        let rtp_ts = ((protected[4] as u32) << 24u32) | ((protected[5] as u32) << 16u32) | ((protected[6] as u32) << 8u32) | (protected[7] as u32);
        if pt == 96 {
            unprotect_on(&mut self.tracks.video, MediaFrameKind::Video, rtp_ts, ssrc, protected)
        } else if pt == 98 {
            unprotect_on(&mut self.tracks.screen, MediaFrameKind::Screen, rtp_ts, ssrc, protected)
        } else if pt == 111 || pt == 112 {
            unprotect_on(&mut self.tracks.voice, MediaFrameKind::Voice, rtp_ts, ssrc, protected)
        } else {
            None
        }
    }
}

/// Convert a mono PCM sample count at 48 kHz into an RTP timestamp delta:
/// 48 ticks per whole millisecond of samples.
pub fn pcm_to_rtp_timestamp(samples: usize) -> (r: u32)
    requires
        48 * ((samples / 48) as u32) <= u32::MAX,
    ensures
        r == 48 * ((samples / 48) as u32),
{
    let bytes_per_ms = (AUDIO_CLOCK_RATE as usize) / 1000;
    let ms = samples / 48;
    (bytes_per_ms as u32) * (ms as u32)
}

} // verus!
