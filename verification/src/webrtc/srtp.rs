//! SRTP/SRTCP packet protection (RFC 3711): AES counter-mode encryption of
//! the payload and an 80-bit HMAC-SHA1 authentication tag.
use vstd::prelude::*;
use crate::bytes;
use crate::primitives;

verus! {

/// SRTP protection profile (RFC 3711 Section 4.1).
#[derive(Debug, Clone, Copy, PartialEq, Eq, Structural)]
pub enum SrtpProfile {
    Aes128CtrHmacSha1_80,
    Aes256CtrHmacSha1_80,
}

impl SrtpProfile {
    /// Length of the master key and of the session encryption key.
    pub open spec fn key_len(self) -> nat {
        match self {
            SrtpProfile::Aes128CtrHmacSha1_80 => 16,
            SrtpProfile::Aes256CtrHmacSha1_80 => 32,
        }
    }

    fn master_key_len(&self) -> (r: usize)
        ensures
            r == self.key_len(),
    {
        match self {
            SrtpProfile::Aes128CtrHmacSha1_80 => 16,
            SrtpProfile::Aes256CtrHmacSha1_80 => 32,
        }
    }

    fn master_salt_len(&self) -> (r: usize)
        ensures
            r == 14,
    {
        14
    }

    fn session_key_len(&self) -> (r: usize)
        ensures
            r == self.key_len(),
    {
        match self {
            SrtpProfile::Aes128CtrHmacSha1_80 => 16,
            SrtpProfile::Aes256CtrHmacSha1_80 => 32,
        }
    }

    fn session_salt_len(&self) -> (r: usize)
        ensures
            r == 14,
    {
        14
    }

    fn session_auth_len(&self) -> (r: usize)
        ensures
            r == 10,
    {
        10
    }
}

/// The abstract state of one SRTP direction: its profile, stream, rollover
/// counter, last sequence number and session keys.
pub struct SrtpState {
    pub profile: SrtpProfile,
    pub ssrc: u32,
    pub roc: u32,
    pub seq: u16,
    pub enc_key: Seq<u8>,
    pub salt: Seq<u8>,
    pub auth_key: Seq<u8>,
}

/// Label bytes appended to a shared secret before expanding it into a
/// master key and salt.
pub open spec fn srtp_label() -> Seq<u8> {
    seq![83u8, 82u8, 84u8, 80u8]
}

/// Counter-mode expansion of `prefix` with SHA-256: byte `i` of the output
/// is byte `i % 32` of `SHA-256(prefix || [i / 32])`.
pub open spec fn spec_expand(prefix: Seq<u8>, len: nat) -> Seq<u8> {
    Seq::new(len, |i: int| primitives::sha256_digest(prefix.push((i / 32) as u8))[i % 32])
}

/// The hash input for a session key: master key, label, a zero byte, the
/// big-endian SSRC and the master salt.
pub open spec fn kdf_prefix(master_key: Seq<u8>, label: u8, ssrc: u32, master_salt: Seq<u8>) -> Seq<u8> {
    master_key.push(label).push(0u8) + bytes::be32(ssrc) + master_salt
}

/// Session key `label` of length `len` (RFC 3711 Section 4.3 style).
pub open spec fn spec_derive_key(master_key: Seq<u8>, master_salt: Seq<u8>, label: u8, ssrc: u32, len: nat) -> Seq<u8> {
    spec_expand(kdf_prefix(master_key, label, ssrc, master_salt), len)
}

/// The state of a freshly keyed context.
pub open spec fn keyed_state(master_key: Seq<u8>, master_salt: Seq<u8>, ssrc: u32, profile: SrtpProfile) -> SrtpState {
    SrtpState {
        profile,
        ssrc,
        roc: 0,
        seq: 0,
        enc_key: spec_derive_key(master_key, master_salt, 0u8, ssrc, profile.key_len()),
        salt: spec_derive_key(master_key, master_salt, 1u8, ssrc, 14),
        auth_key: spec_derive_key(master_key, master_salt, 2u8, ssrc, 10),
    }
}

/// Master key and salt material expanded from a 32-byte shared secret.
pub open spec fn shared_secret_material(secret: Seq<u8>, profile: SrtpProfile) -> Seq<u8> {
    spec_expand(secret + srtp_label(), profile.key_len() + 14)
}

/// The state of a context keyed from a shared secret.
pub open spec fn shared_secret_state(secret: Seq<u8>, ssrc: u32, profile: SrtpProfile) -> SrtpState {
    let m = shared_secret_material(secret, profile);
    keyed_state(
        m.subrange(0, profile.key_len() as int),
        m.subrange(profile.key_len() as int, (profile.key_len() + 14) as int),
        ssrc,
        profile,
    )
}

/// Length of the RTP header of `pkt` (fixed part, CSRC list and header
/// extension), or 0 when `pkt` is not a complete RTP version 2 header.
pub open spec fn rtp_header_len(pkt: Seq<u8>) -> int {
    if pkt.len() < 12 {
        0
    } else if (pkt[0] >> 6u8) != 2 {
        0
    } else {
        let base = 12 + ((pkt[0] & 0x0fu8) as int) * 4;
        let ext = (pkt[0] & 0x10u8) != 0;
        let len = if ext && pkt.len() >= base + 4 {
            base + 4 + (bytes::read_be16(pkt, base + 2) as int) * 4
        } else {
            base
        };
        if pkt.len() < len { 0 } else { len }
    }
}

/// The rollover counter after receiving sequence number `seq` when the last
/// one was `last`.
pub open spec fn next_roc(roc: u32, last: u16, seq: u16) -> u32 {
    if last > seq && last > 32768 { roc.wrapping_add(1) } else { roc }
}

/// The counter-mode IV of RFC 3711 Section 4.1.1: the session salt shifted
/// left 16 bits, XORed with the SSRC and with the 48-bit packet index.
pub open spec fn ctr_iv(salt: Seq<u8>, ssrc: u32, roc: u32, seq: u16) -> Seq<u8> {
    bytes::xor_bytes(salt + seq![0u8, 0u8], seq![0u8, 0u8, 0u8, 0u8] + bytes::be32(ssrc) + bytes::be32(roc) + bytes::be16(seq) + seq![0u8, 0u8])
}

/// The key stream that encrypts `len` payload bytes of packet index
/// (`roc`, `seq`) under state `s`.
pub open spec fn keystream(s: SrtpState, roc: u32, seq: u16, len: nat) -> Seq<u8> {
    let iv = ctr_iv(s.salt, s.ssrc, roc, seq);
    match s.profile {
        SrtpProfile::Aes128CtrHmacSha1_80 => primitives::aes128_ctr_keystream(s.enc_key, iv, len),
        SrtpProfile::Aes256CtrHmacSha1_80 => primitives::aes256_ctr_keystream(s.enc_key, iv, len),
    }
}

/// The 80-bit authentication tag of `data`.
pub open spec fn auth_tag(s: SrtpState, data: Seq<u8>) -> Seq<u8> {
    Seq::new(10, |i: int| primitives::hmac_sha1_tag(s.auth_key, data)[i])
}

/// `pkt` with every byte from `from` on encrypted for packet index
/// (`roc`, `seq`).
pub open spec fn encrypt_from(s: SrtpState, roc: u32, seq: u16, pkt: Seq<u8>, from: int) -> Seq<u8> {
    pkt.subrange(0, from) + bytes::xor_bytes(pkt.subrange(from, pkt.len() as int), keystream(s, roc, seq, (pkt.len() - from) as nat))
}

/// The SRTP packet for RTP packet `p` whose index uses rollover counter `roc`.
pub open spec fn spec_protect_rtp(s: SrtpState, roc: u32, p: Seq<u8>) -> Seq<u8> {
    let enc = encrypt_from(s, roc, bytes::read_be16(p, 2), p, rtp_header_len(p));
    enc + auth_tag(s, enc)
}

/// The SRTCP packet index of a context in state `s`.
pub open spec fn rtcp_index(s: SrtpState) -> u32 {
    (s.roc << 16u32) | (s.seq as u32)
}

/// The SRTCP packet for RTCP packet `p` under state `s`.
pub open spec fn spec_protect_rtcp(s: SrtpState, p: Seq<u8>) -> Seq<u8> {
    let idx = rtcp_index(s);
    let enc = encrypt_from(s, idx >> 16u32, idx as u16, p, 0);
    enc + auth_tag(s, enc)
}

/// The new state and output of protecting RTP packet `p` in state `s`: a
/// packet without a valid header passes through unchanged.
pub open spec fn spec_protect_rtp_step(s: SrtpState, p: Seq<u8>) -> (SrtpState, Seq<u8>) {
    if rtp_header_len(p) == 0 {
        (s, p)
    } else {
        let seq = bytes::read_be16(p, 2);
        let roc = next_roc(s.roc, s.seq, seq);
        (SrtpState { roc, seq, ..s }, spec_protect_rtp(s, roc, p))
    }
}

/// Whether SRTP packet `c` is too short to hold its header and tag.
pub open spec fn rtp_too_short(c: Seq<u8>) -> bool {
    rtp_header_len(c) == 0 || c.len() < rtp_header_len(c) + 10
}

/// Whether the last 10 bytes of `c` are the tag of the rest under `s`.
pub open spec fn tag_matches(s: SrtpState, c: Seq<u8>) -> bool {
    auth_tag(s, c.subrange(0, c.len() - 10)) == c.subrange(c.len() - 10, c.len() as int)
}

/// The new state and plaintext from unprotecting SRTP packet `c` in state
/// `s`, or `None` when it is rejected (the state is then unchanged).
pub open spec fn spec_unprotect_rtp(s: SrtpState, c: Seq<u8>) -> Option<(SrtpState, Seq<u8>)> {
    if rtp_too_short(c) || !tag_matches(s, c) {
        None
    } else {
        let seq = bytes::read_be16(c, 2);
        let roc = next_roc(s.roc, s.seq, seq);
        Some((SrtpState { roc, seq, ..s }, encrypt_from(s, roc, seq, c.subrange(0, c.len() - 10), rtp_header_len(c))))
    }
}

/// The new state and output of protecting RTCP packet `p` in state `s`.
pub open spec fn spec_protect_rtcp_step(s: SrtpState, p: Seq<u8>) -> (SrtpState, Seq<u8>) {
    (SrtpState { seq: s.seq.wrapping_add(1), ..s }, spec_protect_rtcp(s, p))
}

/// The new state and plaintext from unprotecting SRTCP packet `c` in state
/// `s`, or `None` when it is rejected (the state is then unchanged).
pub open spec fn spec_unprotect_rtcp(s: SrtpState, c: Seq<u8>) -> Option<(SrtpState, Seq<u8>)> {
    if c.len() < 10 || !tag_matches(s, c) {
        None
    } else {
        let idx = rtcp_index(s);
        Some((SrtpState { seq: s.seq.wrapping_add(1), ..s }, encrypt_from(s, idx >> 16u32, idx as u16, c.subrange(0, c.len() - 10), 0)))
    }
}

/// An accepted SRTP packet decrypts to at least its header.
pub proof fn lemma_unprotect_len(s: SrtpState, c: Seq<u8>)
    ensures
        spec_unprotect_rtp(s, c) matches Some((s2, p)) ==> p.len() == c.len() - 10 && p.len() >= rtp_header_len(c) >= 12,
{
}

/// An RTP packet whose header length does not change when bytes are
/// appended: a valid header whose extension length field, if the extension
/// bit is set, lies inside the packet.
pub open spec fn stable_rtp_header(p: Seq<u8>) -> bool {
    &&& rtp_header_len(p) > 0
    &&& (p[0] & 0x10u8) != 0 ==> p.len() >= 16 + ((p[0] & 0x0fu8) as int) * 4
}

/// An RTP version 2 packet whose header fits in it: the fixed 12 bytes,
/// the CSRC list and, when the X bit is set, the extension header and its
/// words.
pub open spec fn rtp_header_fits(p: Seq<u8>) -> bool {
    &&& p.len() >= 12
    &&& (p[0] >> 6u8) == 2
    &&& p.len() >= 12 + ((p[0] & 0x0fu8) as int) * 4
    &&& (p[0] & 0x10u8) != 0 ==> {
        let base = 12 + ((p[0] & 0x0fu8) as int) * 4;
        &&& p.len() >= base + 4
        &&& p.len() >= base + 4 + (bytes::read_be16(p, base + 2) as int) * 4
    }
}

/// A packet whose header fits has a header that appending cannot change.
pub proof fn lemma_fitting_header_is_stable(p: Seq<u8>)
    requires
        rtp_header_fits(p),
    ensures
        stable_rtp_header(p),
{
    assert(((p[0] & 0x0fu8) as int) >= 0);
}

proof fn lemma_header_len_extends(p: Seq<u8>, t: Seq<u8>)
    requires
        stable_rtp_header(p),
    ensures
        rtp_header_len(p + t) == rtp_header_len(p),
{
    let c = p + t;
    assert(c[0] == p[0]);
    let base = 12 + ((p[0] & 0x0fu8) as int) * 4;
    if (p[0] & 0x10u8) != 0 {
        assert(c[base + 2] == p[base + 2]);
        assert(c[base + 3] == p[base + 3]);
    }
}

/// Round trip of SRTP: a context in the same state as the sender accepts
/// the packet that the sender made of an RTP packet `p` whose header fits
/// in it, gives back
/// `p`, and ends in the same state as the sender.
pub proof fn lemma_rtp_round_trip(s: SrtpState, p: Seq<u8>)
    requires
        rtp_header_fits(p),
    ensures
        ({
            let (s2, c) = spec_protect_rtp_step(s, p);
            spec_unprotect_rtp(s, c) == Some((s2, p))
        }),
{
    lemma_fitting_header_is_stable(p);
    let seq = bytes::read_be16(p, 2);
    let roc = next_roc(s.roc, s.seq, seq);
    let h = rtp_header_len(p);
    let ks = keystream(s, roc, seq, (p.len() - h) as nat);
    let x = bytes::xor_bytes(p.subrange(h, p.len() as int), ks);
    let enc = encrypt_from(s, roc, seq, p, h);
    let tag = auth_tag(s, enc);
    let c = spec_protect_rtp(s, roc, p);
    assert(c == enc + tag);
    lemma_header_len_extends(p, x + tag);
    assert(p.subrange(0, h) + (x + tag) =~= c);
    let body = c.subrange(0, c.len() - 10);
    assert(body =~= enc);
    assert(c.subrange(c.len() - 10, c.len() as int) =~= tag);
    assert(c[2] == p[2] && c[3] == p[3]);
    bytes::lemma_xor_bytes_twice(p.subrange(h, p.len() as int), ks);
    assert(enc.subrange(0, h) =~= p.subrange(0, h));
    assert(enc.subrange(h, enc.len() as int) =~= x);
    assert(p.subrange(0, h) + p.subrange(h, p.len() as int) =~= p);
    assert(encrypt_from(s, roc, seq, body, h) =~= p);
}

/// Round trip of SRTCP: a context in the same state as the sender accepts
/// the packet that the sender made of `p`, gives back `p`, and ends in the
/// same state as the sender.
pub proof fn lemma_rtcp_round_trip(s: SrtpState, p: Seq<u8>)
    ensures
        ({
            let (s2, c) = spec_protect_rtcp_step(s, p);
            spec_unprotect_rtcp(s, c) == Some((s2, p))
        }),
{
    let idx = rtcp_index(s);
    let ks = keystream(s, idx >> 16u32, idx as u16, p.len());
    let enc = encrypt_from(s, idx >> 16u32, idx as u16, p, 0);
    let c = spec_protect_rtcp(s, p);
    assert(enc =~= bytes::xor_bytes(p, ks));
    let body = c.subrange(0, c.len() - 10);
    assert(body =~= enc);
    assert(c.subrange(c.len() - 10, c.len() as int) =~= auth_tag(s, enc));
    bytes::lemma_xor_bytes_twice(p, ks);
    assert(encrypt_from(s, idx >> 16u32, idx as u16, body, 0) =~= bytes::xor_bytes(bytes::xor_bytes(p, ks), ks));
    assert(encrypt_from(s, idx >> 16u32, idx as u16, body, 0) =~= p);
}

/// Session keys of one direction.
struct SessionKeys {
    enc_key: Vec<u8>,
    salt: Vec<u8>,
    auth_key: Vec<u8>,
}

/// SRTP context for a single direction (inbound or outbound).
pub struct SrtpContext {
    profile: SrtpProfile,
    ssrc: u32,
    roc: u32,
    seq: u16,
    session_keys: SessionKeys,
}

impl View for SrtpContext {
    type V = SrtpState;

    closed spec fn view(&self) -> SrtpState {
        SrtpState {
            profile: self.profile,
            ssrc: self.ssrc,
            roc: self.roc,
            seq: self.seq,
            enc_key: self.session_keys.enc_key@,
            salt: self.session_keys.salt@,
            auth_key: self.session_keys.auth_key@,
        }
    }
}

impl SrtpContext {
    #[verifier::type_invariant]
    spec fn keys_sized(&self) -> bool {
        &&& self.session_keys.enc_key@.len() == self.profile.key_len()
        &&& self.session_keys.salt@.len() == 14
        &&& self.session_keys.auth_key@.len() == 10
    }

    /// Derive SRTP session keys from master key/salt (RFC 3711 Section 4.3).
    /// `direction` (0 = outbound, 1 = inbound) names the role of the context;
    /// the sender's outbound context and the receiver's inbound context of one
    /// stream derive the same keys, so it is not part of the key material.
    pub fn derive(master_key: &[u8], master_salt: &[u8], direction: u8, ssrc: u32, profile: SrtpProfile) -> (r: Result<Self, &'static str>)
        ensures
            master_key@.len() != profile.key_len() ==> r == Err::<Self, &'static str>("invalid master key length"),
            master_key@.len() == profile.key_len() && master_salt@.len() != 14
                ==> r == Err::<Self, &'static str>("invalid master salt length"),
            master_key@.len() == profile.key_len() && master_salt@.len() == 14 ==> (r matches Ok(c)
                && c@ == keyed_state(master_key@, master_salt@, ssrc, profile)),
    {
        if master_key.len() != profile.master_key_len() {
            return Err("invalid master key length");
        }
        if master_salt.len() != profile.master_salt_len() {
            return Err("invalid master salt length");
        }
        let session_keys = derive_session_keys(master_key, master_salt, direction, ssrc, profile);
        Ok(SrtpContext { profile, ssrc, roc: 0, seq: 0, session_keys })
    }

    /// Create a context from a 32-byte shared secret: SHA-256 counter-mode
    /// expansion of `secret || "SRTP"` gives the master key and salt.
    pub fn from_shared_secret(shared_secret: &[u8; 32], direction: u8, ssrc: u32, profile: SrtpProfile) -> (r: Self)
        ensures
            r@ == shared_secret_state(shared_secret@, ssrc, profile),
    {
        let mut input: Vec<u8> = Vec::new();
        bytes::push_all(&mut input, shared_secret);
        input.push(83u8);
        input.push(82u8);
        input.push(84u8);
        input.push(80u8);
        assert(input@ =~= shared_secret@ + srtp_label());
        let mkl = profile.master_key_len();
        let msl = profile.master_salt_len();
        let material = expand(input.as_slice(), mkl + msl);
        let master_key = bytes::copy_range(material.as_slice(), 0, mkl);
        let master_salt = bytes::copy_range(material.as_slice(), mkl, mkl + msl);
        let session_keys = derive_session_keys(master_key.as_slice(), master_salt.as_slice(), direction, ssrc, profile);
        SrtpContext { profile, ssrc, roc: 0, seq: 0, session_keys }
    }

    /// Current rollover counter.
    pub fn roc(&self) -> (r: u32)
        ensures
            r == self@.roc,
    {
        self.roc
    }

    /// Last sequence number seen.
    pub fn last_seq(&self) -> (r: u16)
        ensures
            r == self@.seq,
    {
        self.seq
    }

    fn update_roc(&mut self, seq: u16)
        ensures
            final(self)@ == (SrtpState { roc: next_roc(old(self)@.roc, old(self)@.seq, seq), seq, ..old(self)@ }),
    {
        proof { use_type_invariant(&*self); }
        if self.seq > seq && self.seq > 32768 {
            self.roc = self.roc.wrapping_add(1);
        }
        self.seq = seq;
    }

    /// Encrypt `data` in place with the key stream for packet index
    /// (`roc`, `seq`).
    fn apply_ctr(&self, roc: u32, seq: u16, data: &mut Vec<u8>)
        ensures
            final(data)@ == bytes::xor_bytes(old(data)@, keystream(self@, roc, seq, old(data)@.len())),
    {
        proof { use_type_invariant(self); }
        let iv = build_ctr_iv(self.session_keys.salt.as_slice(), self.ssrc, roc, seq);
        match self.profile {
            SrtpProfile::Aes128CtrHmacSha1_80 => {
                primitives::aes128_ctr_apply(self.session_keys.enc_key.as_slice(), iv.as_slice(), data)
            },
            SrtpProfile::Aes256CtrHmacSha1_80 => {
                primitives::aes256_ctr_apply(self.session_keys.enc_key.as_slice(), iv.as_slice(), data)
            },
        }
    }

    /// `pkt` with bytes from `from` on encrypted for (`roc`, `seq`).
    fn encrypt_tail(&self, roc: u32, seq: u16, pkt: &[u8], from: usize) -> (out: Vec<u8>)
        requires
            from <= pkt@.len(),
        ensures
            out@ == encrypt_from(self@, roc, seq, pkt@, from as int),
    {
        let mut head = bytes::copy_range(pkt, 0, from);
        let mut payload = bytes::copy_range(pkt, from, pkt.len());
        self.apply_ctr(roc, seq, &mut payload);
        bytes::push_all(&mut head, payload.as_slice());
        head
    }

    /// Protect an RTP packet (encrypt + auth tag). A packet without a valid
    /// RTP header is returned unchanged.
    pub fn protect_rtp(&mut self, plaintext: &[u8]) -> (out: Vec<u8>)
        requires
            plaintext@.len() + 10 <= usize::MAX,
        ensures
            (final(self)@, out@) == spec_protect_rtp_step(old(self)@, plaintext@),
    {
        let header_len = min_rtp_header_len(plaintext);
        if header_len == 0 || plaintext.len() < header_len {
            return bytes::copy_range(plaintext, 0, plaintext.len());
        }
        let seq = ((plaintext[2] as u16) << 8u16) | (plaintext[3] as u16);
        self.update_roc(seq);
        let mut packet = self.encrypt_tail(self.roc, seq, plaintext, header_len);
        let tag = compute_auth_tag(&self.session_keys.auth_key, packet.as_slice(), self.profile);
        let ghost enc = packet@;
        bytes::push_all(&mut packet, tag.as_slice());
        packet
    }

    /// Unprotect an SRTP packet (verify auth tag + decrypt).
    pub fn unprotect_rtp(&mut self, ciphertext: &[u8]) -> (r: Result<Vec<u8>, &'static str>)
        ensures
            rtp_too_short(ciphertext@) ==> r == Err::<Vec<u8>, &'static str>("packet too short"),
            !rtp_too_short(ciphertext@) && !tag_matches(old(self)@, ciphertext@)
                ==> r == Err::<Vec<u8>, &'static str>("authentication failed"),
            match spec_unprotect_rtp(old(self)@, ciphertext@) {
                None => final(self)@ == old(self)@,
                Some((s2, p)) => final(self)@ == s2 && (r matches Ok(q) && q@ == p),
            },
    {
        let header_len = min_rtp_header_len(ciphertext);
        let auth_len = self.profile.session_auth_len();
        if header_len == 0 || ciphertext.len() < header_len + auth_len {
            return Err("packet too short");
        }
        let body_len = ciphertext.len() - auth_len;
        let body = bytes::copy_range(ciphertext, 0, body_len);
        let expected_tag = compute_auth_tag(&self.session_keys.auth_key, body.as_slice(), self.profile);
        let actual_tag = bytes::copy_range(ciphertext, body_len, ciphertext.len());
        if !bytes::constant_time_eq(expected_tag.as_slice(), actual_tag.as_slice()) {
            return Err("authentication failed");
        }
        let seq = ((ciphertext[2] as u16) << 8u16) | (ciphertext[3] as u16);
        self.update_roc(seq);
        let packet = self.encrypt_tail(self.roc, seq, body.as_slice(), header_len);
        Ok(packet)
    }

    /// Protect an RTCP packet; the index is derived from the context's
    /// rollover counter and sequence number, which advances by one.
    pub fn protect_rtcp(&mut self, plaintext: &[u8]) -> (out: Vec<u8>)
        requires
            plaintext@.len() + 10 <= usize::MAX,
        ensures
            (final(self)@, out@) == spec_protect_rtcp_step(old(self)@, plaintext@),
    {
        proof { use_type_invariant(&*self); }
        let index = (self.roc << 16u32) | (self.seq as u32);
        self.seq = self.seq.wrapping_add(1);
        let mut packet = self.encrypt_tail(index >> 16u32, index as u16, plaintext, 0);
        let tag = compute_auth_tag(&self.session_keys.auth_key, packet.as_slice(), self.profile);
        bytes::push_all(&mut packet, tag.as_slice());
        packet
    }

    /// Unprotect an SRTCP packet.
    pub fn unprotect_rtcp(&mut self, ciphertext: &[u8]) -> (r: Result<Vec<u8>, &'static str>)
        ensures
            ciphertext@.len() < 10 ==> r == Err::<Vec<u8>, &'static str>("packet too short"),
            ciphertext@.len() >= 10 && !tag_matches(old(self)@, ciphertext@)
                ==> r == Err::<Vec<u8>, &'static str>("authentication failed"),
            match spec_unprotect_rtcp(old(self)@, ciphertext@) {
                None => final(self)@ == old(self)@,
                Some((s2, p)) => final(self)@ == s2 && (r matches Ok(q) && q@ == p),
            },
    {
        let auth_len = self.profile.session_auth_len();
        if ciphertext.len() < auth_len {
            return Err("packet too short");
        }
        let body_len = ciphertext.len() - auth_len;
        let body = bytes::copy_range(ciphertext, 0, body_len);
        let expected_tag = compute_auth_tag(&self.session_keys.auth_key, body.as_slice(), self.profile);
        let actual_tag = bytes::copy_range(ciphertext, body_len, ciphertext.len());
        if !bytes::constant_time_eq(expected_tag.as_slice(), actual_tag.as_slice()) {
            return Err("authentication failed");
        }
        proof { use_type_invariant(&*self); }
        let index = (self.roc << 16u32) | (self.seq as u32);
        self.seq = self.seq.wrapping_add(1);
        let packet = self.encrypt_tail(index >> 16u32, index as u16, body.as_slice(), 0);
        Ok(packet)
    }
}

/// Length of the RTP header of `pkt`, or 0 when it is not a complete RTP
/// version 2 header.
fn min_rtp_header_len(pkt: &[u8]) -> (r: usize)
    ensures
        r == rtp_header_len(pkt@),
{
    if pkt.len() < 12 {
        return 0;
    }
    let v = pkt[0] >> 6u8;
    if v != 2 {
        return 0;
    }
    let ext = (pkt[0] & 0x10u8) != 0;
    let csrc_count = pkt[0] & 0x0fu8;
    let mut len: usize = 12 + (csrc_count as usize) * 4;
    if ext && pkt.len() >= len + 4 {
        let ext_len = ((pkt[len + 2] as u16) << 8u16) | (pkt[len + 3] as u16);
        len = len + 4 + (ext_len as usize) * 4;
    }
    if pkt.len() < len {
        return 0;
    }
    len
}

/// The counter-mode IV for packet index (`roc`, `seq`).
fn build_ctr_iv(salt: &[u8], ssrc: u32, roc: u32, seq: u16) -> (iv: Vec<u8>)
    requires
        salt@.len() == 14,
    ensures
        iv@ == ctr_iv(salt@, ssrc, roc, seq),
        iv@.len() == 16,
{
    let mut base: Vec<u8> = Vec::new();
    bytes::push_all(&mut base, salt);
    base.push(0u8);
    base.push(0u8);
    let mut mask: Vec<u8> = Vec::new();
    mask.push(0u8);
    mask.push(0u8);
    mask.push(0u8);
    mask.push(0u8);
    bytes::push_be32(&mut mask, ssrc);
    bytes::push_be32(&mut mask, roc);
    bytes::push_be16(&mut mask, seq);
    mask.push(0u8);
    mask.push(0u8);
    assert(base@ =~= salt@ + seq![0u8, 0u8]);
    assert(mask@ =~= seq![0u8, 0u8, 0u8, 0u8] + bytes::be32(ssrc) + bytes::be32(roc) + bytes::be16(seq) + seq![0u8, 0u8]);
    let mut iv: Vec<u8> = Vec::new();
    let mut i: usize = 0;
    while i < 16
        invariant
            base@.len() == 16,
            mask@.len() == 16,
            i <= 16,
            iv@ =~= bytes::xor_bytes(base@, mask@).take(i as int),
        decreases 16 - i,
    {
        iv.push(base[i] ^ mask[i]);
        i = i + 1;
    }
    iv
}

/// HMAC-SHA1-80 authentication tag (RFC 3711 Section 4.2).
fn compute_auth_tag(auth_key: &Vec<u8>, data: &[u8], profile: SrtpProfile) -> (tag: Vec<u8>)
    ensures
        tag@ == Seq::new(10, |i: int| primitives::hmac_sha1_tag(auth_key@, data@)[i]),
{
    let mac = primitives::hmac_sha1(auth_key.as_slice(), data);
    let tag = bytes::copy_range(mac.as_slice(), 0, profile.session_auth_len());
    assert(tag@ =~= Seq::new(10, |i: int| primitives::hmac_sha1_tag(auth_key@, data@)[i]));
    tag
}

/// Counter-mode expansion of `prefix` with SHA-256.
fn expand(prefix: &[u8], out_len: usize) -> (out: Vec<u8>)
    requires
        out_len <= 8192,
        prefix@.len() < usize::MAX,
    ensures
        out@ == spec_expand(prefix@, out_len as nat),
{
    let mut input: Vec<u8> = Vec::new();
    bytes::push_all(&mut input, prefix);
    let mut out: Vec<u8> = Vec::with_capacity(out_len);
    let mut counter: u8 = 0;
    while out.len() < out_len
        invariant
            out_len <= 8192,
            input@ == prefix@,
            out@.len() <= out_len,
            out@.len() < out_len ==> out@.len() == 32 * (counter as int),
            out@ =~= spec_expand(prefix@, out_len as nat).take(out@.len() as int),
        decreases out_len - out@.len(),
    {
        let ghost start = out@.len();
        let mut block_input = bytes::copy_range(input.as_slice(), 0, input.len());
        block_input.push(counter);
        assert(block_input@ =~= prefix@.push(counter));
        let block = primitives::sha256(block_input.as_slice());
        let remaining = out_len - out.len();
        let take = if remaining < 32 { remaining } else { 32 };
        let mut j: usize = 0;
        while j < take
            invariant
                take <= 32,
                block@.len() == 32,
                block@ == primitives::sha256_digest(prefix@.push(counter)),
                start == 32 * (counter as int),
                start + take <= out_len,
                out_len <= 8192,
                out@.len() == start + j,
                j <= take,
                out@ =~= spec_expand(prefix@, out_len as nat).take(out@.len() as int),
            decreases take - j,
        {
            out.push(block[j]);
            proof {
                let k = start + j;
                assert(k / 32 == counter as int) by (nonlinear_arith)
                    requires
                        k == 32 * (counter as int) + j,
                        0 <= j < 32,
                ;
                assert(k % 32 == j as int) by (nonlinear_arith)
                    requires
                        k == 32 * (counter as int) + j,
                        0 <= j < 32,
                ;
            }
            j = j + 1;
        }
        if out.len() < out_len {
            assert(counter < 255);
            counter = counter + 1;
        }
    }
    out
}

/// Derive the three session keys from the master key and salt.
fn derive_session_keys(master_key: &[u8], master_salt: &[u8], direction: u8, ssrc: u32, profile: SrtpProfile) -> (k: SessionKeys)
    requires
        master_key@.len() == profile.key_len(),
        master_salt@.len() == 14,
    ensures
        k.enc_key@ == spec_derive_key(master_key@, master_salt@, 0u8, ssrc, profile.key_len()),
        k.salt@ == spec_derive_key(master_key@, master_salt@, 1u8, ssrc, 14),
        k.auth_key@ == spec_derive_key(master_key@, master_salt@, 2u8, ssrc, 10),
        k.enc_key@.len() == profile.key_len(),
        k.salt@.len() == 14,
        k.auth_key@.len() == 10,
{
    let enc_key = derive_key(master_key, master_salt, 0x00u8, direction, ssrc, profile.session_key_len());
    let salt = derive_key(master_key, master_salt, 0x01u8, direction, ssrc, profile.session_salt_len());
    let auth_key = derive_key(master_key, master_salt, 0x02u8, direction, ssrc, profile.session_auth_len());
    SessionKeys { enc_key, salt, auth_key }
}

/// One session key: SHA-256 expansion of the master key, label, a zero
/// byte, the SSRC and the master salt.
fn derive_key(master_key: &[u8], master_salt: &[u8], label: u8, direction: u8, ssrc: u32, out_len: usize) -> (out: Vec<u8>)
    requires
        master_key@.len() <= 32,
        master_salt@.len() == 14,
        out_len <= 32,
    ensures
        out@ == spec_derive_key(master_key@, master_salt@, label, ssrc, out_len as nat),
        out@.len() == out_len,
{
    let mut prefix: Vec<u8> = Vec::new();
    bytes::push_all(&mut prefix, master_key);
    prefix.push(label);
    prefix.push(0u8);
    bytes::push_be32(&mut prefix, ssrc);
    bytes::push_all(&mut prefix, master_salt);
    assert(prefix@ =~= kdf_prefix(master_key@, label, ssrc, master_salt@));
    expand(prefix.as_slice(), out_len)
}

} // verus!
