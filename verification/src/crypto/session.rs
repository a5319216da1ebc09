//! Helpers for per-peer ratchet sessions: key wiping and the canonical
//! associated data that binds a session to its two peers.
use vstd::prelude::*;
use vstd::string::StringSliceAdditionalSpecFns;
use crate::bytes;
use crate::primitives;
use crate::crypto::keys::X25519KeyPair;
use crate::crypto::ratchet::{self, DoubleRatchet, Key, MessageHeader, RatchetMessage, RatchetState};

verus! {

/// Overwrite a key with zeros before it is dropped.
pub fn wipe(k: [u8; 32])
{
    let mut k = k;
    primitives::zeroize32(&mut k);
}

/// Byte-wise lexicographic order (the order of `str`).
pub open spec fn lex_le(a: Seq<u8>, b: Seq<u8>) -> bool
    decreases a.len(),
{
    if a.len() == 0 {
        true
    } else if b.len() == 0 {
        false
    } else if a[0] != b[0] {
        a[0] < b[0]
    } else {
        lex_le(a.drop_first(), b.drop_first())
    }
}

/// Lexicographic order is total and antisymmetric.
pub proof fn lemma_lex_total(a: Seq<u8>, b: Seq<u8>)
    ensures
        lex_le(a, b) || lex_le(b, a),
        lex_le(a, b) && lex_le(b, a) ==> a == b,
    decreases a.len(),
{
    if a.len() > 0 && b.len() > 0 && a[0] == b[0] {
        lemma_lex_total(a.drop_first(), b.drop_first());
        if a.drop_first() == b.drop_first() {
            assert(a =~= seq![a[0]] + a.drop_first());
            assert(b =~= seq![b[0]] + b.drop_first());
        }
    } else if a.len() == 0 && b.len() == 0 {
        assert(a =~= b);
    }
}

fn lex_le_exec(a: &[u8], b: &[u8]) -> (r: bool)
    ensures
        r == lex_le(a@, b@),
{
    let mut i: usize = 0;
    assert(a@.skip(0) =~= a@ && b@.skip(0) =~= b@);
    while i < a.len() && i < b.len() && a[i] == b[i]
        invariant
            i <= a@.len(),
            i <= b@.len(),
            lex_le(a@, b@) == lex_le(a@.skip(i as int), b@.skip(i as int)),
        decreases a@.len() - i,
    {
        assert(a@.skip(i as int).drop_first() =~= a@.skip(i + 1));
        assert(b@.skip(i as int).drop_first() =~= b@.skip(i + 1));
        i = i + 1;
    }
    assert(i < a@.len() ==> a@.skip(i as int)[0] == a@[i as int]);
    assert(i < b@.len() ==> b@.skip(i as int)[0] == b@[i as int]);
    if i == a.len() {
        true
    } else if i == b.len() {
        false
    } else {
        a[i] < b[i]
    }
}

/// The associated data for peers `a` and `b`: the smaller name (by bytes),
/// a zero byte, then the other name.
pub open spec fn spec_associated_data(a: Seq<u8>, b: Seq<u8>) -> Seq<u8> {
    if lex_le(a, b) { a + seq![0u8] + b } else { b + seq![0u8] + a }
}

/// Build the associated-data binding for two peers (canonical ordering).
pub fn associated_data(a_onion: &str, b_onion: &str) -> (ad: Vec<u8>)
    ensures
        ad@ == spec_associated_data(a_onion.spec_bytes(), b_onion.spec_bytes()),
{
    let a = a_onion.as_bytes();
    let b = b_onion.as_bytes();
    let mut ad: Vec<u8> = Vec::new();
    if lex_le_exec(a, b) {
        bytes::push_all(&mut ad, a);
        ad.push(0u8);
        bytes::push_all(&mut ad, b);
    } else {
        bytes::push_all(&mut ad, b);
        ad.push(0u8);
        bytes::push_all(&mut ad, a);
    }
    ad
}

/// Both peers compute the same associated data, whichever order they name
/// each other in.
pub proof fn lemma_associated_data_symmetric(a: Seq<u8>, b: Seq<u8>)
    ensures
        spec_associated_data(a, b) == spec_associated_data(b, a),
{
    lemma_lex_total(a, b);
}


/// A ratchet snapshot as stored per peer.
pub type SessionState = RatchetState;

/// Why a session message could not be opened.
#[derive(Debug, Clone, Copy, PartialEq, Eq, Structural)]
pub enum SessionError {
    /// The data is shorter than the fixed 56-byte header.
    TooShort,
    /// The ciphertext did not authenticate.
    DecryptFailed,
}

/// Length of the fixed part of a session message.
pub const WIRE_HEADER_LEN: usize = 56;

/// The wire form of a ratchet message: DH key, `pn` and `n` as
/// little-endian 32-bit values, nonce, ciphertext length as a little-endian
/// 32-bit value, ciphertext.
pub open spec fn spec_wire(dh_pub: Seq<u8>, pn: u32, n: u32, nonce: Seq<u8>, ct: Seq<u8>) -> Seq<u8> {
    dh_pub + bytes::le32(pn) + bytes::le32(n) + nonce + bytes::le32(ct.len() as u32) + ct
}

/// Whether `wire` holds a whole message: either too short for a header
/// (refused), or long enough for the ciphertext its header announces.
pub open spec fn wire_complete(wire: Seq<u8>) -> bool {
    wire.len() < 56 || 56 + bytes::read_le32(wire, 52) <= wire.len()
}

/// The parts of a wire message: DH key, `pn`, `n`, nonce, ciphertext.
pub open spec fn parse_wire(wire: Seq<u8>) -> (Seq<u8>, u32, u32, Seq<u8>, Seq<u8>) {
    (
        wire.subrange(0, 32),
        bytes::read_le32(wire, 32),
        bytes::read_le32(wire, 36),
        wire.subrange(40, 52),
        wire.subrange(56, 56 + bytes::read_le32(wire, 52)),
    )
}

/// Parsing a written message gives back its parts.
pub proof fn lemma_wire_round_trip(dh_pub: Seq<u8>, pn: u32, n: u32, nonce: Seq<u8>, ct: Seq<u8>)
    requires
        dh_pub.len() == 32,
        nonce.len() == 12,
        ct.len() <= u32::MAX,
    ensures
        wire_complete(spec_wire(dh_pub, pn, n, nonce, ct)),
        parse_wire(spec_wire(dh_pub, pn, n, nonce, ct)) == (dh_pub, pn, n, nonce, ct),
{
    let w = spec_wire(dh_pub, pn, n, nonce, ct);
    bytes::lemma_le32_roundtrip(pn);
    bytes::lemma_le32_roundtrip(n);
    bytes::lemma_le32_roundtrip(ct.len() as u32);
    assert(w.subrange(32, 36) =~= bytes::le32(pn));
    assert(w.subrange(36, 40) =~= bytes::le32(n));
    assert(w.subrange(52, 56) =~= bytes::le32(ct.len() as u32));
    assert(bytes::read_le32(w, 32) == bytes::read_le32(bytes::le32(pn), 0));
    assert(bytes::read_le32(w, 36) == bytes::read_le32(bytes::le32(n), 0));
    assert(bytes::read_le32(w, 52) == bytes::read_le32(bytes::le32(ct.len() as u32), 0));
    assert(w.subrange(0, 32) =~= dh_pub);
    assert(w.subrange(40, 52) =~= nonce);
    assert(w.subrange(56, 56 + ct.len() as int) =~= ct);
}

/// A resumable Double Ratchet session with one peer.
pub struct Session {
    ratchet: DoubleRatchet,
}

impl View for Session {
    type V = ratchet::RatchetView;

    closed spec fn view(&self) -> ratchet::RatchetView {
        self.ratchet@
    }
}

impl Session {
    /// A fresh session from an X3DH shared secret (see `DoubleRatchet::new`).
    pub fn new(shared_secret: &Key, ad: &[u8], our_dh: X25519KeyPair, their_dh_pub: &[u8; 32], is_initiator: bool) -> (r: Self)
        ensures
            r@ == ratchet::spec_new(shared_secret@, ad@, our_dh.spec_secret(), our_dh.spec_public(), their_dh_pub@,
                primitives::x25519_shared(our_dh.spec_secret(), their_dh_pub@), is_initiator),
            r@.our_public == primitives::x25519_public_key(r@.our_secret),
            forall|other: Seq<u8>| other.len() == 32 && their_dh_pub@ == primitives::x25519_public_key(other)
                ==> primitives::x25519_shared(our_dh.spec_secret(), their_dh_pub@)
                    == #[trigger] primitives::x25519_shared(other, primitives::x25519_public_key(our_dh.spec_secret())),
    {
        Session { ratchet: DoubleRatchet::new(shared_secret, ad, our_dh, *their_dh_pub, is_initiator) }
    }

    /// Encrypt `plaintext` for the peer, in wire form.
    pub fn encrypt(&mut self, plaintext: &[u8]) -> (r: Result<Vec<u8>, SessionError>)
        requires
            plaintext@.len() <= 0x10_0000_0000,
        ensures
            final(self)@ == ratchet::after_encrypt(old(self)@),
            r matches Ok(w) && exists|nonce: Seq<u8>| nonce.len() == 12 && #[trigger] w@ == spec_wire(
                old(self)@.our_public, old(self)@.pn, old(self)@.n, nonce,
                primitives::aes256_gcm_sealed(ratchet::spec_message_key(ratchet::sending_chain(old(self)@)), nonce, plaintext@),
            ),
    {
        let m = self.ratchet.encrypt(plaintext);
        let mut buf: Vec<u8> = Vec::new();
        bytes::push_all(&mut buf, &m.header.dh_pub);
        bytes::push_le32(&mut buf, m.header.pn);
        bytes::push_le32(&mut buf, m.header.n);
        bytes::push_all(&mut buf, &m.nonce);
        bytes::push_le32(&mut buf, m.ciphertext.len() as u32);
        bytes::push_all(&mut buf, &m.ciphertext);
        assert(buf@ =~= spec_wire(m.header.dh_pub@, m.header.pn, m.header.n, m.nonce@, m.ciphertext@));
        Ok(buf)
    }

    /// Decrypt a wire message from the peer. The ratchet state moves on
    /// whenever the message is long enough to parse.
    pub fn decrypt(&mut self, wire: &[u8]) -> (r: Result<Vec<u8>, SessionError>)
        requires
            wire_complete(wire@),
        ensures
            wire@.len() < 56 ==> r == Err::<Vec<u8>, SessionError>(SessionError::TooShort) && final(self)@ == old(self)@,
            wire@.len() >= 56 ==> {
                let (dh, pn, n, nonce, ct) = parse_wire(wire@);
                let key = ratchet::receive_key(old(self)@, dh);
                &&& final(self)@ == ratchet::after_decrypt(old(self)@, dh)
                &&& match r {
                    Ok(p) => primitives::aes256_gcm_opened(key, nonce, ct) == Some(p@),
                    Err(e) => e == SessionError::DecryptFailed && primitives::aes256_gcm_opened(key, nonce, ct) is None,
                }
                &&& forall|p: Seq<u8>| p.len() <= 0x10_0000_0000 && ct == #[trigger] primitives::aes256_gcm_sealed(key, nonce, p)
                    ==> (r matches Ok(q) && q@ == p)
            },
    {
        if wire.len() < WIRE_HEADER_LEN {
            return Err(SessionError::TooShort);
        }
        let dh_pub = bytes::take32(wire, 0);
        let pn = bytes::load_le32(wire, 32);
        let n = bytes::load_le32(wire, 36);
        let nonce = bytes::take12(wire, 40);
        let len = bytes::load_le32(wire, 52) as usize;
        let ciphertext = bytes::copy_range(wire, 56, 56 + len);
        let msg = RatchetMessage { header: MessageHeader { dh_pub, pn, n }, nonce, ciphertext };
        match self.ratchet.decrypt(&msg) {
            Ok(p) => Ok(p),
            Err(_) => Err(SessionError::DecryptFailed),
        }
    }

    /// The session's persisted form.
    pub fn snapshot(&self) -> (r: Result<SessionState, SessionError>)
        ensures
            r matches Ok(s) && ratchet::state_view(s) == self@,
    {
        Ok(self.ratchet.snapshot())
    }

    /// A session from its persisted form.
    pub fn restore(state: &SessionState) -> (r: Result<Self, SessionError>)
        ensures
            r matches Ok(s) && s@ == ratchet::restored_view(ratchet::state_view(*state)),
    {
        Ok(Session { ratchet: DoubleRatchet::restore(state) })
    }

    /// Whether this side started the session.
    pub fn is_initiator(&self) -> (r: Result<bool, SessionError>)
        ensures
            r == Ok::<bool, SessionError>(self@.initiator),
    {
        Ok(self.ratchet.is_initiator())
    }
}

/// Our DH public key, for ratchet initiation.
pub fn our_ratchet_public(our_dh: &X25519KeyPair) -> (r: [u8; 32])
    ensures
        r@ == our_dh.spec_public(),
{
    our_dh.public_bytes()
}

} // verus!
