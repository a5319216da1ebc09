//! Noise XX sessions (Noise_XX_25519_ChaChaPoly_BLAKE2s): a handshake of
//! three messages, then encrypted transport messages.
use vstd::prelude::*;
use crate::primitives;

verus! {

#[verifier::external_type_specification]
#[verifier::external_body]
pub struct ExHandshakeState(snow::HandshakeState);

#[verifier::external_type_specification]
#[verifier::external_body]
pub struct ExSnowError(snow::Error);

/// Calls `snow::Builder::new` with the XX pattern over X25519,
/// ChaCha20-Poly1305 and BLAKE2s, `local_private_key(secret)`, then
/// `build_initiator` or `build_responder`. This always succeeds: the
/// pattern name parses, the private key is set once, XX needs no remote
/// key in advance, the default resolver (the crate's default features)
/// provides the random source and all three primitives, and the key
/// lengths agree. Nothing is claimed of the state.
#[verifier::external_body]
fn snow_handshake(secret: &[u8; 32], initiator: bool) -> (r: Result<snow::HandshakeState, snow::Error>)
    ensures
        r is Ok,
{
    let params: snow::params::NoiseParams = "Noise_XX_25519_ChaChaPoly_BLAKE2s".parse()?;
    let builder = snow::Builder::new(params).local_private_key(secret)?;
    if initiator { builder.build_initiator() } else { builder.build_responder() }
}

/// Calls `HandshakeState::write_message` into a 65535-byte buffer and keeps
/// the bytes written. The bytes depend on fresh ephemeral keys; nothing is
/// claimed of them.
#[verifier::external_body]
fn snow_handshake_write(hs: &mut snow::HandshakeState, payload: &[u8]) -> (r: Result<Vec<u8>, snow::Error>)
{
    let mut buf = vec![0u8; 65535];
    let len = hs.write_message(payload, &mut buf)?;
    buf.truncate(len);
    Ok(buf)
}

/// Calls `HandshakeState::read_message` into a 65535-byte buffer and keeps
/// the payload bytes.
#[verifier::external_body]
fn snow_handshake_read(hs: &mut snow::HandshakeState, data: &[u8]) -> (r: Result<Vec<u8>, snow::Error>)
{
    let mut buf = vec![0u8; 65535];
    let len = hs.read_message(data, &mut buf)?;
    buf.truncate(len);
    Ok(buf)
}

/// Calls `HandshakeState::dangerously_get_raw_split`: the two transport
/// keys of the handshake, the initiator's sending key first (the keys
/// `into_transport_mode` would give its two cipher states). Their value
/// depends on the handshake; nothing is claimed of it.
#[verifier::external_body]
fn snow_raw_split(hs: &mut snow::HandshakeState) -> (r: ([u8; 32], [u8; 32]))
{
    hs.dangerously_get_raw_split()
}

/// Calls `HandshakeState::get_remote_static` and copies the key.
#[verifier::external_body]
fn snow_remote_static(hs: &snow::HandshakeState) -> (r: Option<Vec<u8>>)
{
    hs.get_remote_static().map(|k| k.to_vec())
}

/// The ChaCha20-Poly1305 sealing of `plaintext` under `key` with Noise
/// nonce `nonce` and no associated data: ciphertext then 16-byte tag.
pub uninterp spec fn noise_sealed(key: Seq<u8>, nonce: u64, plaintext: Seq<u8>) -> Seq<u8>;

/// The plaintext that `ciphertext` (with its tag) opens to under `key`
/// and nonce `nonce`, or `None` when the tag does not verify.
pub uninterp spec fn noise_opened(key: Seq<u8>, nonce: u64, ciphertext: Seq<u8>) -> Option<Seq<u8>>;

/// Takes snow's ChaChaPoly cipher from `DefaultResolver::resolve_cipher`
/// (present under the crate's default features), sets `key` and calls
/// `Cipher::encrypt` with `nonce` and no associated data: the ciphertext
/// followed by its 16-byte tag. ChaCha20-Poly1305 is deterministic, and
/// opening what it sealed under the same key and nonce gives the plaintext
/// back.
#[verifier::external_body]
fn chachapoly_seal(key: &[u8; 32], nonce: u64, plaintext: &[u8]) -> (out: Vec<u8>)
    requires
        plaintext@.len() <= 65519,
    ensures
        out@ == noise_sealed(key@, nonce, plaintext@),
        out@.len() == plaintext@.len() + 16,
        noise_opened(key@, nonce, out@) == Some(plaintext@),
{
    let mut c = snow::resolvers::CryptoResolver::resolve_cipher(&snow::resolvers::DefaultResolver, &snow::params::CipherChoice::ChaChaPoly).unwrap();
    snow::types::Cipher::set(&mut *c, key);
    let mut out = vec![0u8; plaintext.len() + 16];
    let n = snow::types::Cipher::encrypt(&*c, nonce, &[], plaintext, &mut out);
    out.truncate(n);
    out
}

/// Takes snow's ChaChaPoly cipher as `chachapoly_seal` does and calls
/// `Cipher::decrypt` with `nonce` and no associated data: the plaintext
/// when the tag verifies.
#[verifier::external_body]
fn chachapoly_open(key: &[u8; 32], nonce: u64, ciphertext: &[u8]) -> (r: Option<Vec<u8>>)
    requires
        16 <= ciphertext@.len() <= 65535,
    ensures
        match noise_opened(key@, nonce, ciphertext@) {
            None => r is None,
            Some(p) => r matches Some(q) && q@ == p,
        },
{
    let mut c = snow::resolvers::CryptoResolver::resolve_cipher(&snow::resolvers::DefaultResolver, &snow::params::CipherChoice::ChaChaPoly).unwrap();
    snow::types::Cipher::set(&mut *c, key);
    let mut out = vec![0u8; ciphertext.len() - 16];
    match snow::types::Cipher::decrypt(&*c, nonce, &[], ciphertext, &mut out) {
        Ok(n) => { out.truncate(n); Some(out) },
        Err(_) => None,
    }
}


/// What a transport write with key `key` and nonce `nonce` sends, or
/// `None` when the payload does not fit a Noise message with its tag or the
/// nonce is used up.
pub open spec fn spec_transport_write(key: Seq<u8>, nonce: u64, payload: Seq<u8>) -> Option<Seq<u8>> {
    if payload.len() + 16 > 65535 || nonce == u64::MAX {
        None
    } else {
        Some(noise_sealed(key, nonce, payload))
    }
}

/// What a transport read with key `key` and nonce `nonce` gives of `data`,
/// or `None` when `data` is too long or too short, the nonce is used up or
/// the tag does not verify.
pub open spec fn spec_transport_read(key: Seq<u8>, nonce: u64, data: Seq<u8>) -> Option<Seq<u8>> {
    if data.len() > 65535 || data.len() < 16 || nonce == u64::MAX {
        None
    } else {
        noise_opened(key, nonce, data)
    }
}

/// Whose turn it is to write in the XX handshake after `turn` messages:
/// the initiator writes the first and third, the responder the second.
pub open spec fn writes_next(initiator: bool, turn: nat) -> bool {
    (turn % 2 == 0) == initiator
}

/// Why a Noise step failed.
#[derive(Debug, Clone, Copy, PartialEq, Eq, Structural)]
pub enum NoiseError {
    /// The Noise library refused the step, or the message was refused.
    Refused,
    /// The session has neither a handshake nor a transport.
    NoActiveSession,
}

/// Where a session stands.
#[derive(Debug, Clone, Copy, PartialEq, Eq, Structural)]
pub enum NoisePhase {
    Handshake,
    Transport,
    Closed,
}

/// The transport keys and nonces of a finished handshake.
struct TransportKeys {
    send_key: [u8; 32],
    recv_key: [u8; 32],
    send_nonce: u64,
    recv_nonce: u64,
}

/// A Noise session: a handshake in progress or, once its three messages
/// have passed, a transport.
pub struct NoiseSession {
    handshake: Option<snow::HandshakeState>,
    transport: Option<TransportKeys>,
    is_initiator: bool,
    turn: u8,
}

impl NoiseSession {
    /// A session never holds a handshake and a transport at once; it is in
    /// transport exactly when the three handshake messages have passed.
    #[verifier::type_invariant]
    spec fn one_phase(&self) -> bool {
        &&& !(self.handshake is Some && self.transport is Some)
        &&& self.handshake is Some ==> self.turn < 3
        &&& self.transport is Some ==> self.turn == 3
    }

    /// Where the session stands.
    pub closed spec fn phase(&self) -> NoisePhase {
        if self.handshake is Some {
            NoisePhase::Handshake
        } else if self.transport is Some {
            NoisePhase::Transport
        } else {
            NoisePhase::Closed
        }
    }

    /// Whether the session started the handshake.
    pub closed spec fn spec_initiator(&self) -> bool {
        self.is_initiator
    }

    /// How many handshake messages have passed.
    pub closed spec fn spec_turn(&self) -> nat {
        self.turn as nat
    }

    /// The key transport messages are sent under (meaningful in transport).
    pub closed spec fn spec_send_key(&self) -> Seq<u8> {
        match self.transport {
            Some(t) => t.send_key@,
            None => Seq::empty(),
        }
    }

    /// The key transport messages are received under.
    pub closed spec fn spec_recv_key(&self) -> Seq<u8> {
        match self.transport {
            Some(t) => t.recv_key@,
            None => Seq::empty(),
        }
    }

    /// The nonce of the next transport message sent.
    pub closed spec fn spec_send_nonce(&self) -> u64 {
        match self.transport {
            Some(t) => t.send_nonce,
            None => 0,
        }
    }

    /// The nonce of the next transport message received.
    pub closed spec fn spec_recv_nonce(&self) -> u64 {
        match self.transport {
            Some(t) => t.recv_nonce,
            None => 0,
        }
    }

    /// A session that will start the handshake, with `static_secret` as its
    /// static X25519 key.
    pub fn new_initiator(static_secret: &[u8; 32]) -> (r: Result<Self, NoiseError>)
        ensures
            r is Ok,
            r matches Ok(s) ==> s.phase() == NoisePhase::Handshake && s.spec_initiator() && s.spec_turn() == 0,
    {
        match snow_handshake(static_secret, true) {
            Ok(hs) => Ok(NoiseSession { handshake: Some(hs), transport: None, is_initiator: true, turn: 0 }),
            Err(_) => Err(NoiseError::Refused),
        }
    }

    /// A session that will answer the handshake, with `static_secret` as
    /// its static X25519 key.
    pub fn new_responder(static_secret: &[u8; 32]) -> (r: Result<Self, NoiseError>)
        ensures
            r is Ok,
            r matches Ok(s) ==> s.phase() == NoisePhase::Handshake && !s.spec_initiator() && s.spec_turn() == 0,
    {
        match snow_handshake(static_secret, false) {
            Ok(hs) => Ok(NoiseSession { handshake: Some(hs), transport: None, is_initiator: false, turn: 0 }),
            Err(_) => Err(NoiseError::Refused),
        }
    }

    /// Put back a handshake that has passed one more message; after the
    /// third, take its transport keys (the initiator sends under the first)
    /// and drop it.
    fn advance_handshake(&mut self, hs: snow::HandshakeState)
        requires
            old(self).handshake is None,
            old(self).transport is None,
            old(self).turn < 3,
        ensures
            final(self).is_initiator == old(self).is_initiator,
            final(self).turn == old(self).turn + 1,
            final(self).turn < 3 ==> final(self).phase() == NoisePhase::Handshake,
            final(self).turn == 3 ==> final(self).phase() == NoisePhase::Transport
                && final(self).spec_send_nonce() == 0 && final(self).spec_recv_nonce() == 0,
    {
        let mut hs = hs;
        if self.turn == 2 {
            let (k1, k2) = snow_raw_split(&mut hs);
            let keys = if self.is_initiator {
                TransportKeys { send_key: k1, recv_key: k2, send_nonce: 0, recv_nonce: 0 }
            } else {
                TransportKeys { send_key: k2, recv_key: k1, send_nonce: 0, recv_nonce: 0 }
            };
            self.turn = 3;
            self.transport = Some(keys);
        } else {
            self.turn = self.turn + 1;
            self.handshake = Some(hs);
        }
    }

    /// Write a message: a handshake message while the handshake runs (a
    /// side that writes out of turn is refused; after the third message the
    /// session is in transport), then encrypted transport messages, which
    /// the session whose receiving key and nonce are this one's sending key
    /// and nonce reads back. A closed session refuses.
    pub fn write_message(&mut self, payload: &[u8]) -> (r: Result<Vec<u8>, NoiseError>)
        ensures
            final(self).spec_initiator() == old(self).spec_initiator(),
            old(self).phase() == NoisePhase::Closed ==> r == Err::<Vec<u8>, NoiseError>(NoiseError::NoActiveSession)
                && final(self).phase() == NoisePhase::Closed,
            old(self).phase() == NoisePhase::Handshake ==> {
                &&& !writes_next(old(self).spec_initiator(), old(self).spec_turn())
                    ==> r == Err::<Vec<u8>, NoiseError>(NoiseError::Refused)
                &&& r is Err ==> r == Err::<Vec<u8>, NoiseError>(NoiseError::Refused)
                    && final(self).phase() == NoisePhase::Handshake && final(self).spec_turn() == old(self).spec_turn()
                &&& r is Ok ==> final(self).spec_turn() == old(self).spec_turn() + 1
                    && (final(self).spec_turn() < 3 ==> final(self).phase() == NoisePhase::Handshake)
                    && (final(self).spec_turn() == 3 ==> final(self).phase() == NoisePhase::Transport
                        && final(self).spec_send_nonce() == 0 && final(self).spec_recv_nonce() == 0)
            },
            old(self).phase() == NoisePhase::Transport ==> {
                &&& final(self).phase() == NoisePhase::Transport
                &&& final(self).spec_send_key() == old(self).spec_send_key()
                &&& final(self).spec_recv_key() == old(self).spec_recv_key()
                &&& final(self).spec_recv_nonce() == old(self).spec_recv_nonce()
                &&& match spec_transport_write(old(self).spec_send_key(), old(self).spec_send_nonce(), payload@) {
                    None => r == Err::<Vec<u8>, NoiseError>(NoiseError::Refused)
                        && final(self).spec_send_nonce() == old(self).spec_send_nonce(),
                    Some(c) => r matches Ok(m) && m@ == c
                        && final(self).spec_send_nonce() == old(self).spec_send_nonce() + 1
                        && spec_transport_read(old(self).spec_send_key(), old(self).spec_send_nonce(), m@) == Some(payload@),
                }
            },
    {
        proof { use_type_invariant(&*self); }
        if self.handshake.is_some() {
            let my_turn = (self.turn % 2 == 0) == self.is_initiator;
            if !my_turn {
                return Err(NoiseError::Refused);
            }
            let mut taken: Option<snow::HandshakeState> = None;
            std::mem::swap(&mut taken, &mut self.handshake);
            let mut hs = taken.unwrap();
            match snow_handshake_write(&mut hs, payload) {
                Ok(m) => {
                    self.advance_handshake(hs);
                    return Ok(m);
                },
                Err(_) => {
                    self.handshake = Some(hs);
                    return Err(NoiseError::Refused);
                },
            }
        }
        if self.transport.is_some() {
            let mut taken: Option<TransportKeys> = None;
            std::mem::swap(&mut taken, &mut self.transport);
            let mut t = taken.unwrap();
            if payload.len() > 65519 || t.send_nonce == u64::MAX {
                self.transport = Some(t);
                return Err(NoiseError::Refused);
            }
            let c = chachapoly_seal(&t.send_key, t.send_nonce, payload);
            t.send_nonce = t.send_nonce + 1;
            self.transport = Some(t);
            return Ok(c);
        }
        Err(NoiseError::NoActiveSession)
    }

    /// Read a message: a handshake message while the handshake runs (a
    /// side that reads out of turn is refused; after the third message the
    /// session is in transport), then encrypted transport messages, giving
    /// their payloads. A closed session refuses.
    pub fn read_message(&mut self, data: &[u8]) -> (r: Result<Vec<u8>, NoiseError>)
        ensures
            final(self).spec_initiator() == old(self).spec_initiator(),
            old(self).phase() == NoisePhase::Closed ==> r == Err::<Vec<u8>, NoiseError>(NoiseError::NoActiveSession)
                && final(self).phase() == NoisePhase::Closed,
            old(self).phase() == NoisePhase::Handshake ==> {
                &&& writes_next(old(self).spec_initiator(), old(self).spec_turn())
                    ==> r == Err::<Vec<u8>, NoiseError>(NoiseError::Refused)
                &&& r is Err ==> r == Err::<Vec<u8>, NoiseError>(NoiseError::Refused)
                    && final(self).phase() == NoisePhase::Handshake && final(self).spec_turn() == old(self).spec_turn()
                &&& r is Ok ==> final(self).spec_turn() == old(self).spec_turn() + 1
                    && (final(self).spec_turn() < 3 ==> final(self).phase() == NoisePhase::Handshake)
                    && (final(self).spec_turn() == 3 ==> final(self).phase() == NoisePhase::Transport
                        && final(self).spec_send_nonce() == 0 && final(self).spec_recv_nonce() == 0)
            },
            old(self).phase() == NoisePhase::Transport ==> {
                &&& final(self).phase() == NoisePhase::Transport
                &&& final(self).spec_send_key() == old(self).spec_send_key()
                &&& final(self).spec_recv_key() == old(self).spec_recv_key()
                &&& final(self).spec_send_nonce() == old(self).spec_send_nonce()
                &&& match spec_transport_read(old(self).spec_recv_key(), old(self).spec_recv_nonce(), data@) {
                    None => r == Err::<Vec<u8>, NoiseError>(NoiseError::Refused)
                        && final(self).spec_recv_nonce() == old(self).spec_recv_nonce(),
                    Some(p) => r matches Ok(q) && q@ == p
                        && final(self).spec_recv_nonce() == old(self).spec_recv_nonce() + 1,
                }
            },
    {
        proof { use_type_invariant(&*self); }
        if self.handshake.is_some() {
            let my_turn = (self.turn % 2 == 0) == self.is_initiator;
            if my_turn {
                return Err(NoiseError::Refused);
            }
            let mut taken: Option<snow::HandshakeState> = None;
            std::mem::swap(&mut taken, &mut self.handshake);
            let mut hs = taken.unwrap();
            match snow_handshake_read(&mut hs, data) {
                Ok(m) => {
                    self.advance_handshake(hs);
                    return Ok(m);
                },
                Err(_) => {
                    self.handshake = Some(hs);
                    return Err(NoiseError::Refused);
                },
            }
        }
        if self.transport.is_some() {
            let mut taken: Option<TransportKeys> = None;
            std::mem::swap(&mut taken, &mut self.transport);
            let mut t = taken.unwrap();
            if data.len() > 65535 || data.len() < 16 || t.recv_nonce == u64::MAX {
                self.transport = Some(t);
                return Err(NoiseError::Refused);
            }
            match chachapoly_open(&t.recv_key, t.recv_nonce, data) {
                Some(p) => {
                    t.recv_nonce = t.recv_nonce + 1;
                    self.transport = Some(t);
                    return Ok(p);
                },
                None => {
                    self.transport = Some(t);
                    return Err(NoiseError::Refused);
                },
            }
        }
        Err(NoiseError::NoActiveSession)
    }

    /// Whether the handshake has finished and the transport is up.
    pub fn is_handshake_complete(&self) -> (r: bool)
        ensures
            r == (self.phase() == NoisePhase::Transport),
    {
        self.handshake.is_none() && self.transport.is_some()
    }

    /// The peer's static key as the handshake has learnt it; `None` once the
    /// session is in transport.
    pub fn get_remote_static_key(&self) -> (r: Option<Vec<u8>>)
        ensures
            self.phase() != NoisePhase::Handshake ==> r is None,
    {
        match &self.handshake {
            Some(hs) => snow_remote_static(hs),
            None => None,
        }
    }

    /// Whether the session started the handshake.
    pub fn is_initiator(&self) -> (r: bool)
        ensures
            r == self.spec_initiator(),
    {
        self.is_initiator
    }
}

/// What one side of a transport writes, the paired side reads: when the
/// receiver's key and nonce are the sender's sending key and nonce, the
/// message a write produced reads back as its payload, on either key.
pub proof fn lemma_paired_sessions_deliver(a: NoiseSession, b: NoiseSession, payload: Seq<u8>, m: Seq<u8>)
    requires
        b.phase() == NoisePhase::Transport,
        b.spec_recv_key() == a.spec_send_key(),
        b.spec_recv_nonce() == a.spec_send_nonce(),
        spec_transport_read(a.spec_send_key(), a.spec_send_nonce(), m) == Some(payload),
    ensures
        spec_transport_read(b.spec_recv_key(), b.spec_recv_nonce(), m) == Some(payload),
{
}

/// A fresh static X25519 key pair: a random secret and its public key.
pub fn generate_static_keypair() -> (r: Result<([u8; 32], [u8; 32]), NoiseError>)
    ensures
        r matches Ok((secret, public)) && public@ == primitives::x25519_public_key(secret@),
{
    let secret = primitives::random_bytes32();
    let public = primitives::x25519_public(&secret);
    Ok((secret, public))
}

/// A fresh ephemeral X25519 key pair: a random secret and its public key.
pub fn ephemeral_keypair() -> (r: Result<([u8; 32], [u8; 32]), NoiseError>)
    ensures
        r matches Ok((secret, public)) && public@ == primitives::x25519_public_key(secret@),
{
    let secret = primitives::random_bytes32();
    let public = primitives::x25519_public(&secret);
    Ok((secret, public))
}

} // verus!
