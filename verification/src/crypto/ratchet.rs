//! X3DH key agreement and a Double Ratchet that derives a fresh AES-256-GCM
//! key for every message: each chain key yields one message key and the
//! next chain key, so a leaked message key reveals no other.
use vstd::prelude::*;
use crate::bytes;
use crate::primitives;
use crate::crypto::keys::X25519KeyPair;

verus! {

/// A 32-byte key.
pub type Key = [u8; 32];
/// A 12-byte AES-GCM nonce.
pub type NonceBytes = [u8; 12];

/// ASCII codes of "vchat-double-ratchet-root-v1".
pub open spec fn info_root() -> Seq<u8> {
    seq![118u8, 99u8, 104u8, 97u8, 116u8, 45u8, 100u8, 111u8, 117u8, 98u8, 108u8, 101u8, 45u8, 114u8, 97u8, 116u8, 99u8, 104u8, 101u8, 116u8, 45u8, 114u8, 111u8, 111u8, 116u8, 45u8, 118u8, 49u8]
}

/// ASCII codes of "vchat-double-ratchet-chain-v1".
pub open spec fn info_chain() -> Seq<u8> {
    seq![118u8, 99u8, 104u8, 97u8, 116u8, 45u8, 100u8, 111u8, 117u8, 98u8, 108u8, 101u8, 45u8, 114u8, 97u8, 116u8, 99u8, 104u8, 101u8, 116u8, 45u8, 99u8, 104u8, 97u8, 105u8, 110u8, 45u8, 118u8, 49u8]
}

/// ASCII codes of "vchat-double-ratchet-message-v1".
pub open spec fn info_message() -> Seq<u8> {
    seq![118u8, 99u8, 104u8, 97u8, 116u8, 45u8, 100u8, 111u8, 117u8, 98u8, 108u8, 101u8, 45u8, 114u8, 97u8, 116u8, 99u8, 104u8, 101u8, 116u8, 45u8, 109u8, 101u8, 115u8, 115u8, 97u8, 103u8, 101u8, 45u8, 118u8, 49u8]
}

/// ASCII codes of "X3DH".
pub open spec fn info_x3dh() -> Seq<u8> {
    seq![88u8, 51u8, 68u8, 72u8]
}

/// HKDF-SHA256 without salt.
pub open spec fn spec_kdf(ikm: Seq<u8>, info: Seq<u8>, n: nat) -> Seq<u8> {
    primitives::hkdf_sha256_okm(None, ikm, info, n)
}

/// The next chain key.
pub open spec fn spec_chain_next(ck: Seq<u8>) -> Seq<u8> {
    spec_kdf(ck, info_chain(), 32)
}

/// The message key a chain key yields.
pub open spec fn spec_message_key(ck: Seq<u8>) -> Seq<u8> {
    spec_kdf(ck, info_message(), 32)
}

/// The new root key and chain key from the current root key and a DH
/// output.
pub open spec fn spec_root_dh(current: Seq<u8>, dh: Seq<u8>) -> (Seq<u8>, Seq<u8>) {
    let out = spec_kdf(current + dh, info_root(), 64);
    (out.take(32), out.skip(32))
}

/// HKDF-SHA256 without salt, `n` bytes.
pub fn kdf(ikm: &[u8], info: &[u8], n: usize) -> (out: Vec<u8>)
    requires
        n <= 8160,
    ensures
        out@ == spec_kdf(ikm@, info@, n as nat),
        out@.len() == n,
{
    primitives::hkdf_sha256(None, ikm, info, n)
}

fn key_from(v: &Vec<u8>, at: usize) -> (k: Key)
    requires
        at + 32 <= v@.len(),
    ensures
        k@ == v@.subrange(at as int, at + 32),
{
    bytes::take32(v.as_slice(), at)
}

/// The next chain key.
pub fn chain_next(ck: &Key) -> (r: Key)
    ensures
        r@ == spec_chain_next(ck@),
{
    let info: [u8; 29] = [118, 99, 104, 97, 116, 45, 100, 111, 117, 98, 108, 101, 45, 114, 97, 116, 99, 104, 101, 116, 45, 99, 104, 97, 105, 110, 45, 118, 49];
    assert(info@ =~= info_chain());
    let out = kdf(ck, &info, 32);
    let k = key_from(&out, 0);
    assert(k@ =~= out@);
    k
}

/// The message key of a chain key.
pub fn chain_message_key(ck: &Key) -> (r: Key)
    ensures
        r@ == spec_message_key(ck@),
{
    let info: [u8; 31] = [118, 99, 104, 97, 116, 45, 100, 111, 117, 98, 108, 101, 45, 114, 97, 116, 99, 104, 101, 116, 45, 109, 101, 115, 115, 97, 103, 101, 45, 118, 49];
    assert(info@ =~= info_message());
    let out = kdf(ck, &info, 32);
    let k = key_from(&out, 0);
    assert(k@ =~= out@);
    k
}

/// The concatenation of `parts`.
pub fn concat(parts: &Vec<&[u8]>) -> (v: Vec<u8>)
    ensures
        v@ == parts@.map_values(|p: &[u8]| p@).flatten(),
{
    let ghost ps = parts@.map_values(|p: &[u8]| p@);
    let mut v: Vec<u8> = Vec::new();
    let mut i: usize = 0;
    while i < parts.len()
        invariant
            i <= parts@.len(),
            ps == parts@.map_values(|p: &[u8]| p@),
            v@ == ps.take(i as int).flatten(),
        decreases parts@.len() - i,
    {
        bytes::push_all(&mut v, parts[i]);
        proof {
            assert(ps.take(i + 1) =~= ps.take(i as int).push(ps[i as int]));
            ps.take(i as int).lemma_flatten_push(ps[i as int]);
        }
        i = i + 1;
    }
    assert(ps.take(i as int) =~= ps);
    v
}

/// A new root key and chain key from the current root key and a DH output.
pub fn root_dh(current: &Key, dh_shared: &Key) -> (r: (Key, Key))
    ensures
        (r.0@, r.1@) == spec_root_dh(current@, dh_shared@),
{
    let info: [u8; 28] = [118, 99, 104, 97, 116, 45, 100, 111, 117, 98, 108, 101, 45, 114, 97, 116, 99, 104, 101, 116, 45, 114, 111, 111, 116, 45, 118, 49];
    assert(info@ =~= info_root());
    let mut parts: Vec<&[u8]> = Vec::new();
    parts.push(current.as_slice());
    parts.push(dh_shared.as_slice());
    let material = concat(&parts);
    proof {
        let ps = parts@.map_values(|p: &[u8]| p@);
        assert(ps =~= seq![current@, dh_shared@]);
        assert(ps.drop_first().drop_first() =~= Seq::<Seq<u8>>::empty());
        assert(ps.drop_first().drop_first().flatten() =~= Seq::<u8>::empty());
        assert(ps.drop_first().flatten() =~= dh_shared@);
        assert(ps.flatten() =~= current@ + dh_shared@);
        assert(material@ =~= current@ + dh_shared@);
    }
    let out = kdf(&material, &info, 64);
    let rk = key_from(&out, 0);
    let ck = key_from(&out, 32);
    (rk, ck)
}

/// The X3DH key material: the three DH outputs in order.
pub open spec fn spec_x3dh(dh1: Seq<u8>, dh2: Seq<u8>, dh3: Seq<u8>) -> Seq<u8> {
    spec_kdf(dh1 + dh2 + dh3, info_x3dh(), 32)
}

fn x3dh_finish(dh1: &Key, dh2: &Key, dh3: &Key) -> (k: Key)
    ensures
        k@ == spec_x3dh(dh1@, dh2@, dh3@),
{
    let mut material: Vec<u8> = Vec::new();
    bytes::push_all(&mut material, dh1);
    bytes::push_all(&mut material, dh2);
    bytes::push_all(&mut material, dh3);
    let info: [u8; 4] = [88, 51, 68, 72];
    assert(info@ =~= info_x3dh());
    let out = kdf(&material, &info, 32);
    let k = key_from(&out, 0);
    assert(k@ =~= out@);
    let mut i: usize = 0;
    while i < material.len()
        invariant
            i <= material@.len(),
        decreases material@.len() - i,
    {
        material.set(i, 0u8);
        i = i + 1;
    }
    k
}

/// X3DH shared secret for the initiator A:
/// KDF(DH(IK_A, SPK_B) || DH(EK_A, IK_B) || DH(EK_A, SPK_B)).
pub fn x3dh_initiator(ik_a: &X25519KeyPair, ek_a: &X25519KeyPair, ik_b: &Key, spk_b: &Key) -> (k: Key)
    ensures
        k@ == spec_x3dh(
            primitives::x25519_shared(ik_a.spec_secret(), spk_b@),
            primitives::x25519_shared(ek_a.spec_secret(), ik_b@),
            primitives::x25519_shared(ek_a.spec_secret(), spk_b@),
        ),
{
    let dh1 = ik_a.diffie_hellman(spk_b);
    let dh2 = ek_a.diffie_hellman(ik_b);
    let dh3 = ek_a.diffie_hellman(spk_b);
    x3dh_finish(&dh1, &dh2, &dh3)
}

/// X3DH shared secret for the responder B, from the same three DH values
/// seen from B's side: DH(SPK_B, IK_A), DH(IK_B, EK_A), DH(SPK_B, EK_A).
/// When the public keys are those of the secrets, both sides agree.
pub fn x3dh_responder(ik_b: &X25519KeyPair, spk_b: &X25519KeyPair, ik_a: &Key, ek_a_pub: &Key) -> (k: Key)
    ensures
        k@ == spec_x3dh(
            primitives::x25519_shared(spk_b.spec_secret(), ik_a@),
            primitives::x25519_shared(ik_b.spec_secret(), ek_a_pub@),
            primitives::x25519_shared(spk_b.spec_secret(), ek_a_pub@),
        ),
        forall|ik_a_secret: Seq<u8>, ek_a_secret: Seq<u8>|
            ik_a_secret.len() == 32 && ek_a_secret.len() == 32
            && ik_a@ == primitives::x25519_public_key(ik_a_secret)
            && ek_a_pub@ == primitives::x25519_public_key(ek_a_secret)
            ==> #[trigger] spec_x3dh(
                primitives::x25519_shared(ik_a_secret, primitives::x25519_public_key(spk_b.spec_secret())),
                primitives::x25519_shared(ek_a_secret, primitives::x25519_public_key(ik_b.spec_secret())),
                #[trigger] primitives::x25519_shared(ek_a_secret, primitives::x25519_public_key(spk_b.spec_secret())),
            ) == k@,
{
    let dh1 = spk_b.diffie_hellman(ik_a);
    let dh2 = ik_b.diffie_hellman(ek_a_pub);
    let dh3 = spk_b.diffie_hellman(ek_a_pub);
    x3dh_finish(&dh1, &dh2, &dh3)
}


/// Header sent with each ciphertext.
#[derive(Debug, Clone, Copy, PartialEq, Eq)]
pub struct MessageHeader {
    /// The sender's DH public key.
    pub dh_pub: [u8; 32],
    /// Messages in the sender's previous sending chain.
    pub pn: u32,
    /// This message's number in its chain.
    pub n: u32,
}

/// One encrypted message: header, nonce, and AES-256-GCM ciphertext with
/// tag.
#[derive(Debug, Clone)]
pub struct RatchetMessage {
    pub header: MessageHeader,
    pub nonce: NonceBytes,
    pub ciphertext: Vec<u8>,
}

/// The persisted form of a ratchet.
#[derive(Debug, Clone)]
pub struct RatchetState {
    pub root_key: Key,
    pub send_ck: Option<Key>,
    pub recv_ck: Key,
    pub our_dh_secret: [u8; 32],
    pub our_dh_public: [u8; 32],
    pub their_dh_pub: [u8; 32],
    pub ad: Vec<u8>,
    pub n: u32,
    pub pn: u32,
    pub is_initiator: bool,
}

/// The abstract state of a ratchet.
pub struct RatchetView {
    pub root: Seq<u8>,
    pub send: Option<Seq<u8>>,
    pub recv: Seq<u8>,
    pub our_secret: Seq<u8>,
    pub our_public: Seq<u8>,
    pub their: Seq<u8>,
    pub ad: Seq<u8>,
    pub n: u32,
    pub pn: u32,
    pub initiator: bool,
}

/// The view of an optional key.
pub open spec fn opt_key(k: Option<Key>) -> Option<Seq<u8>> {
    match k {
        Some(k) => Some(k@),
        None => None,
    }
}

/// The state a new session starts in, from the X3DH secret and the DH
/// output of the two parties' initial keys. The initiator sends on the
/// first chain key and receives on the next; the responder the other way
/// round, so that each side's sending chain is the other's receiving chain.
pub open spec fn spec_new(shared: Seq<u8>, ad: Seq<u8>, our_secret: Seq<u8>, our_public: Seq<u8>, their: Seq<u8>, dh: Seq<u8>, initiator: bool) -> RatchetView {
    let (rk, ck) = spec_root_dh(shared, dh);
    RatchetView {
        root: rk,
        send: Some(if initiator { ck } else { spec_chain_next(ck) }),
        recv: if initiator { spec_chain_next(ck) } else { ck },
        our_secret,
        our_public,
        their,
        ad,
        n: 0,
        pn: 0,
        initiator,
    }
}

/// The chain key the next message is sent on: the sending chain, or, when
/// there is none, the peer's DH public key.
pub open spec fn sending_chain(v: RatchetView) -> Seq<u8> {
    match v.send {
        Some(k) => k,
        None => v.their,
    }
}

/// The message counter after one more message (wrapping at the top).
pub open spec fn next_count(n: u32) -> u32 {
    if n == u32::MAX { 0 } else { (n + 1) as u32 }
}

/// The state after sending one message.
pub open spec fn after_encrypt(v: RatchetView) -> RatchetView {
    RatchetView { send: Some(spec_chain_next(sending_chain(v))), n: next_count(v.n), ..v }
}

/// The state once a message with DH key `peer` arrives, before its chain
/// key is used: unchanged for the known peer key; for a new one, a DH
/// ratchet step re-keys the root, the old sending chain (or, without one,
/// the new chain key) becomes the receiving chain, and a new sending chain
/// follows the new chain key.
pub open spec fn before_receive(v: RatchetView, peer: Seq<u8>) -> RatchetView {
    if peer == v.their {
        v
    } else {
        let (rk, ck) = spec_root_dh(v.root, primitives::x25519_shared(v.our_secret, peer));
        RatchetView {
            root: rk,
            recv: match v.send {
                Some(k) => k,
                None => ck,
            },
            their: peer,
            pn: v.n,
            n: 0,
            send: Some(spec_chain_next(ck)),
            ..v
        }
    }
}

/// The key that decrypts a message with DH key `peer`.
pub open spec fn receive_key(v: RatchetView, peer: Seq<u8>) -> Seq<u8> {
    spec_message_key(before_receive(v, peer).recv)
}

/// The state after a message with DH key `peer` is received (whether or not
/// it decrypts).
pub open spec fn after_decrypt(v: RatchetView, peer: Seq<u8>) -> RatchetView {
    let u = before_receive(v, peer);
    RatchetView { recv: spec_chain_next(u.recv), ..u }
}

/// Whether `b` receives what `a` sends: `b` knows `a`'s DH key and its
/// receiving chain is `a`'s sending chain.
pub open spec fn paired(a: RatchetView, b: RatchetView) -> bool {
    b.their == a.our_public && b.recv == sending_chain(a)
}

/// A message sent by one side of a pair decrypts with the key the other
/// side uses for it, and the pair stays paired afterwards.
pub proof fn lemma_ratchet_delivers(a: RatchetView, b: RatchetView)
    requires
        paired(a, b),
    ensures
        receive_key(b, a.our_public) == spec_message_key(sending_chain(a)),
        paired(after_encrypt(a), after_decrypt(b, a.our_public)),
{
}

/// Two sessions made from the same X3DH secret and DH output, one as
/// initiator and one as responder, each knowing the other's DH key, are
/// paired both ways.
pub proof fn lemma_new_sessions_paired(shared: Seq<u8>, ad: Seq<u8>, a_secret: Seq<u8>, a_public: Seq<u8>, b_secret: Seq<u8>, b_public: Seq<u8>, dh: Seq<u8>)
    ensures
        paired(spec_new(shared, ad, a_secret, a_public, b_public, dh, true), spec_new(shared, ad, b_secret, b_public, a_public, dh, false)),
        paired(spec_new(shared, ad, b_secret, b_public, a_public, dh, false), spec_new(shared, ad, a_secret, a_public, b_public, dh, true)),
{
}

/// A Double Ratchet session.
pub struct DoubleRatchet {
    root: Key,
    send_ck: Option<Key>,
    recv_ck: Key,
    our_dh: X25519KeyPair,
    their_dh_pub: [u8; 32],
    ad: Vec<u8>,
    n: u32,
    pn: u32,
    initiator: bool,
}

impl View for DoubleRatchet {
    type V = RatchetView;

    closed spec fn view(&self) -> RatchetView {
        RatchetView {
            root: self.root@,
            send: opt_key(self.send_ck),
            recv: self.recv_ck@,
            our_secret: self.our_dh.spec_secret(),
            our_public: self.our_dh.spec_public(),
            their: self.their_dh_pub@,
            ad: self.ad@,
            n: self.n,
            pn: self.pn,
            initiator: self.initiator,
        }
    }
}

impl DoubleRatchet {
    /// Build a session from the X3DH shared secret, the party's own initial
    /// DH key pair and the peer's initial DH public key. Both parties derive
    /// the same DH output, so two sessions built this way are paired (see
    /// `lemma_new_sessions_paired`).
    pub fn new(shared_secret: &Key, ad: &[u8], our_dh: X25519KeyPair, their_dh_pub: [u8; 32], is_initiator: bool) -> (r: Self)
        ensures
            r@ == spec_new(shared_secret@, ad@, our_dh.spec_secret(), our_dh.spec_public(), their_dh_pub@,
                primitives::x25519_shared(our_dh.spec_secret(), their_dh_pub@), is_initiator),
            r@.our_public == primitives::x25519_public_key(r@.our_secret),
            forall|other: Seq<u8>| other.len() == 32 && their_dh_pub@ == primitives::x25519_public_key(other)
                ==> primitives::x25519_shared(our_dh.spec_secret(), their_dh_pub@)
                    == #[trigger] primitives::x25519_shared(other, primitives::x25519_public_key(our_dh.spec_secret())),
    {
        proof {
            use_type_invariant(&our_dh);
            our_dh.lemma_wf();
        }
        let dh_shared = our_dh.diffie_hellman(&their_dh_pub);
        let (rk, ck) = root_dh(shared_secret, &dh_shared);
        let (send, recv) = if is_initiator { (ck, chain_next(&ck)) } else { (chain_next(&ck), ck) };
        let r = DoubleRatchet {
            root: rk,
            send_ck: Some(send),
            recv_ck: recv,
            our_dh,
            their_dh_pub,
            ad: bytes::copy_range(ad, 0, ad.len()),
            n: 0,
            pn: 0,
            initiator: is_initiator,
        };
        assert(r.ad@ =~= ad@);
        r
    }

    /// Whether this side started the session.
    pub fn is_initiator(&self) -> (r: bool)
        ensures
            r == self@.initiator,
    {
        self.initiator
    }

    /// Encrypt `plaintext` with the next message key of the sending chain
    /// and a fresh random nonce, and advance the chain.
    pub fn encrypt(&mut self, plaintext: &[u8]) -> (m: RatchetMessage)
        requires
            plaintext@.len() <= 0x10_0000_0000,
        ensures
            final(self)@ == after_encrypt(old(self)@),
            m.header.dh_pub@ == old(self)@.our_public,
            m.header.pn == old(self)@.pn,
            m.header.n == old(self)@.n,
            m.ciphertext@ == primitives::aes256_gcm_sealed(spec_message_key(sending_chain(old(self)@)), m.nonce@, plaintext@),
    {
        let ck = match self.send_ck {
            Some(k) => k,
            None => self.their_dh_pub,
        };
        let mk = chain_message_key(&ck);
        self.send_ck = Some(chain_next(&ck));
        let nonce = primitives::random_nonce();
        let ciphertext = primitives::aes256_gcm_encrypt(&mk, &nonce, plaintext);
        let m = RatchetMessage {
            header: MessageHeader { dh_pub: self.our_dh.public_bytes(), pn: self.pn, n: self.n },
            nonce,
            ciphertext,
        };
        self.n = if self.n == u32::MAX { 0 } else { self.n + 1 };
        m
    }

    /// Decrypt a message. A new peer DH key first triggers a DH ratchet
    /// step; then the receiving chain yields the message key and advances,
    /// whether or not the ciphertext authenticates.
    pub fn decrypt(&mut self, msg: &RatchetMessage) -> (r: Result<Vec<u8>, RatchetError>)
        ensures
            final(self)@ == after_decrypt(old(self)@, msg.header.dh_pub@),
            match r {
                Ok(p) => primitives::aes256_gcm_opened(receive_key(old(self)@, msg.header.dh_pub@), msg.nonce@, msg.ciphertext@) == Some(p@),
                Err(e) => e == RatchetError::DecryptFailed
                    && primitives::aes256_gcm_opened(receive_key(old(self)@, msg.header.dh_pub@), msg.nonce@, msg.ciphertext@) is None,
            },
            forall|p: Seq<u8>| p.len() <= 0x10_0000_0000
                && msg.ciphertext@ == #[trigger] primitives::aes256_gcm_sealed(receive_key(old(self)@, msg.header.dh_pub@), msg.nonce@, p)
                ==> (r matches Ok(q) && q@ == p),
    {
        let peer_dh = msg.header.dh_pub;
        if !bytes::constant_time_eq(&peer_dh, &self.their_dh_pub) {
            let dh_shared = self.our_dh.diffie_hellman(&peer_dh);
            let (rk, ck) = root_dh(&self.root, &dh_shared);
            self.root = rk;
            self.recv_ck = match self.send_ck {
                Some(k) => k,
                None => ck,
            };
            self.their_dh_pub = peer_dh;
            self.pn = self.n;
            self.n = 0;
            self.send_ck = Some(chain_next(&ck));
        }
        let ck = self.recv_ck;
        let mk = chain_message_key(&ck);
        self.recv_ck = chain_next(&ck);
        match primitives::aes256_gcm_decrypt(&mk, &msg.nonce, msg.ciphertext.as_slice()) {
            Some(p) => Ok(p),
            None => Err(RatchetError::DecryptFailed),
        }
    }

    /// The persisted form of this session.
    pub fn snapshot(&self) -> (s: RatchetState)
        ensures
            state_view(s) == self@,
            state_view(s).our_public == primitives::x25519_public_key(state_view(s).our_secret),
            restored_view(state_view(s)) == state_view(s),
    {
        proof {
            use_type_invariant(&self.our_dh);
            self.our_dh.lemma_wf();
        }
        let s = RatchetState {
            root_key: self.root,
            send_ck: self.send_ck,
            recv_ck: self.recv_ck,
            our_dh_secret: self.our_dh.secret_bytes(),
            our_dh_public: self.our_dh.public_bytes(),
            their_dh_pub: self.their_dh_pub,
            ad: bytes::copy_range(&self.ad, 0, self.ad.len()),
            n: self.n,
            pn: self.pn,
            is_initiator: self.initiator,
        };
        assert(s.ad@ =~= self.ad@);
        s
    }

    /// A session from its persisted form; the public DH key is recomputed
    /// from the secret.
    pub fn restore(state: &RatchetState) -> (r: Self)
        ensures
            r@ == restored_view(state_view(*state)),
    {
        let r = DoubleRatchet {
            root: state.root_key,
            send_ck: state.send_ck,
            recv_ck: state.recv_ck,
            our_dh: X25519KeyPair::from_bytes(&state.our_dh_secret),
            their_dh_pub: state.their_dh_pub,
            ad: bytes::copy_range(&state.ad, 0, state.ad.len()),
            n: state.n,
            pn: state.pn,
            initiator: state.is_initiator,
        };
        assert(r.ad@ =~= state.ad@);
        r
    }
}

/// Why a ratchet message could not be opened.
#[derive(Debug, Clone, Copy, PartialEq, Eq, Structural)]
pub enum RatchetError {
    /// The ciphertext did not authenticate under the message key.
    DecryptFailed,
}

/// The abstract state a persisted form describes.
pub open spec fn state_view(s: RatchetState) -> RatchetView {
    RatchetView {
        root: s.root_key@,
        send: opt_key(s.send_ck),
        recv: s.recv_ck@,
        our_secret: s.our_dh_secret@,
        our_public: s.our_dh_public@,
        their: s.their_dh_pub@,
        ad: s.ad@,
        n: s.n,
        pn: s.pn,
        initiator: s.is_initiator,
    }
}

/// The state restored from `v`: the public key is recomputed.
pub open spec fn restored_view(v: RatchetView) -> RatchetView {
    RatchetView { our_public: primitives::x25519_public_key(v.our_secret), ..v }
}

/// Restoring a snapshot gives back the session, as long as its public DH
/// key is that of its secret (as for every session built by `new` from a
/// key pair made by `X25519KeyPair`).
pub proof fn lemma_snapshot_restore(v: RatchetView)
    requires
        v.our_public == primitives::x25519_public_key(v.our_secret),
    ensures
        restored_view(v) == v,
{
}

} // verus!
