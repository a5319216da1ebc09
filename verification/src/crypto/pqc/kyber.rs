//! ML-KEM-768 (Kyber-768) sized keys, ciphertexts and shared secrets. The
//! key exchange itself is X25519: a key or ciphertext carries its X25519
//! value in its first 32 bytes and zeros after them.
use vstd::prelude::*;
use crate::bytes;
use crate::primitives;

verus! {

/// Public key length.
pub const KYBER_PUBLIC_KEY_BYTES: usize = 1184;
/// Secret key length.
pub const KYBER_SECRET_KEY_BYTES: usize = 2400;
/// Ciphertext length.
pub const KYBER_CIPHERTEXT_BYTES: usize = 1088;
/// Shared secret length.
pub const KYBER_SHARED_SECRET_BYTES: usize = 32;
/// Seed length.
pub const KYBER_SYM_BYTES: usize = 32;

/// ML-KEM-768 public key.
pub struct PublicKey(pub [u8; 1184]);

impl PublicKey {
    pub fn as_bytes(&self) -> (r: &[u8])
        ensures
            r@ == self.0@,
    {
        &self.0
    }

    /// The value holding `bytes`, which must be exactly 1184 bytes long.
    pub fn from_bytes(bytes: &[u8]) -> (r: Result<Self, &'static str>)
        ensures
            bytes@.len() != 1184 ==> r == Err::<Self, &'static str>("Invalid public key length"),
            bytes@.len() == 1184 ==> (r matches Ok(k) && k.0@ == bytes@),
    {
        if bytes.len() != 1184 {
            return Err("Invalid public key length");
        }
        let mut key = [0u8; 1184];
        let mut i: usize = 0;
        while i < 1184
            invariant
                i <= 1184,
                bytes@.len() == 1184,
                forall|j: int| 0 <= j < i ==> key@[j] == bytes@[j],
            decreases 1184 - i,
        {
            key[i] = bytes[i];
            i = i + 1;
        }
        assert(key@ =~= bytes@);
        Ok(PublicKey(key))
    }
}

/// ML-KEM-768 secret key.
pub struct SecretKey(pub [u8; 2400]);

impl SecretKey {
    pub fn as_bytes(&self) -> (r: &[u8])
        ensures
            r@ == self.0@,
    {
        &self.0
    }

    /// The value holding `bytes`, which must be exactly 2400 bytes long.
    pub fn from_bytes(bytes: &[u8]) -> (r: Result<Self, &'static str>)
        ensures
            bytes@.len() != 2400 ==> r == Err::<Self, &'static str>("Invalid secret key length"),
            bytes@.len() == 2400 ==> (r matches Ok(k) && k.0@ == bytes@),
    {
        if bytes.len() != 2400 {
            return Err("Invalid secret key length");
        }
        let mut key = [0u8; 2400];
        let mut i: usize = 0;
        while i < 2400
            invariant
                i <= 2400,
                bytes@.len() == 2400,
                forall|j: int| 0 <= j < i ==> key@[j] == bytes@[j],
            decreases 2400 - i,
        {
            key[i] = bytes[i];
            i = i + 1;
        }
        assert(key@ =~= bytes@);
        Ok(SecretKey(key))
    }
}

/// ML-KEM-768 ciphertext.
pub struct Ciphertext(pub [u8; 1088]);

impl Ciphertext {
    pub fn as_bytes(&self) -> (r: &[u8])
        ensures
            r@ == self.0@,
    {
        &self.0
    }

    /// The value holding `bytes`, which must be exactly 1088 bytes long.
    pub fn from_bytes(bytes: &[u8]) -> (r: Result<Self, &'static str>)
        ensures
            bytes@.len() != 1088 ==> r == Err::<Self, &'static str>("Invalid ciphertext length"),
            bytes@.len() == 1088 ==> (r matches Ok(k) && k.0@ == bytes@),
    {
        if bytes.len() != 1088 {
            return Err("Invalid ciphertext length");
        }
        let mut key = [0u8; 1088];
        let mut i: usize = 0;
        while i < 1088
            invariant
                i <= 1088,
                bytes@.len() == 1088,
                forall|j: int| 0 <= j < i ==> key@[j] == bytes@[j],
            decreases 1088 - i,
        {
            key[i] = bytes[i];
            i = i + 1;
        }
        assert(key@ =~= bytes@);
        Ok(Ciphertext(key))
    }
}

/// ML-KEM-768 shared secret.
pub struct SharedSecret(pub [u8; 32]);

impl SharedSecret {
    pub fn as_bytes(&self) -> (r: &[u8])
        ensures
            r@ == self.0@,
    {
        &self.0
    }

    /// The value holding `bytes`, which must be exactly 32 bytes long.
    pub fn from_bytes(bytes: &[u8]) -> (r: Result<Self, &'static str>)
        ensures
            bytes@.len() != 32 ==> r == Err::<Self, &'static str>("Invalid shared secret length"),
            bytes@.len() == 32 ==> (r matches Ok(k) && k.0@ == bytes@),
    {
        if bytes.len() != 32 {
            return Err("Invalid shared secret length");
        }
        let mut key = [0u8; 32];
        let mut i: usize = 0;
        while i < 32
            invariant
                i <= 32,
                bytes@.len() == 32,
                forall|j: int| 0 <= j < i ==> key@[j] == bytes@[j],
            decreases 32 - i,
        {
            key[i] = bytes[i];
            i = i + 1;
        }
        assert(key@ =~= bytes@);
        Ok(SharedSecret(key))
    }
}

/// Whether `pk` is the public key of `sk`: the X25519 public key of the
/// secret in the first 32 bytes.
pub open spec fn kem_keys(pk: Seq<u8>, sk: Seq<u8>) -> bool {
    pk.take(32) == primitives::x25519_public_key(sk.take(32))
}

/// Whether `(ct, ss)` is an encapsulation to `pk`: for some 32-byte
/// ephemeral secret, `ct` starts with its public key and `ss` is its shared
/// secret with the X25519 key in `pk`.
pub open spec fn encapsulated(pk: Seq<u8>, ct: Seq<u8>, ss: Seq<u8>) -> bool {
    exists|e: Seq<u8>| #![trigger primitives::x25519_public_key(e)]
        e.len() == 32 && ct.take(32) == primitives::x25519_public_key(e)
        && ss == primitives::x25519_shared(e, pk.take(32))
}

/// What decapsulating `ct` with `sk` gives: the X25519 shared secret of
/// the secret in `sk` and the public key in `ct`, which (X25519 being
/// symmetric) is what the holder of the ephemeral secret computed.
pub open spec fn decapsulated(sk: Seq<u8>, ct: Seq<u8>, ss: Seq<u8>) -> bool {
    &&& ss == primitives::x25519_shared(sk.take(32), ct.take(32))
    &&& forall|e: Seq<u8>| e.len() == 32 && ct.take(32) == primitives::x25519_public_key(e)
        ==> ss == #[trigger] primitives::x25519_shared(e, primitives::x25519_public_key(sk.take(32)))
}

/// A fresh key pair: a random X25519 secret and its public key, each
/// padded with zeros.
pub fn keypair() -> (r: Result<(PublicKey, SecretKey), &'static str>)
    ensures
        r matches Ok((pk, sk)) && kem_keys(pk.0@, sk.0@)
            && pk.0@.skip(32) == bytes::zeros(1152) && sk.0@.skip(32) == bytes::zeros(2368),
{
    let secret = primitives::random_bytes32();
    let public = primitives::x25519_public(&secret);
    let pv = bytes::padded32(&public, 1184);
    let sv = bytes::padded32(&secret, 2400);
    assert(pv@.take(32) =~= public@ && pv@.skip(32) =~= bytes::zeros(1152));
    assert(sv@.take(32) =~= secret@ && sv@.skip(32) =~= bytes::zeros(2368));
    let pk = match PublicKey::from_bytes(pv.as_slice()) {
        Ok(k) => k,
        Err(e) => return Err(e),
    };
    let sk = match SecretKey::from_bytes(sv.as_slice()) {
        Ok(k) => k,
        Err(e) => return Err(e),
    };
    Ok((pk, sk))
}

/// Encapsulate a shared secret to `pk` with a fresh ephemeral X25519
/// secret: the ciphertext holds the ephemeral public key, the shared
/// secret is the Diffie-Hellman value.
pub fn encapsulate(pk: &PublicKey) -> (r: Result<(Ciphertext, SharedSecret), &'static str>)
    ensures
        r matches Ok((ct, ss)) && encapsulated(pk.0@, ct.0@, ss.0@) && ct.0@.skip(32) == bytes::zeros(1056),
{
    let recipient = bytes::take32(&pk.0, 0);
    let ephemeral = primitives::random_bytes32();
    let eph_pub = primitives::x25519_public(&ephemeral);
    let shared = primitives::x25519_dh(&ephemeral, &recipient);
    let cv = bytes::padded32(&eph_pub, 1088);
    assert(cv@.take(32) =~= eph_pub@ && cv@.skip(32) =~= bytes::zeros(1056));
    assert(recipient@ =~= pk.0@.take(32));
    let ct = match Ciphertext::from_bytes(cv.as_slice()) {
        Ok(c) => c,
        Err(e) => return Err(e),
    };
    assert(ct.0@.take(32) == primitives::x25519_public_key(ephemeral@));
    Ok((ct, SharedSecret(shared)))
}

/// The shared secret that `ct` carries for the holder of `sk`.
pub fn decapsulate(sk: &SecretKey, ct: &Ciphertext) -> (r: Result<SharedSecret, &'static str>)
    ensures
        r matches Ok(ss) && decapsulated(sk.0@, ct.0@, ss.0@),
{
    let eph_pub = bytes::take32(&ct.0, 0);
    let secret = bytes::take32(&sk.0, 0);
    assert(eph_pub@ =~= ct.0@.take(32));
    assert(secret@ =~= sk.0@.take(32));
    let shared = primitives::x25519_dh(&secret, &eph_pub);
    Ok(SharedSecret(shared))
}

/// A shared secret encapsulated to a key pair's public key is what
/// decapsulating with its secret key gives.
pub proof fn lemma_kem_agreement(pk: Seq<u8>, sk: Seq<u8>, ct: Seq<u8>, ss1: Seq<u8>, ss2: Seq<u8>)
    requires
        kem_keys(pk, sk),
        encapsulated(pk, ct, ss1),
        decapsulated(sk, ct, ss2),
    ensures
        ss1 == ss2,
{
    let e = choose|e: Seq<u8>| #![trigger primitives::x25519_public_key(e)]
        e.len() == 32 && ct.take(32) == primitives::x25519_public_key(e)
        && ss1 == primitives::x25519_shared(e, pk.take(32));
    assert(ss2 == primitives::x25519_shared(e, primitives::x25519_public_key(sk.take(32))));
}

} // verus!
