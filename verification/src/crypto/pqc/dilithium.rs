//! ML-DSA-65 (Dilithium-3) sized keys and signatures. Signing itself is
//! Ed25519: a key carries its Ed25519 value in its first 32 bytes and
//! zeros after them, and a signature is a 64-byte Ed25519 signature.
use vstd::prelude::*;
use crate::bytes;
use crate::primitives;

verus! {

/// Public key length.
pub const DILITHIUM_PUBLIC_KEY_BYTES: usize = 1952;
/// Secret key length.
pub const DILITHIUM_SECRET_KEY_BYTES: usize = 4032;
/// Largest signature length.
pub const DILITHIUM_SIGNATURE_BYTES: usize = 3309;

/// ML-DSA-65 public key.
pub struct PublicKey(pub [u8; 1952]);

impl PublicKey {
    pub fn as_bytes(&self) -> (r: &[u8])
        ensures
            r@ == self.0@,
    {
        &self.0
    }

    /// The value holding `bytes`, which must be exactly 1952 bytes long.
    pub fn from_bytes(bytes: &[u8]) -> (r: Result<Self, &'static str>)
        ensures
            bytes@.len() != 1952 ==> r == Err::<Self, &'static str>("Invalid Dilithium public key length"),
            bytes@.len() == 1952 ==> (r matches Ok(k) && k.0@ == bytes@),
    {
        if bytes.len() != 1952 {
            return Err("Invalid Dilithium public key length");
        }
        let mut key = [0u8; 1952];
        let mut i: usize = 0;
        while i < 1952
            invariant
                i <= 1952,
                bytes@.len() == 1952,
                forall|j: int| 0 <= j < i ==> key@[j] == bytes@[j],
            decreases 1952 - i,
        {
            key[i] = bytes[i];
            i = i + 1;
        }
        assert(key@ =~= bytes@);
        Ok(PublicKey(key))
    }
}

/// ML-DSA-65 secret key.
pub struct SecretKey(pub [u8; 4032]);

impl SecretKey {
    pub fn as_bytes(&self) -> (r: &[u8])
        ensures
            r@ == self.0@,
    {
        &self.0
    }

    /// The value holding `bytes`, which must be exactly 4032 bytes long.
    pub fn from_bytes(bytes: &[u8]) -> (r: Result<Self, &'static str>)
        ensures
            bytes@.len() != 4032 ==> r == Err::<Self, &'static str>("Invalid Dilithium secret key length"),
            bytes@.len() == 4032 ==> (r matches Ok(k) && k.0@ == bytes@),
    {
        if bytes.len() != 4032 {
            return Err("Invalid Dilithium secret key length");
        }
        let mut key = [0u8; 4032];
        let mut i: usize = 0;
        while i < 4032
            invariant
                i <= 4032,
                bytes@.len() == 4032,
                forall|j: int| 0 <= j < i ==> key@[j] == bytes@[j],
            decreases 4032 - i,
        {
            key[i] = bytes[i];
            i = i + 1;
        }
        assert(key@ =~= bytes@);
        Ok(SecretKey(key))
    }
}

/// ML-DSA-65 signature (variable length, at most `DILITHIUM_SIGNATURE_BYTES`).
pub struct Signature(pub Vec<u8>);

impl Signature {
    pub fn as_bytes(&self) -> (r: &[u8])
        ensures
            r@ == self.0@,
    {
        self.0.as_slice()
    }
}

/// Whether `pk` is the public key of `sk`: the Ed25519 public key of the
/// secret in the first 32 bytes.
pub open spec fn sig_keys(pk: Seq<u8>, sk: Seq<u8>) -> bool {
    pk.take(32) == primitives::ed25519_public_key(sk.take(32))
}

/// A fresh key pair: a random Ed25519 secret and its public key, each
/// padded with zeros.
pub fn keypair() -> (r: Result<(PublicKey, SecretKey), &'static str>)
    ensures
        r matches Ok((pk, sk)) && sig_keys(pk.0@, sk.0@)
            && pk.0@.skip(32) == bytes::zeros(1920) && sk.0@.skip(32) == bytes::zeros(4000),
{
    let secret = primitives::random_bytes32();
    let public = primitives::ed25519_public(&secret);
    let pv = bytes::padded32(&public, 1952);
    let sv = bytes::padded32(&secret, 4032);
    assert(pv@.take(32) =~= public@ && pv@.skip(32) =~= bytes::zeros(1920));
    assert(sv@.take(32) =~= secret@ && sv@.skip(32) =~= bytes::zeros(4000));
    let pk = match PublicKey::from_bytes(pv.as_slice()) {
        Ok(k) => k,
        Err(e) => return Err(e),
    };
    let sk = match SecretKey::from_bytes(sv.as_slice()) {
        Ok(k) => k,
        Err(e) => return Err(e),
    };
    Ok((pk, sk))
}

/// The signature of `message`: the Ed25519 signature under the secret in
/// the key's first 32 bytes.
pub fn sign(sk: &SecretKey, message: &[u8]) -> (r: Result<Signature, &'static str>)
    ensures
        r matches Ok(sig) && sig.0@ == primitives::ed25519_signature(sk.0@.take(32), message@) && sig.0@.len() == 64,
{
    let secret = bytes::take32(&sk.0, 0);
    assert(secret@ =~= sk.0@.take(32));
    let sig = primitives::ed25519_sign(&secret, message);
    let v = bytes::copy_range(&sig, 0, 64);
    assert(v@ =~= sig@);
    Ok(Signature(v))
}

/// Check a signature of `message` under the Ed25519 key in `pk`'s first 32
/// bytes; refused when those bytes are not a curve point or the signature
/// is not 64 bytes long. A signature that `sign` made with the matching
/// secret key is accepted.
pub fn verify(pk: &PublicKey, message: &[u8], sig: &Signature) -> (r: Result<bool, &'static str>)
    ensures
        !primitives::ed25519_point_valid(pk.0@.take(32)) ==> r == Err::<bool, &'static str>("Invalid Ed25519 public key"),
        primitives::ed25519_point_valid(pk.0@.take(32)) && sig.0@.len() != 64 ==> r == Err::<bool, &'static str>("Invalid Ed25519 signature length"),
        primitives::ed25519_point_valid(pk.0@.take(32)) && sig.0@.len() == 64
            ==> r == Ok::<bool, &'static str>(primitives::ed25519_accepts_lax(pk.0@.take(32), message@, sig.0@)),
        forall|secret: Seq<u8>| secret.len() == 32 && pk.0@.take(32) == primitives::ed25519_public_key(secret)
            && sig.0@.len() == 64 && sig.0@ == #[trigger] primitives::ed25519_signature(secret, message@)
            ==> r == Ok::<bool, &'static str>(true),
{
    let key = bytes::take32(&pk.0, 0);
    assert(key@ =~= pk.0@.take(32));
    if !primitives::ed25519_key_valid(&key) {
        return Err("Invalid Ed25519 public key");
    }
    if sig.0.len() != 64 {
        return Err("Invalid Ed25519 signature length");
    }
    let s = bytes::take64(sig.0.as_slice(), 0);
    assert(s@ =~= sig.0@);
    Ok(primitives::ed25519_verify(&key, message, &s))
}

} // verus!
