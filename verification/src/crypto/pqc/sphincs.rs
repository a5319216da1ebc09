//! SLH-DSA (SPHINCS+) sized keys and signatures. Signing itself is
//! Ed25519 with the key in the first 32 bytes of each key.
use vstd::prelude::*;
use crate::bytes;
use crate::primitives;

verus! {

/// Public key length.
pub const SPHINCS_PUBLIC_KEY_BYTES: usize = 48;
/// Secret key length.
pub const SPHINCS_SECRET_KEY_BYTES: usize = 96;
/// Signature length.
pub const SPHINCS_SIGNATURE_BYTES: usize = 16224;

/// SLH-DSA public key.
pub struct PublicKey(pub [u8; 48]);

impl PublicKey {
    pub fn as_bytes(&self) -> (r: &[u8])
        ensures
            r@ == self.0@,
    {
        &self.0
    }
}

/// SLH-DSA secret key.
pub struct SecretKey(pub [u8; 96]);

impl SecretKey {
    pub fn as_bytes(&self) -> (r: &[u8])
        ensures
            r@ == self.0@,
    {
        &self.0
    }
}

/// SLH-DSA signature.
pub struct Signature(pub Vec<u8>);

/// The signature of `message`: the 64-byte Ed25519 signature under the
/// secret in the key's first 32 bytes.
pub fn sign(sk: &SecretKey, message: &[u8]) -> (r: Result<Vec<u8>, &'static str>)
    ensures
        r matches Ok(sig) && sig@ == primitives::ed25519_signature(sk.0@.take(32), message@) && sig@.len() == 64,
{
    let secret = bytes::take32(&sk.0, 0);
    assert(secret@ =~= sk.0@.take(32));
    let sig = primitives::ed25519_sign(&secret, message);
    let v = bytes::copy_range(&sig, 0, 64);
    assert(v@ =~= sig@);
    Ok(v)
}

/// Check a signature of `message` under the Ed25519 key in `pk`'s first 32
/// bytes; refused when those bytes are not a curve point or the signature
/// is not 64 bytes long. A signature that `sign` made with the matching
/// secret key is accepted.
pub fn verify(pk: &PublicKey, message: &[u8], sig: &[u8]) -> (r: Result<bool, &'static str>)
    ensures
        !primitives::ed25519_point_valid(pk.0@.take(32)) ==> r == Err::<bool, &'static str>("Invalid Ed25519 public key"),
        primitives::ed25519_point_valid(pk.0@.take(32)) && sig@.len() != 64 ==> r == Err::<bool, &'static str>("Invalid Ed25519 signature length"),
        primitives::ed25519_point_valid(pk.0@.take(32)) && sig@.len() == 64
            ==> r == Ok::<bool, &'static str>(primitives::ed25519_accepts_lax(pk.0@.take(32), message@, sig@)),
        forall|secret: Seq<u8>| secret.len() == 32 && pk.0@.take(32) == primitives::ed25519_public_key(secret)
            && sig@.len() == 64 && sig@ == #[trigger] primitives::ed25519_signature(secret, message@)
            ==> r == Ok::<bool, &'static str>(true),
{
    let key = bytes::take32(&pk.0, 0);
    assert(key@ =~= pk.0@.take(32));
    if !primitives::ed25519_key_valid(&key) {
        return Err("Invalid Ed25519 public key");
    }
    if sig.len() != 64 {
        return Err("Invalid Ed25519 signature length");
    }
    let s = bytes::take64(sig, 0);
    assert(s@ =~= sig@);
    Ok(primitives::ed25519_verify(&key, message, &s))
}

} // verus!
