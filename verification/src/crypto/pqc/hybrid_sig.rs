//! Hybrid signatures: ML-DSA-65 combined with Ed25519.
use vstd::prelude::*;
use super::dilithium;
use crate::bytes;
use crate::primitives;

verus! {

/// Hybrid public key: a Dilithium public key and an Ed25519 public key.
pub struct HybridPublicKey {
    pub dilithium: dilithium::PublicKey,
    pub ed25519: [u8; 32],
}

/// Hybrid secret key: a Dilithium secret key and an Ed25519 secret key.
pub struct HybridSecretKey {
    pub dilithium: dilithium::SecretKey,
    pub ed25519: [u8; 32],
}

/// Hybrid signature: a Dilithium signature and an Ed25519 signature.
pub struct HybridSignature {
    pub dilithium: Vec<u8>,
    pub ed25519: [u8; 64],
}

impl HybridPublicKey {
    pub fn new(dilithium: dilithium::PublicKey, ed25519: [u8; 32]) -> (r: Self)
        ensures
            r.dilithium.0@ == dilithium.0@,
            r.ed25519@ == ed25519@,
    {
        HybridPublicKey { dilithium, ed25519 }
    }
}

impl HybridSecretKey {
    pub fn new(dilithium: dilithium::SecretKey, ed25519: [u8; 32]) -> (r: Self)
        ensures
            r.dilithium.0@ == dilithium.0@,
            r.ed25519@ == ed25519@,
    {
        HybridSecretKey { dilithium, ed25519 }
    }
}

/// Whether `pk` is the public key of `sk`: in both halves.
pub open spec fn hybrid_sig_keys(pk: HybridPublicKey, sk: HybridSecretKey) -> bool {
    &&& dilithium::sig_keys(pk.dilithium.0@, sk.dilithium.0@)
    &&& pk.ed25519@ == primitives::ed25519_public_key(sk.ed25519@)
}

/// A fresh hybrid key pair: a Dilithium key pair and a random Ed25519 key
/// pair.
pub fn keypair() -> (r: Result<(HybridPublicKey, HybridSecretKey), &'static str>)
    ensures
        r matches Ok((pk, sk)) && hybrid_sig_keys(pk, sk),
{
    let (dpk, dsk) = match dilithium::keypair() {
        Ok(p) => p,
        Err(e) => return Err(e),
    };
    let es = primitives::random_bytes32();
    let ep = primitives::ed25519_public(&es);
    Ok((HybridPublicKey::new(dpk, ep), HybridSecretKey::new(dsk, es)))
}

/// Sign `message` with both halves of the key.
pub fn sign(sk: &HybridSecretKey, message: &[u8]) -> (r: Result<HybridSignature, &'static str>)
    ensures
        r matches Ok(sig) && sig.dilithium@ == primitives::ed25519_signature(sk.dilithium.0@.take(32), message@)
            && sig.dilithium@.len() == 64
            && sig.ed25519@ == primitives::ed25519_signature(sk.ed25519@, message@),
{
    let d = match dilithium::sign(&sk.dilithium, message) {
        Ok(s) => s,
        Err(e) => return Err(e),
    };
    let e = primitives::ed25519_sign(&sk.ed25519, message);
    Ok(HybridSignature { dilithium: d.0, ed25519: e })
}

/// Check both halves of a hybrid signature: accepted when both are. The
/// Dilithium half's refusals come first, then an Ed25519 key that is not
/// a curve point is refused. A signature that `sign` made with the
/// matching secret key is accepted.
pub fn verify(pk: &HybridPublicKey, message: &[u8], sig: &HybridSignature) -> (r: Result<bool, &'static str>)
    ensures
        ({
            let dk = pk.dilithium.0@.take(32);
            if !primitives::ed25519_point_valid(dk) {
                r == Err::<bool, &'static str>("Invalid Ed25519 public key")
            } else if sig.dilithium@.len() != 64 {
                r == Err::<bool, &'static str>("Invalid Ed25519 signature length")
            } else if !primitives::ed25519_point_valid(pk.ed25519@) {
                r == Err::<bool, &'static str>("Invalid Ed25519 public key")
            } else {
                r == Ok::<bool, &'static str>(primitives::ed25519_accepts_lax(dk, message@, sig.dilithium@)
                    && primitives::ed25519_accepts_lax(pk.ed25519@, message@, sig.ed25519@))
            }
        }),
        forall|ds: Seq<u8>, es: Seq<u8>| ds.len() == 32 && es.len() == 32
            && pk.dilithium.0@.take(32) == primitives::ed25519_public_key(ds)
            && pk.ed25519@ == primitives::ed25519_public_key(es)
            && sig.dilithium@.len() == 64
            && sig.dilithium@ == #[trigger] primitives::ed25519_signature(ds, message@)
            && sig.ed25519@ == #[trigger] primitives::ed25519_signature(es, message@)
            ==> r == Ok::<bool, &'static str>(true),
{
    let dsig = dilithium::Signature(bytes::copy_range(sig.dilithium.as_slice(), 0, sig.dilithium.len()));
    assert(dsig.0@ =~= sig.dilithium@);
    let d_ok = match dilithium::verify(&pk.dilithium, message, &dsig) {
        Ok(b) => b,
        Err(e) => return Err(e),
    };
    if !primitives::ed25519_key_valid(&pk.ed25519) {
        return Err("Invalid Ed25519 public key");
    }
    let e_ok = primitives::ed25519_verify(&pk.ed25519, message, &sig.ed25519);
    Ok(d_ok && e_ok)
}

} // verus!
