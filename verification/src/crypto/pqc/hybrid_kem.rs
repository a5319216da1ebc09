//! Hybrid key exchange: ML-KEM-768 combined with X25519.
use vstd::prelude::*;
use super::kyber;
use crate::bytes;
use crate::primitives;

verus! {

/// Hybrid public key: a Kyber public key and an X25519 public key.
pub struct HybridPublicKey {
    pub kyber: kyber::PublicKey,
    pub x25519: [u8; 32],
}

/// Hybrid secret key: a Kyber secret key and an X25519 secret key.
pub struct HybridSecretKey {
    pub kyber: kyber::SecretKey,
    pub x25519: [u8; 32],
}

/// Hybrid ciphertext: a Kyber ciphertext and an ephemeral X25519 public key.
pub struct HybridCiphertext {
    pub kyber: kyber::Ciphertext,
    pub x25519_ephemeral: [u8; 32],
}

/// Hybrid shared secret: 32 bytes from Kyber then 32 bytes from X25519.
pub struct HybridSharedSecret(pub [u8; 64]);

impl HybridPublicKey {
    pub fn new(kyber: kyber::PublicKey, x25519: [u8; 32]) -> (r: Self)
        ensures
            r.kyber.0@ == kyber.0@,
            r.x25519@ == x25519@,
    {
        HybridPublicKey { kyber, x25519 }
    }

    pub fn kyber_pk(&self) -> (r: &kyber::PublicKey)
        ensures
            r.0@ == self.kyber.0@,
    {
        &self.kyber
    }

    pub fn x25519_pk(&self) -> (r: [u8; 32])
        ensures
            r@ == self.x25519@,
    {
        self.x25519
    }
}

impl HybridSecretKey {
    pub fn new(kyber: kyber::SecretKey, x25519: [u8; 32]) -> (r: Self)
        ensures
            r.kyber.0@ == kyber.0@,
            r.x25519@ == x25519@,
    {
        HybridSecretKey { kyber, x25519 }
    }

    pub fn kyber_sk(&self) -> (r: &kyber::SecretKey)
        ensures
            r.0@ == self.kyber.0@,
    {
        &self.kyber
    }

    pub fn x25519_sk(&self) -> (r: [u8; 32])
        ensures
            r@ == self.x25519@,
    {
        self.x25519
    }
}

/// Whether `pk` is the public key of `sk`: in both halves.
pub open spec fn hybrid_keys(pk: HybridPublicKey, sk: HybridSecretKey) -> bool {
    &&& kyber::kem_keys(pk.kyber.0@, sk.kyber.0@)
    &&& pk.x25519@ == primitives::x25519_public_key(sk.x25519@)
}

/// Whether `(ct, ss)` is a hybrid encapsulation to `pk`: the first 32
/// bytes of `ss` come with a Kyber encapsulation, the last 32 with an
/// X25519 exchange whose ephemeral public key `ct` carries.
pub open spec fn hybrid_encapsulated(pk: HybridPublicKey, ct: HybridCiphertext, ss: Seq<u8>) -> bool {
    &&& ss.len() == 64
    &&& kyber::encapsulated(pk.kyber.0@, ct.kyber.0@, ss.take(32))
    &&& exists|e: Seq<u8>| #![trigger primitives::x25519_public_key(e)]
        e.len() == 32 && ct.x25519_ephemeral@ == primitives::x25519_public_key(e)
        && ss.skip(32) == primitives::x25519_shared(e, pk.x25519@)
}

/// What decapsulating `ct` with `sk` gives, in both halves.
pub open spec fn hybrid_decapsulated(sk: HybridSecretKey, ct: HybridCiphertext, ss: Seq<u8>) -> bool {
    &&& ss.len() == 64
    &&& kyber::decapsulated(sk.kyber.0@, ct.kyber.0@, ss.take(32))
    &&& ss.skip(32) == primitives::x25519_shared(sk.x25519@, ct.x25519_ephemeral@)
    &&& forall|e: Seq<u8>| e.len() == 32 && ct.x25519_ephemeral@ == primitives::x25519_public_key(e)
        ==> ss.skip(32) == #[trigger] primitives::x25519_shared(e, primitives::x25519_public_key(sk.x25519@))
}

fn concat32(a: &[u8; 32], b: &[u8; 32]) -> (r: [u8; 64])
    ensures
        r@ == a@ + b@,
{
    let mut r = [0u8; 64];
    let mut i: usize = 0;
    while i < 64
        invariant
            i <= 64,
            forall|j: int| 0 <= j < i ==> r@[j] == (a@ + b@)[j],
        decreases 64 - i,
    {
        if i < 32 {
            r[i] = a[i];
        } else {
            r[i] = b[i - 32];
        }
        i = i + 1;
    }
    assert(r@ =~= a@ + b@);
    r
}

/// A fresh hybrid key pair: a Kyber key pair and a random X25519 key pair.
pub fn keypair() -> (r: Result<(HybridPublicKey, HybridSecretKey), &'static str>)
    ensures
        r matches Ok((pk, sk)) && hybrid_keys(pk, sk),
{
    let (kpk, ksk) = match kyber::keypair() {
        Ok(p) => p,
        Err(e) => return Err(e),
    };
    let xs = primitives::random_bytes32();
    let xp = primitives::x25519_public(&xs);
    Ok((HybridPublicKey::new(kpk, xp), HybridSecretKey::new(ksk, xs)))
}

/// Encapsulate to `pk`: a Kyber encapsulation and an X25519 exchange with
/// a fresh ephemeral secret; the shared secret is the Kyber secret
/// followed by the X25519 secret.
pub fn encapsulate(pk: &HybridPublicKey) -> (r: Result<(HybridCiphertext, [u8; 64]), &'static str>)
    ensures
        r matches Ok((ct, ss)) && hybrid_encapsulated(*pk, ct, ss@),
{
    let (kct, kss) = match kyber::encapsulate(&pk.kyber) {
        Ok(p) => p,
        Err(e) => return Err(e),
    };
    let ephemeral = primitives::random_bytes32();
    let eph_pub = primitives::x25519_public(&ephemeral);
    let xshared = primitives::x25519_dh(&ephemeral, &pk.x25519);
    let combined = concat32(&kss.0, &xshared);
    assert(combined@.take(32) =~= kss.0@);
    assert(combined@.skip(32) =~= xshared@);
    let ct = HybridCiphertext { kyber: kct, x25519_ephemeral: eph_pub };
    assert(ct.x25519_ephemeral@ == primitives::x25519_public_key(ephemeral@));
    Ok((ct, combined))
}

/// The hybrid shared secret `ct` carries for the holder of `sk`.
pub fn decapsulate(sk: &HybridSecretKey, ct: &HybridCiphertext) -> (r: Result<[u8; 64], &'static str>)
    ensures
        r matches Ok(ss) && hybrid_decapsulated(*sk, *ct, ss@),
{
    let kss = match kyber::decapsulate(&sk.kyber, &ct.kyber) {
        Ok(s) => s,
        Err(e) => return Err(e),
    };
    let xshared = primitives::x25519_dh(&sk.x25519, &ct.x25519_ephemeral);
    let combined = concat32(&kss.0, &xshared);
    assert(combined@.take(32) =~= kss.0@);
    assert(combined@.skip(32) =~= xshared@);
    Ok(combined)
}

/// A hybrid shared secret encapsulated to a key pair's public key is what
/// decapsulating with its secret key gives.
pub proof fn lemma_hybrid_kem_agreement(pk: HybridPublicKey, sk: HybridSecretKey, ct: HybridCiphertext, ss1: Seq<u8>, ss2: Seq<u8>)
    requires
        hybrid_keys(pk, sk),
        hybrid_encapsulated(pk, ct, ss1),
        hybrid_decapsulated(sk, ct, ss2),
    ensures
        ss1 == ss2,
{
    kyber::lemma_kem_agreement(pk.kyber.0@, sk.kyber.0@, ct.kyber.0@, ss1.take(32), ss2.take(32));
    let e = choose|e: Seq<u8>| #![trigger primitives::x25519_public_key(e)]
        e.len() == 32 && ct.x25519_ephemeral@ == primitives::x25519_public_key(e)
        && ss1.skip(32) == primitives::x25519_shared(e, pk.x25519@);
    assert(ss2.skip(32) == primitives::x25519_shared(e, primitives::x25519_public_key(sk.x25519@)));
    assert(ss1 =~= ss1.take(32) + ss1.skip(32));
    assert(ss2 =~= ss2.take(32) + ss2.skip(32));
}

} // verus!
