//! Identity and agreement key pairs: Ed25519 for signatures, X25519 for
//! Diffie-Hellman, and HKDF-SHA256 derivation.
use vstd::prelude::*;
use crate::primitives;

verus! {

/// An Ed25519 signing key pair.
pub struct Ed25519KeyPair {
    signing_key_bytes: [u8; 32],
    verifying_key: [u8; 32],
}

/// Errors of key handling.
#[derive(Debug, Clone, Copy, PartialEq, Eq, Structural)]
pub enum KeyError {
    /// HKDF cannot produce more than 255 * 32 bytes.
    OutputTooLong,
}

impl Ed25519KeyPair {
    /// The key pair's invariant: the verifying key belongs to the secret.
    pub closed spec fn wf(&self) -> bool {
        self.verifying_key@ == primitives::ed25519_public_key(self.signing_key_bytes@)
    }

    /// The verifying key bytes.
    pub closed spec fn spec_public(&self) -> Seq<u8> {
        self.verifying_key@
    }

    /// The secret key bytes.
    pub closed spec fn spec_secret(&self) -> Seq<u8> {
        self.signing_key_bytes@
    }

    /// A key pair from a fresh random secret.
    pub fn generate() -> (r: Result<Self, KeyError>)
        ensures
            r matches Ok(kp) && kp.spec_public() == primitives::ed25519_public_key(kp.spec_secret()),
    {
        let secret = primitives::random_bytes32();
        Self::from_bytes(&secret)
    }

    /// The key pair of a given secret.
    pub fn from_bytes(secret: &[u8; 32]) -> (r: Result<Self, KeyError>)
        ensures
            r matches Ok(kp) && kp.spec_secret() == secret@
                && kp.spec_public() == primitives::ed25519_public_key(secret@),
    {
        Ok(Ed25519KeyPair { signing_key_bytes: *secret, verifying_key: primitives::ed25519_public(secret) })
    }

    /// The secret key bytes.
    pub fn signing_key_bytes(&self) -> (r: [u8; 32])
        ensures
            r@ == self.spec_secret(),
    {
        self.signing_key_bytes
    }

    /// The public key bytes.
    pub fn public_key_bytes(&self) -> (r: [u8; 32])
        ensures
            r@ == self.spec_public(),
    {
        self.verifying_key
    }

    /// The public key in lowercase hex.
    pub fn public_key_hex(&self) -> (r: String)
        ensures
            r@ == primitives::hex_lower(self.spec_public()),
    {
        primitives::hex_encode(&self.verifying_key)
    }

    /// The secret key in lowercase hex.
    pub fn secret_key_hex(&self) -> (r: String)
        ensures
            r@ == primitives::hex_lower(self.spec_secret()),
    {
        primitives::hex_encode(&self.signing_key_bytes)
    }

    /// The Ed25519 signature of `message`.
    pub fn sign(&self, message: &[u8]) -> (r: [u8; 64])
        ensures
            r@ == primitives::ed25519_signature(self.spec_secret(), message@),
    {
        primitives::ed25519_sign(&self.signing_key_bytes, message)
    }

    /// Whether `signature` passes the strict Ed25519 check of `message`
    /// under this pair's verifying key.
    pub fn verify(&self, message: &[u8], signature: &[u8; 64]) -> (r: bool)
        ensures
            r == primitives::ed25519_accepts(self.spec_public(), message@, signature@),
    {
        primitives::ed25519_verify_strict(&self.verifying_key, message, signature)
    }
}

/// An X25519 key agreement pair.
pub struct X25519KeyPair {
    secret: [u8; 32],
    public: [u8; 32],
}

impl X25519KeyPair {
    /// The pair's invariant: the public key belongs to the secret.
    #[verifier::type_invariant]
    pub closed spec fn wf(&self) -> bool {
        self.public@ == primitives::x25519_public_key(self.secret@)
    }

    /// What the invariant says: the public key is that of the secret.
    pub proof fn lemma_wf(&self)
        requires
            self.wf(),
        ensures
            self.spec_public() == primitives::x25519_public_key(self.spec_secret()),
    {
    }

    /// The public key bytes.
    pub closed spec fn spec_public(&self) -> Seq<u8> {
        self.public@
    }

    /// The secret scalar bytes.
    pub closed spec fn spec_secret(&self) -> Seq<u8> {
        self.secret@
    }

    /// A pair from a fresh random secret.
    pub fn generate() -> (r: Self)
        ensures
            r.spec_public() == primitives::x25519_public_key(r.spec_secret()),
    {
        let secret = primitives::random_bytes32();
        Self::from_bytes(&secret)
    }

    /// The pair of a given secret.
    pub fn from_bytes(secret_bytes: &[u8; 32]) -> (r: Self)
        ensures
            r.spec_secret() == secret_bytes@,
            r.spec_public() == primitives::x25519_public_key(secret_bytes@),
    {
        X25519KeyPair { secret: *secret_bytes, public: primitives::x25519_public(secret_bytes) }
    }

    /// A copy of this pair.
    pub fn copy(&self) -> (r: Self)
        ensures
            r.spec_secret() == self.spec_secret(),
            r.spec_public() == self.spec_public(),
    {
        proof { use_type_invariant(self); }
        X25519KeyPair { secret: self.secret, public: self.public }
    }

    /// The secret bytes.
    pub fn secret_bytes(&self) -> (r: [u8; 32])
        ensures
            r@ == self.spec_secret(),
    {
        self.secret
    }

    /// The public key bytes.
    pub fn public_bytes(&self) -> (r: [u8; 32])
        ensures
            r@ == self.spec_public(),
    {
        self.public
    }

    /// The X25519 shared secret with `their_public`. Both parties of an
    /// exchange compute the same value.
    pub fn diffie_hellman(&self, their_public: &[u8; 32]) -> (r: [u8; 32])
        ensures
            r@ == primitives::x25519_shared(self.spec_secret(), their_public@),
            forall|other: Seq<u8>| other.len() == 32 && their_public@ == primitives::x25519_public_key(other)
                ==> r@ == #[trigger] primitives::x25519_shared(other, primitives::x25519_public_key(self.spec_secret())),
    {
        primitives::x25519_dh(&self.secret, their_public)
    }
}

/// The X25519 shared secret of a secret key and a peer's public key.
pub fn derive_shared_key(our_secret: &[u8; 32], their_public: &[u8; 32]) -> (r: [u8; 32])
    ensures
        r@ == primitives::x25519_shared(our_secret@, their_public@),
{
    primitives::x25519_dh(our_secret, their_public)
}

/// HKDF-SHA256 with a salt: `output_len` bytes, or an error when more than
/// 255 * 32 bytes are asked for.
pub fn hkdf_derive(ikm: &[u8], salt: &[u8], info: &[u8], output_len: usize) -> (r: Result<Vec<u8>, KeyError>)
    ensures
        output_len <= 8160 ==> (r matches Ok(out) && out@ == primitives::hkdf_sha256_okm(Some(salt@), ikm@, info@, output_len as nat)
            && out@.len() == output_len),
        output_len > 8160 ==> r == Err::<Vec<u8>, KeyError>(KeyError::OutputTooLong),
{
    if output_len > 8160 {
        return Err(KeyError::OutputTooLong);
    }
    Ok(primitives::hkdf_sha256(Some(salt), ikm, info, output_len))
}

} // verus!
