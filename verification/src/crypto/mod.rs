//! Keys, key agreement and message encryption.
use vstd::prelude::*;
use crate::bytes;
use crate::primitives;
use crate::tor;

pub mod keys;
pub mod noise;
pub mod pqc;
pub mod qr;
pub mod ratchet;
pub mod session;

verus! {

/// Length of a symmetric key.
pub const KEY_LENGTH: usize = 32;
/// Length of an AES-GCM nonce.
pub const NONCE_LENGTH: usize = 12;

/// A 32-byte secret key.
pub struct SecureKey([u8; 32]);

impl SecureKey {
    pub fn new(bytes: [u8; 32]) -> (r: Self)
        ensures
            r.spec_bytes() == bytes@,
    {
        SecureKey(bytes)
    }

    /// The key's bytes.
    pub closed spec fn spec_bytes(&self) -> Seq<u8> {
        self.0@
    }

    pub fn as_bytes(&self) -> (r: &[u8; 32])
        ensures
            r@ == self.spec_bytes(),
    {
        &self.0
    }
}

/// The onion address of an ed25519 public key.
pub fn generate_onion_from_pubkey(pubkey_bytes: &[u8; 32]) -> (s: String)
    ensures
        s@ == primitives::ascii_chars(tor::spec_v3_onion(pubkey_bytes@)),
{
    tor::pubkey_to_v3_onion(pubkey_bytes)
}

/// ASCII codes of "vchat-key-derivation-v1".
pub open spec fn derivation_salt() -> Seq<u8> {
    seq![118u8, 99u8, 104u8, 97u8, 116u8, 45u8, 107u8, 101u8, 121u8, 45u8, 100u8, 101u8, 114u8, 105u8, 118u8, 97u8, 116u8, 105u8, 111u8, 110u8, 45u8, 118u8, 49u8]
}

/// ASCII codes of "message-encryption-key".
pub open spec fn derivation_info() -> Seq<u8> {
    seq![109u8, 101u8, 115u8, 115u8, 97u8, 103u8, 101u8, 45u8, 101u8, 110u8, 99u8, 114u8, 121u8, 112u8, 116u8, 105u8, 111u8, 110u8, 45u8, 107u8, 101u8, 121u8]
}

/// The message key two peers share: HKDF-SHA256 of their X25519 shared
/// secret with the messenger's salt and context.
pub open spec fn spec_shared_key(our_secret: Seq<u8>, their_public: Seq<u8>) -> Seq<u8> {
    primitives::hkdf_sha256_okm(Some(derivation_salt()), primitives::x25519_shared(our_secret, their_public), derivation_info(), 32)
}

fn to_array32(v: &Vec<u8>) -> (a: [u8; 32])
    requires
        v@.len() == 32,
    ensures
        a@ == v@,
{
    let mut a = [0u8; 32];
    let mut i: usize = 0;
    while i < 32
        invariant
            i <= 32,
            v@.len() == 32,
            forall|j: int| 0 <= j < i ==> a@[j] == v@[j],
        decreases 32 - i,
    {
        a[i] = v[i];
        i = i + 1;
    }
    assert(a@ =~= v@);
    a
}

/// Derive the symmetric message key shared with a peer.
pub fn derive_shared_key(our_secret: &[u8; 32], their_public: &[u8; 32]) -> (k: [u8; 32])
    ensures
        k@ == spec_shared_key(our_secret@, their_public@),
        forall|other: Seq<u8>| other.len() == 32 && their_public@ == primitives::x25519_public_key(other)
            ==> k@ == #[trigger] spec_shared_key(other, primitives::x25519_public_key(our_secret@)),
{
    let shared = primitives::x25519_dh(our_secret, their_public);
    let salt: [u8; 23] = [118, 99, 104, 97, 116, 45, 107, 101, 121, 45, 100, 101, 114, 105, 118, 97, 116, 105, 111, 110, 45, 118, 49];
    let info: [u8; 22] = [109, 101, 115, 115, 97, 103, 101, 45, 101, 110, 99, 114, 121, 112, 116, 105, 111, 110, 45, 107, 101, 121];
    assert(salt@ =~= derivation_salt());
    assert(info@ =~= derivation_info());
    let out = primitives::hkdf_sha256(Some(salt.as_slice()), &shared, &info, 32);
    to_array32(&out)
}

/// Why a message could not be encrypted or decrypted.
#[derive(Debug, Clone, Copy, PartialEq, Eq, Structural)]
pub enum CryptoError {
    /// The data is shorter than nonce, length field and tag (its length).
    CiphertextTooShort(usize),
    /// Authentication failed: wrong key or tampered data.
    DecryptionFailed,
}

/// The encrypted form of `plaintext`: nonce, the plaintext length as a
/// little-endian 32-bit value, then the AES-256-GCM ciphertext and tag.
pub open spec fn spec_envelope(key: Seq<u8>, nonce: Seq<u8>, plaintext: Seq<u8>) -> Seq<u8> {
    nonce + bytes::le32(plaintext.len() as u32) + primitives::aes256_gcm_sealed(key, nonce, plaintext)
}

/// Encrypt `plaintext` under `key` with the given nonce.
pub fn encrypt_message_with_nonce(key: &[u8; 32], nonce: &[u8; 12], plaintext: &[u8]) -> (out: Vec<u8>)
    requires
        plaintext@.len() <= 0x10_0000_0000,
        plaintext@.len() + 32 <= usize::MAX,
    ensures
        out@ == spec_envelope(key@, nonce@, plaintext@),
        out@.len() == plaintext@.len() + 32,
        spec_decrypt(key@, out@) == Ok::<Seq<u8>, CryptoError>(plaintext@),
{
    let ciphertext = primitives::aes256_gcm_encrypt(key, nonce, plaintext);
    let mut result: Vec<u8> = Vec::with_capacity(NONCE_LENGTH + 4 + ciphertext.len());
    bytes::push_all(&mut result, nonce);
    bytes::push_le32(&mut result, plaintext.len() as u32);
    bytes::push_all(&mut result, ciphertext.as_slice());
    assert(result@.subrange(0, 12) =~= nonce@);
    assert(result@.subrange(16, result@.len() as int) =~= ciphertext@);
    result
}

/// Encrypt `plaintext` under `key` with a fresh random nonce.
pub fn encrypt_message(key: &[u8; 32], plaintext: &[u8]) -> (out: Vec<u8>)
    requires
        plaintext@.len() <= 0x10_0000_0000,
        plaintext@.len() + 32 <= usize::MAX,
    ensures
        out@.len() == plaintext@.len() + 32,
        out@ == spec_envelope(key@, out@.subrange(0, 12), plaintext@),
        spec_decrypt(key@, out@) == Ok::<Seq<u8>, CryptoError>(plaintext@),
{
    let nonce = primitives::random_nonce();
    let out = encrypt_message_with_nonce(key, &nonce, plaintext);
    assert(out@.subrange(0, 12) =~= nonce@);
    out
}

/// The result of decrypting `data` under `key`.
pub open spec fn spec_decrypt(key: Seq<u8>, data: Seq<u8>) -> Result<Seq<u8>, CryptoError> {
    if data.len() < 32 {
        Err(CryptoError::CiphertextTooShort(data.len() as usize))
    } else {
        match primitives::aes256_gcm_opened(key, data.subrange(0, 12), data.subrange(16, data.len() as int)) {
            Some(p) => Ok(p),
            None => Err(CryptoError::DecryptionFailed),
        }
    }
}

/// Decrypt data produced by `encrypt_message`.
pub fn decrypt_message(key: &[u8; 32], data: &[u8]) -> (r: Result<Vec<u8>, CryptoError>)
    ensures
        match spec_decrypt(key@, data@) {
            Ok(p) => r matches Ok(v) && v@ == p,
            Err(e) => r == Err::<Vec<u8>, CryptoError>(e),
        },
        forall|p: Seq<u8>| p.len() <= 0x10_0000_0000 && data@.len() == p.len() + 32 && data@ == #[trigger] spec_envelope(key@, data@.subrange(0, 12), p)
            ==> (r matches Ok(v) && v@ == p),
{
    if data.len() < NONCE_LENGTH + 4 + 16 {
        return Err(CryptoError::CiphertextTooShort(data.len()));
    }
    let mut nonce = [0u8; 12];
    let mut i: usize = 0;
    while i < 12
        invariant
            i <= 12,
            data@.len() >= 32,
            forall|j: int| 0 <= j < i ==> nonce@[j] == data@[j],
        decreases 12 - i,
    {
        nonce[i] = data[i];
        i = i + 1;
    }
    assert(nonce@ =~= data@.subrange(0, 12));
    let ct = bytes::copy_range(data, NONCE_LENGTH + 4, data.len());
    assert forall|p: Seq<u8>| p.len() <= 0x10_0000_0000 && data@.len() == p.len() + 32 && data@ == #[trigger] spec_envelope(key@, data@.subrange(0, 12), p)
        implies ct@ == primitives::aes256_gcm_sealed(key@, nonce@, p) by {
        assert(ct@ =~= primitives::aes256_gcm_sealed(key@, nonce@, p));
    }
    match primitives::aes256_gcm_decrypt(key, &nonce, ct.as_slice()) {
        Some(p) => Ok(p),
        None => Err(CryptoError::DecryptionFailed),
    }
}

} // verus!
