//! The calls this library makes into outside crates, each behind a small
//! trusted wrapper whose contract restates what the crate documents.
use vstd::prelude::*;
use sha2::Digest;
use sha3::Digest as Sha3Digest;
use hmac::Mac;
use aes::cipher::{KeyIvInit, StreamCipher};
use aes_gcm::aead::{Aead, KeyInit};
use ed25519_dalek::Signer;
use crate::bytes;

verus! {

/// The SHA-256 digest of `data` (FIPS 180-4), as computed by `sha2`.
pub uninterp spec fn sha256_digest(data: Seq<u8>) -> Seq<u8>;

/// Calls `sha2::Sha256::digest`: the result is the SHA-256 digest of the
/// input, 32 bytes long. Nothing more is claimed of its value.
#[verifier::external_body]
pub(crate) fn sha256(data: &[u8]) -> (out: Vec<u8>)
    ensures
        out@ == sha256_digest(data@),
        out@.len() == 32,
{
    sha2::Sha256::digest(data).to_vec()
}

/// The HMAC-SHA1 tag (RFC 2104) of `data` under `key`, as computed by
/// `hmac` over `sha1`.
pub uninterp spec fn hmac_sha1_tag(key: Seq<u8>, data: Seq<u8>) -> Seq<u8>;

/// Calls `Hmac::<Sha1>::new_from_slice`, `update` and `finalize`: the
/// result is the 20-byte HMAC-SHA1 tag of `data` under `key`. The crate
/// accepts keys of every length, so the constructor cannot fail.
#[verifier::external_body]
pub(crate) fn hmac_sha1(key: &[u8], data: &[u8]) -> (out: Vec<u8>)
    ensures
        out@ == hmac_sha1_tag(key@, data@),
        out@.len() == 20,
{
    let mut mac = <hmac::Hmac<sha1::Sha1> as Mac>::new_from_slice(key).unwrap();
    mac.update(data);
    mac.finalize().into_bytes().to_vec()
}

/// The AES-128 counter-mode key stream of `len` bytes for `key` and the
/// initial 128-bit big-endian counter block `iv`.
pub uninterp spec fn aes128_ctr_keystream(key: Seq<u8>, iv: Seq<u8>, len: nat) -> Seq<u8>;

/// The AES-256 counter-mode key stream of `len` bytes for `key` and the
/// initial 128-bit big-endian counter block `iv`.
pub uninterp spec fn aes256_ctr_keystream(key: Seq<u8>, iv: Seq<u8>, len: nat) -> Seq<u8>;

/// Calls `apply_keystream` of `ctr::Ctr128BE<aes::Aes128>` on the whole
/// buffer: each byte is XORed with the key stream for `key` and `iv`. The
/// 128-bit counter never runs out for a buffer that fits in memory.
#[verifier::external_body]
pub(crate) fn aes128_ctr_apply(key: &[u8], iv: &[u8], data: &mut Vec<u8>)
    requires
        key@.len() == 16,
        iv@.len() == 16,
    ensures
        final(data)@ == bytes::xor_bytes(old(data)@, aes128_ctr_keystream(key@, iv@, old(data)@.len())),
{
    let mut c = ctr::Ctr128BE::<aes::Aes128>::new(key.into(), iv.into());
    c.apply_keystream(data.as_mut_slice());
}

/// Calls `apply_keystream` of `ctr::Ctr128BE<aes::Aes256>` on the whole
/// buffer: each byte is XORed with the key stream for `key` and `iv`. The
/// 128-bit counter never runs out for a buffer that fits in memory.
#[verifier::external_body]
pub(crate) fn aes256_ctr_apply(key: &[u8], iv: &[u8], data: &mut Vec<u8>)
    requires
        key@.len() == 32,
        iv@.len() == 16,
    ensures
        final(data)@ == bytes::xor_bytes(old(data)@, aes256_ctr_keystream(key@, iv@, old(data)@.len())),
{
    let mut c = ctr::Ctr128BE::<aes::Aes256>::new(key.into(), iv.into());
    c.apply_keystream(data.as_mut_slice());
}

/// The SHA3-256 digest of `data` (FIPS 202), as computed by `sha3`.
pub uninterp spec fn sha3_256_digest(data: Seq<u8>) -> Seq<u8>;

/// Calls `sha3::Sha3_256::digest`: the result is the SHA3-256 digest of
/// the input, 32 bytes long. Nothing more is claimed of its value.
#[verifier::external_body]
pub(crate) fn sha3_256(data: &[u8]) -> (out: Vec<u8>)
    ensures
        out@ == sha3_256_digest(data@),
        out@.len() == 32,
{
    <sha3::Sha3_256 as Sha3Digest>::digest(data).to_vec()
}

/// The characters whose codes are the ASCII bytes `b`.
pub open spec fn ascii_chars(b: Seq<u8>) -> Seq<char> {
    Seq::new(b.len(), |i: int| b[i] as char)
}

/// Calls `String::from_utf8` on bytes that are all ASCII, which the standard
/// library documents as valid UTF-8, so the conversion succeeds and each
/// byte becomes the character with that code.
#[verifier::external_body]
pub(crate) fn ascii_string(b: Vec<u8>) -> (s: String)
    requires
        forall|i: int| 0 <= i < b@.len() ==> b@[i] < 128,
    ensures
        s@ == ascii_chars(b@),
{
    String::from_utf8(b).unwrap()
}

/// Calls `PartialEq::eq` of `str`: two string slices are equal when they
/// hold the same characters.
#[verifier::external_body]
pub(crate) fn str_eq(a: &str, b: &str) -> (r: bool)
    ensures
        r == (a@ == b@),
{
    a == b
}

/// The view of an optional byte slice.
pub open spec fn opt_bytes(o: Option<&[u8]>) -> Option<Seq<u8>> {
    match o {
        Some(b) => Some(b@),
        None => None,
    }
}

/// The HKDF-SHA256 output (RFC 5869) of `len` bytes for `salt` (absent:
/// the all-zero salt), input key material `ikm` and context `info`.
pub uninterp spec fn hkdf_sha256_okm(salt: Option<Seq<u8>>, ikm: Seq<u8>, info: Seq<u8>, len: nat) -> Seq<u8>;

/// Calls `hkdf::Hkdf::<Sha256>::new` and `expand`: the result is the
/// `len`-byte HKDF-SHA256 output. `expand` refuses only lengths above
/// 255 * 32 bytes, which `requires` leaves out.
#[verifier::external_body]
pub(crate) fn hkdf_sha256(salt: Option<&[u8]>, ikm: &[u8], info: &[u8], len: usize) -> (out: Vec<u8>)
    requires
        len <= 8160,
    ensures
        out@ == hkdf_sha256_okm(opt_bytes(salt), ikm@, info@, len as nat),
        out@.len() == len,
{
    let hk = hkdf::Hkdf::<sha2::Sha256>::new(salt, ikm);
    let mut out = vec![0u8; len];
    hk.expand(info, &mut out).unwrap();
    out
}

/// The X25519 public key of a secret scalar (clamped as RFC 7748 says).
pub uninterp spec fn x25519_public_key(secret: Seq<u8>) -> Seq<u8>;

/// The X25519 shared secret of a secret scalar and a peer public key.
pub uninterp spec fn x25519_shared(secret: Seq<u8>, public: Seq<u8>) -> Seq<u8>;

/// Calls `x25519_dalek::PublicKey::from(&StaticSecret::from(secret))`: the
/// public key of `secret`.
#[verifier::external_body]
pub(crate) fn x25519_public(secret: &[u8; 32]) -> (out: [u8; 32])
    ensures
        out@ == x25519_public_key(secret@),
{
    let s = x25519_dalek::StaticSecret::from(*secret);
    x25519_dalek::PublicKey::from(&s).to_bytes()
}

/// Calls `StaticSecret::diffie_hellman`: the X25519 shared secret of
/// `secret` and `their_public`. As the crate documents for Diffie-Hellman,
/// both parties compute the same value: for a peer key that is the public
/// key of `other`, the result equals what `other` computes with this
/// secret's public key.
#[verifier::external_body]
pub(crate) fn x25519_dh(secret: &[u8; 32], their_public: &[u8; 32]) -> (out: [u8; 32])
    ensures
        out@ == x25519_shared(secret@, their_public@),
        forall|other: Seq<u8>| other.len() == 32 && their_public@ == x25519_public_key(other)
            ==> out@ == #[trigger] x25519_shared(other, x25519_public_key(secret@)),
{
    let s = x25519_dalek::StaticSecret::from(*secret);
    let p = x25519_dalek::PublicKey::from(*their_public);
    s.diffie_hellman(&p).to_bytes()
}

/// The AES-256-GCM ciphertext with appended 16-byte tag of `plaintext`
/// under `key` and `nonce`, with empty associated data.
pub uninterp spec fn aes256_gcm_sealed(key: Seq<u8>, nonce: Seq<u8>, plaintext: Seq<u8>) -> Seq<u8>;

/// The plaintext AES-256-GCM decryption gives for `ciphertext`, or `None`
/// when the tag does not verify.
pub uninterp spec fn aes256_gcm_opened(key: Seq<u8>, nonce: Seq<u8>, ciphertext: Seq<u8>) -> Option<Seq<u8>>;

/// Calls `Aes256Gcm::encrypt` with empty associated data: the ciphertext
/// followed by the tag, 16 bytes longer than the plaintext. The crate
/// refuses only plaintexts longer than 2^36 bytes, which `requires` leaves
/// out. As for every AEAD, decrypting the result under the same key and
/// nonce gives the plaintext back.
#[verifier::external_body]
pub(crate) fn aes256_gcm_encrypt(key: &[u8; 32], nonce: &[u8; 12], plaintext: &[u8]) -> (out: Vec<u8>)
    requires
        plaintext@.len() <= 0x10_0000_0000,
    ensures
        out@ == aes256_gcm_sealed(key@, nonce@, plaintext@),
        out@.len() == plaintext@.len() + 16,
        aes256_gcm_opened(key@, nonce@, out@) == Some(plaintext@),
{
    let cipher = aes_gcm::Aes256Gcm::new(key.into());
    cipher.encrypt(nonce.into(), plaintext).unwrap()
}

/// The view of an optional byte vector.
pub open spec fn opt_vec(o: Option<Vec<u8>>) -> Option<Seq<u8>> {
    match o {
        Some(v) => Some(v@),
        None => None,
    }
}

/// Calls `Aes256Gcm::decrypt` with empty associated data: the plaintext, or
/// `None` when authentication fails. As for every AEAD, a ciphertext that
/// encryption produced under the same key and nonce decrypts to its
/// plaintext.
#[verifier::external_body]
pub(crate) fn aes256_gcm_decrypt(key: &[u8; 32], nonce: &[u8; 12], ciphertext: &[u8]) -> (out: Option<Vec<u8>>)
    ensures
        opt_vec(out) == aes256_gcm_opened(key@, nonce@, ciphertext@),
        forall|p: Seq<u8>| p.len() <= 0x10_0000_0000 && ciphertext@ == #[trigger] aes256_gcm_sealed(key@, nonce@, p)
            ==> opt_vec(out) == Some(p),
{
    let cipher = aes_gcm::Aes256Gcm::new(key.into());
    cipher.decrypt(nonce.into(), ciphertext).ok()
}

/// Calls `rand::random` for 12 bytes from the thread-local generator;
/// nothing is claimed of their value.
#[verifier::external_body]
pub(crate) fn random_nonce() -> (out: [u8; 12])
{
    rand::random::<[u8; 12]>()
}

/// Calls `rand::random` for 32 bytes from the thread-local generator;
/// nothing is claimed of their value.
#[verifier::external_body]
pub(crate) fn random_bytes32() -> (out: [u8; 32])
{
    rand::random::<[u8; 32]>()
}

/// Calls `rand::random` for a `u64` from the thread-local generator;
/// nothing is claimed of its value.
#[verifier::external_body]
pub(crate) fn random_u64() -> (out: u64)
{
    rand::random::<u64>()
}

/// Calls `zeroize::Zeroize::zeroize` on a key: every byte becomes zero.
#[verifier::external_body]
pub(crate) fn zeroize32(k: &mut [u8; 32])
    ensures
        final(k)@ == bytes::zeros(32),
{
    zeroize::Zeroize::zeroize(k);
}

/// The Ed25519 public key of a 32-byte secret key (RFC 8032).
pub uninterp spec fn ed25519_public_key(secret: Seq<u8>) -> Seq<u8>;

/// The Ed25519 signature of `msg` under a 32-byte secret key.
pub uninterp spec fn ed25519_signature(secret: Seq<u8>, msg: Seq<u8>) -> Seq<u8>;

/// Whether `sig` is a valid strict Ed25519 signature of `msg` under `pubkey`
/// (false when `pubkey` is not a valid point).
pub uninterp spec fn ed25519_accepts(pubkey: Seq<u8>, msg: Seq<u8>, sig: Seq<u8>) -> bool;

/// Calls `SigningKey::from_bytes(secret).verifying_key().to_bytes()`.
#[verifier::external_body]
pub(crate) fn ed25519_public(secret: &[u8; 32]) -> (out: [u8; 32])
    ensures
        out@ == ed25519_public_key(secret@),
{
    ed25519_dalek::SigningKey::from_bytes(secret).verifying_key().to_bytes()
}

/// Calls `Signer::sign` of `SigningKey::from_bytes(secret)`: the
/// deterministic Ed25519 signature of `msg`.
#[verifier::external_body]
pub(crate) fn ed25519_sign(secret: &[u8; 32], msg: &[u8]) -> (out: [u8; 64])
    ensures
        out@ == ed25519_signature(secret@, msg@),
{
    ed25519_dalek::SigningKey::from_bytes(secret).sign(msg).to_bytes()
}

/// Calls `VerifyingKey::from_bytes(pubkey)` and `verify_strict`: whether the
/// signature passes the strict check; false when the key bytes are not a
/// valid point. The strict check also refuses a signature whose `R` is of
/// small order, so nothing is claimed of which signatures it accepts.
#[verifier::external_body]
pub(crate) fn ed25519_verify_strict(pubkey: &[u8; 32], msg: &[u8], sig: &[u8; 64]) -> (ok: bool)
    ensures
        ok == ed25519_accepts(pubkey@, msg@, sig@),
{
    match ed25519_dalek::VerifyingKey::from_bytes(pubkey) {
        Ok(pk) => pk.verify_strict(msg, &ed25519_dalek::Signature::from_bytes(sig)).is_ok(),
        Err(_) => false,
    }
}


/// Whether 32 bytes are the compressed form of an Ed25519 curve point.
pub uninterp spec fn ed25519_point_valid(pubkey: Seq<u8>) -> bool;

/// Calls `VerifyingKey::from_bytes`: whether the bytes decompress to a
/// curve point. The public key of any secret key is such a point.
#[verifier::external_body]
pub(crate) fn ed25519_key_valid(pubkey: &[u8; 32]) -> (ok: bool)
    ensures
        ok == ed25519_point_valid(pubkey@),
        forall|secret: Seq<u8>| secret.len() == 32 && pubkey@ == #[trigger] ed25519_public_key(secret) ==> ok,
{
    ed25519_dalek::VerifyingKey::from_bytes(pubkey).is_ok()
}

/// The character of a 6-bit value in the URL-safe base64 alphabet
/// (RFC 4648, section 5).
pub open spec fn b64url_char(n: int) -> char {
    if n < 26 {
        (65 + n) as char
    } else if n < 52 {
        (71 + n) as char
    } else if n < 62 {
        (n - 4) as char
    } else if n == 62 {
        '-'
    } else {
        '_'
    }
}

/// URL-safe base64 without padding: each 3 bytes become 4 characters, a
/// final 1 or 2 bytes become 2 or 3.
pub open spec fn base64url_nopad(b: Seq<u8>) -> Seq<char>
    decreases b.len(),
{
    if b.len() == 0 {
        Seq::empty()
    } else if b.len() == 1 {
        seq![b64url_char(b[0] as int / 4), b64url_char((b[0] % 4) * 16)]
    } else if b.len() == 2 {
        seq![b64url_char(b[0] as int / 4), b64url_char((b[0] % 4) * 16 + b[1] / 16), b64url_char((b[1] % 16) * 4)]
    } else {
        seq![
            b64url_char(b[0] as int / 4),
            b64url_char((b[0] % 4) * 16 + b[1] / 16),
            b64url_char((b[1] % 16) * 4 + b[2] / 64),
            b64url_char(b[2] as int % 64),
        ] + base64url_nopad(b.skip(3))
    }
}

/// Calls `base64::Engine::encode` with the `URL_SAFE_NO_PAD` engine.
#[verifier::external_body]
pub(crate) fn base64url_encode(b: &[u8]) -> (s: String)
    ensures
        s@ == base64url_nopad(b@),
{
    base64::Engine::encode(&base64::engine::general_purpose::URL_SAFE_NO_PAD, b)
}

/// How JSON writes one character inside a string: quote and backslash
/// escaped, the control characters as `\b`, `\t`, `\n`, `\f`, `\r` or
/// `\u00XX` (lowercase hex), everything else as it is.
pub open spec fn json_escape_char(c: char) -> Seq<char> {
    if c == '"' {
        seq!['\\', '"']
    } else if c == '\\' {
        seq!['\\', '\\']
    } else if c == '\u{8}' {
        seq!['\\', 'b']
    } else if c == '\t' {
        seq!['\\', 't']
    } else if c == '\n' {
        seq!['\\', 'n']
    } else if c == '\u{c}' {
        seq!['\\', 'f']
    } else if c == '\r' {
        seq!['\\', 'r']
    } else if (c as int) < 32 {
        seq!['\\', 'u', '0', '0', hex_digit(c as int / 16), hex_digit(c as int % 16)]
    } else {
        seq![c]
    }
}

/// The characters of `s` as JSON writes them inside a string.
pub open spec fn json_escaped(s: Seq<char>) -> Seq<char>
    decreases s.len(),
{
    if s.len() == 0 {
        Seq::empty()
    } else {
        json_escaped(s.drop_last()) + json_escape_char(s.last())
    }
}

/// `s` as a JSON string literal.
pub open spec fn json_quoted(s: Seq<char>) -> Seq<char> {
    seq!['"'] + json_escaped(s) + seq!['"']
}

/// Calls `serde_json::to_string` on a string: its JSON literal, which
/// cannot fail for a string.
#[verifier::external_body]
pub(crate) fn json_quote(s: &str) -> (r: String)
    ensures
        r@ == json_quoted(s@),
{
    serde_json::to_string(s).unwrap_or_default()
}

/// The SVG image of the QR code of `data` at least 200 by 200 pixels, or
/// `None` when the data does not fit in a QR code.
pub uninterp spec fn qr_svg_image(data: Seq<u8>) -> Option<Seq<char>>;

/// Calls `qrcode::QrCode::new(data)` and renders it with the SVG renderer
/// at minimum dimensions 200 by 200.
#[verifier::external_body]
pub(crate) fn qr_svg(data: &[u8]) -> (r: Option<String>)
    ensures
        match r {
            Some(s) => qr_svg_image(data@) == Some(s@),
            None => qr_svg_image(data@) is None,
        },
{
    match qrcode::QrCode::new(data) {
        Ok(code) => Some(code.render::<qrcode::render::svg::Color>().min_dimensions(200, 200).build()),
        Err(_) => None,
    }
}

/// The character of a 6-bit value in the standard base64 alphabet
/// (RFC 4648, section 4).
pub open spec fn b64_char(n: int) -> char {
    if n == 62 { '+' } else if n == 63 { '/' } else { b64url_char(n) }
}

/// Standard base64 with padding: each 3 bytes become 4 characters, a final
/// 1 or 2 bytes become 2 or 3 characters and `=` padding to 4.
pub open spec fn base64_padded(b: Seq<u8>) -> Seq<char>
    decreases b.len(),
{
    if b.len() == 0 {
        Seq::empty()
    } else if b.len() == 1 {
        seq![b64_char(b[0] as int / 4), b64_char((b[0] % 4) * 16), '=', '=']
    } else if b.len() == 2 {
        seq![b64_char(b[0] as int / 4), b64_char((b[0] % 4) * 16 + b[1] / 16), b64_char((b[1] % 16) * 4), '=']
    } else {
        seq![
            b64_char(b[0] as int / 4),
            b64_char((b[0] % 4) * 16 + b[1] / 16),
            b64_char((b[1] % 16) * 4 + b[2] / 64),
            b64_char(b[2] as int % 64),
        ] + base64_padded(b.skip(3))
    }
}

/// Calls `base64::Engine::encode` with the `STANDARD` engine.
#[verifier::external_body]
pub(crate) fn base64_encode(b: &[u8]) -> (s: String)
    ensures
        s@ == base64_padded(b@),
{
    base64::Engine::encode(&base64::engine::general_purpose::STANDARD, b)
}

/// The lowercase hexadecimal digit for a value below 16.
pub open spec fn hex_digit(n: int) -> char {
    if n < 10 { (48 + n) as char } else { (87 + n) as char }
}

/// Lowercase hexadecimal text of bytes: two digits per byte, high nibble
/// first.
pub open spec fn hex_lower(b: Seq<u8>) -> Seq<char> {
    Seq::new(2 * b.len(), |i: int| if i % 2 == 0 { hex_digit(b[i / 2] as int / 16) } else { hex_digit(b[i / 2] as int % 16) })
}

/// Calls `hex::encode`, which writes each byte as two lowercase hex digits,
/// high nibble first.
#[verifier::external_body]
pub(crate) fn hex_encode(b: &[u8]) -> (s: String)
    ensures
        s@ == hex_lower(b@),
{
    hex::encode(b)
}


/// Whether `sig` is a valid Ed25519 signature of `msg` under `pubkey` by
/// the crate's default (non-strict) check; false when `pubkey` is not a
/// valid point.
pub uninterp spec fn ed25519_accepts_lax(pubkey: Seq<u8>, msg: Seq<u8>, sig: Seq<u8>) -> bool;

/// Calls `VerifyingKey::from_bytes(pubkey)` and `Verifier::verify`: whether
/// the signature is valid; false when the key bytes are not a valid point.
/// A signature that the crate made with a secret key verifies under that
/// key's public key.
#[verifier::external_body]
pub(crate) fn ed25519_verify(pubkey: &[u8; 32], msg: &[u8], sig: &[u8; 64]) -> (ok: bool)
    ensures
        ok == ed25519_accepts_lax(pubkey@, msg@, sig@),
        forall|secret: Seq<u8>| secret.len() == 32 && pubkey@ == ed25519_public_key(secret)
            && sig@ == #[trigger] ed25519_signature(secret, msg@) ==> ok,
{
    match ed25519_dalek::VerifyingKey::from_bytes(pubkey) {
        Ok(pk) => ed25519_dalek::Verifier::verify(&pk, msg, &ed25519_dalek::Signature::from_bytes(sig)).is_ok(),
        Err(_) => false,
    }
}

/// Calls `SystemTime::now()` and `duration_since(UNIX_EPOCH)`: whole
/// seconds after the epoch, or (as the error) before it; nothing is claimed
/// of the value.
#[verifier::external_body]
pub(crate) fn unix_time() -> (t: Result<u64, u64>)
{
    match std::time::SystemTime::now().duration_since(std::time::UNIX_EPOCH) {
        Ok(d) => Ok(d.as_secs()),
        Err(e) => Err(e.duration().as_secs()),
    }
}


/// Calls `uuid::Uuid::new_v4()` and formats it with `to_string`: a fresh
/// random identifier; nothing is claimed of its text.
#[verifier::external_body]
pub(crate) fn uuid_v4() -> (s: String)
{
    uuid::Uuid::new_v4().to_string()
}


/// `s` without its leading and trailing Unicode whitespace.
pub uninterp spec fn trimmed(s: Seq<char>) -> Seq<char>;

/// Calls `str::trim`: the slice without leading and trailing whitespace.
#[verifier::external_body]
pub(crate) fn str_trim(s: &str) -> (r: &str)
    ensures
        r@ == trimmed(s@),
{
    s.trim()
}

/// Calls `str::starts_with` with a string prefix: whether `prefix` is a
/// prefix of `s`.
#[verifier::external_body]
pub(crate) fn str_starts_with(s: &str, prefix: &str) -> (r: bool)
    ensures
        r == (prefix@.len() <= s@.len() && s@.subrange(0, prefix@.len() as int) == prefix@),
{
    s.starts_with(prefix)
}

/// The query of URL `s` as decoded name/value pairs in order, or `None`
/// when `s` does not parse as a URL.
pub uninterp spec fn url_query_pairs(s: Seq<char>) -> Option<Seq<(Seq<char>, Seq<char>)>>;

/// Calls `url::Url::parse` and, on success, collects `query_pairs()` as
/// owned strings.
#[verifier::external_body]
pub(crate) fn url_query(s: &str) -> (r: Option<Vec<(String, String)>>)
    ensures
        match r {
            Some(v) => url_query_pairs(s@) == Some(v@.map_values(|p: (String, String)| (p.0@, p.1@))),
            None => url_query_pairs(s@) is None,
        },
{
    match url::Url::parse(s) {
        Ok(u) => Some(u.query_pairs().into_owned().collect()),
        Err(_) => None,
    }
}

/// Whether `s` parses as a JSON value.
pub uninterp spec fn json_valid(s: Seq<char>) -> bool;

/// The string stored under member `key` of the JSON text `s`, or `None`
/// when `s` is not an object, has no such member, or its value is not a
/// string.
pub uninterp spec fn json_member_str(s: Seq<char>, key: Seq<char>) -> Option<Seq<char>>;

/// Calls `serde_json::from_str::<serde_json::Value>` and, on success, reads
/// each of `keys` with `Value::index` and `as_str`.
#[verifier::external_body]
pub(crate) fn json_string_members(s: &str, keys: &Vec<&str>) -> (r: Option<Vec<Option<String>>>)
    ensures
        r is Some <==> json_valid(s@),
        r matches Some(v) ==> v@.len() == keys@.len()
            && forall|i: int| 0 <= i < keys@.len() ==> crate::text::opt_text(#[trigger] v@[i]) == json_member_str(s@, keys@[i]@),
{
    match serde_json::from_str::<serde_json::Value>(s) {
        Ok(v) => Some(keys.iter().map(|k| v[*k].as_str().map(|x| x.to_string())).collect()),
        Err(_) => None,
    }
}

/// The value of a hexadecimal digit (either case), if it is one.
pub open spec fn hex_value(c: u8) -> Option<u8> {
    if 48 <= c <= 57 { Some((c - 48) as u8) }
    else if 97 <= c <= 102 { Some((c - 87) as u8) }
    else if 65 <= c <= 70 { Some((c - 55) as u8) }
    else { None }
}

/// Whether `b` is an even number of hexadecimal digits.
pub open spec fn hex_valid(b: Seq<u8>) -> bool {
    b.len() % 2 == 0 && forall|i: int| 0 <= i < b.len() ==> (#[trigger] hex_value(b[i])) is Some
}

/// The bytes `b` spells in hexadecimal, high digit first.
pub open spec fn hex_bytes(b: Seq<u8>) -> Seq<u8> {
    Seq::new(b.len() / 2, |i: int| (hex_value(b[2 * i])->0 * 16 + hex_value(b[2 * i + 1])->0) as u8)
}

/// Calls `hex::decode`: the bytes an even number of hex digits (either
/// case) spell, or `None` for an odd length or any other byte.
#[verifier::external_body]
pub(crate) fn hex_decode(s: &[u8]) -> (r: Option<Vec<u8>>)
    ensures
        r is Some <==> hex_valid(s@),
        r matches Some(v) ==> v@ == hex_bytes(s@),
{
    hex::decode(s).ok()
}


/// Calls `String::from_utf8`: a string exactly when the bytes are valid
/// UTF-8, and then its UTF-8 encoding is those bytes.
#[verifier::external_body]
pub(crate) fn utf8_string(b: Vec<u8>) -> (r: Option<String>)
    ensures
        r is Some <==> vstd::utf8::valid_utf8(b@),
        r matches Some(s) ==> vstd::utf8::encode_utf8(s@) == b@,
{
    String::from_utf8(b).ok()
}

} // verus!
