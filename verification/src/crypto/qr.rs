//! Contact QR codes: either a `vchat://` URI whose query names the contact,
//! or a JSON object with the same fields.
use vstd::prelude::*;
use vstd::string::StringExecFns;
use vstd::string::StringSliceAdditionalSpecFns;
use crate::commands::{Contact, Identity};
use crate::primitives;
use crate::text;

verus! {

/// Why QR data was refused.
#[derive(Debug, Clone, Copy, PartialEq, Eq, Structural)]
pub enum QrError {
    /// A `vchat://` text that is not a URL.
    InvalidUri,
    /// A URI without a `key` parameter.
    MissingKeyInUri,
    /// A URI without an `onion` parameter.
    MissingOnionInUri,
    /// Text that is not JSON.
    InvalidJson,
    /// No `key` or `public_key` string.
    MissingPublicKey,
    /// The key is not hexadecimal.
    InvalidKeyHex,
    /// The key does not decode to 64 bytes (the length it has).
    WrongKeyLength(usize),
    /// No `onion` or `onion_address` string.
    MissingOnion,
    /// The contact data does not fit in a QR code.
    QrGenerationFailed,
}

/// The contact fields a QR code gives: key, onion address, name.
pub struct QrFields {
    pub key: Option<String>,
    pub onion: Option<String>,
    pub name: String,
}

/// The value of the last pair named `key`, if any (later pairs override
/// earlier ones).
pub open spec fn last_value(pairs: Seq<(Seq<char>, Seq<char>)>, key: Seq<char>) -> Option<Seq<char>>
    decreases pairs.len(),
{
    if pairs.len() == 0 {
        None
    } else if pairs.last().0 == key {
        Some(pairs.last().1)
    } else {
        last_value(pairs.drop_last(), key)
    }
}

/// The pairs' texts.
pub open spec fn pair_texts(pairs: Seq<(String, String)>) -> Seq<(Seq<char>, Seq<char>)> {
    pairs.map_values(|p: (String, String)| (p.0@, p.1@))
}

/// "Unknown", the name of an unnamed contact.
pub open spec fn unknown_name() -> Seq<char> {
    seq!['U', 'n', 'k', 'n', 'o', 'w', 'n']
}

fn lookup_last(pairs: &Vec<(String, String)>, key: &str) -> (r: Option<String>)
    ensures
        text::opt_text(r) == last_value(pair_texts(pairs@), key@),
{
    let ghost ps = pair_texts(pairs@);
    let mut found: Option<String> = None;
    let mut i: usize = 0;
    while i < pairs.len()
        invariant
            i <= pairs@.len(),
            ps == pair_texts(pairs@),
            text::opt_text(found) == last_value(ps.take(i as int), key@),
        decreases pairs@.len() - i,
    {
        assert(ps.take(i + 1).drop_last() =~= ps.take(i as int));
        if primitives::str_eq(pairs[i].0.as_str(), key) {
            found = Some(text::copy_string(&pairs[i].1));
        }
        i = i + 1;
    }
    assert(ps.take(i as int) =~= ps);
    found
}

/// The fields of a `vchat://` URI's query: `key` and `onion` are required,
/// `name` defaults to "Unknown".
pub fn fields_from_query(pairs: &Vec<(String, String)>) -> (r: Result<QrFields, QrError>)
    ensures
        ({
            let ps = pair_texts(pairs@);
            let key = last_value(ps, seq!['k', 'e', 'y']);
            let onion = last_value(ps, seq!['o', 'n', 'i', 'o', 'n']);
            let name = last_value(ps, seq!['n', 'a', 'm', 'e']);
            if key is None {
                r == Err::<QrFields, QrError>(QrError::MissingKeyInUri)
            } else if onion is None {
                r == Err::<QrFields, QrError>(QrError::MissingOnionInUri)
            } else {
                r matches Ok(f) && text::opt_text(f.key) == key && text::opt_text(f.onion) == onion
                    && f.name@ == (if name is Some { name->0 } else { unknown_name() })
            }
        }),
{
    proof {
        reveal_strlit("key");
        reveal_strlit("onion");
        reveal_strlit("name");
        reveal_strlit("Unknown");
    }
    assert("key"@ =~= seq!['k', 'e', 'y']);
    assert("onion"@ =~= seq!['o', 'n', 'i', 'o', 'n']);
    assert("name"@ =~= seq!['n', 'a', 'm', 'e']);
    assert("Unknown"@ =~= unknown_name());
    let name = match lookup_last(pairs, "name") {
        Some(n) => n,
        None => "Unknown".to_string(),
    };
    let key = match lookup_last(pairs, "key") {
        Some(k) => k,
        None => return Err(QrError::MissingKeyInUri),
    };
    let onion = match lookup_last(pairs, "onion") {
        Some(o) => o,
        None => return Err(QrError::MissingOnionInUri),
    };
    Ok(QrFields { key: Some(key), onion: Some(onion), name })
}

/// The first of two optional texts that is present.
pub open spec fn either(a: Option<Seq<char>>, b: Option<Seq<char>>) -> Option<Seq<char>> {
    if a is Some { a } else { b }
}

fn either_exec(a: Option<String>, b: Option<String>) -> (r: Option<String>)
    ensures
        text::opt_text(r) == either(text::opt_text(a), text::opt_text(b)),
{
    match a {
        Some(x) => Some(x),
        None => b,
    }
}

/// The fields of a JSON QR object, read from its string members `key` (or
/// `public_key`), `onion` (or `onion_address`) and `name` (or
/// `display_name`, else "Unknown"), in that order.
pub fn fields_from_json_members(members: Vec<Option<String>>) -> (r: QrFields)
    requires
        members@.len() == 6,
    ensures
        text::opt_text(r.key) == either(text::opt_text(members@[0]), text::opt_text(members@[1])),
        text::opt_text(r.onion) == either(text::opt_text(members@[2]), text::opt_text(members@[3])),
        r.name@ == (match either(text::opt_text(members@[4]), text::opt_text(members@[5])) {
            Some(n) => n,
            None => unknown_name(),
        }),
{
    proof { reveal_strlit("Unknown"); }
    assert("Unknown"@ =~= unknown_name());
    let mut members = members;
    let display_name = members.pop().unwrap();
    let name = members.pop().unwrap();
    let onion_address = members.pop().unwrap();
    let onion = members.pop().unwrap();
    let public_key = members.pop().unwrap();
    let key = members.pop().unwrap();
    let name = match either_exec(name, display_name) {
        Some(n) => n,
        None => "Unknown".to_string(),
    };
    QrFields { key: either_exec(key, public_key), onion: either_exec(onion, onion_address), name }
}

/// The contact that QR fields describe, with the key already decoded from
/// hex (`None` when it is not hex), under id `id` at time `now`: the key
/// must be present and decode to 64 bytes, and the onion address must be
/// present. The contact is unverified and not blocked.
pub fn contact_from_fields(fields: QrFields, key_bytes: Option<Vec<u8>>, id: String, now: i64) -> (r: Result<Contact, QrError>)
    ensures
        match fields.key {
            None => r == Err::<Contact, QrError>(QrError::MissingPublicKey),
            Some(k) => match key_bytes {
                None => r == Err::<Contact, QrError>(QrError::InvalidKeyHex),
                Some(b) => if b@.len() != 64 {
                    r == Err::<Contact, QrError>(QrError::WrongKeyLength(b@.len() as usize))
                } else {
                    match fields.onion {
                        None => r == Err::<Contact, QrError>(QrError::MissingOnion),
                        Some(o) => r matches Ok(c) && c.id@ == id@ && c.onion_address@ == o@
                            && c.public_key@ == k@
                            && c.display_name@ == fields.name@
                            && c.added_at == now && !c.verified && !c.blocked,
                    }
                },
            },
        },
{
    let key = match fields.key {
        Some(k) => k,
        None => return Err(QrError::MissingPublicKey),
    };
    let bytes = match key_bytes {
        Some(b) => b,
        None => return Err(QrError::InvalidKeyHex),
    };
    if bytes.len() != 64 {
        return Err(QrError::WrongKeyLength(bytes.len()));
    }
    let onion = match fields.onion {
        Some(o) => o,
        None => return Err(QrError::MissingOnion),
    };
    Ok(Contact { id, display_name: fields.name, public_key: key, onion_address: onion, added_at: now, verified: false, blocked: false })
}

/// Whether trimmed QR text is a `vchat://` URI.
pub open spec fn is_vchat_uri(t: Seq<char>) -> bool {
    t.len() >= 8 && t.subrange(0, 8) == seq!['v', 'c', 'h', 'a', 't', ':', '/', '/']
}

/// The key, onion address and name that trimmed QR text `t` gives (see
/// `fields_from_query` and `fields_from_json_members`), or why it gives
/// none.
pub open spec fn qr_fields(t: Seq<char>) -> Result<(Option<Seq<char>>, Option<Seq<char>>, Seq<char>), QrError> {
    if is_vchat_uri(t) {
        match primitives::url_query_pairs(t) {
            None => Err(QrError::InvalidUri),
            Some(ps) => {
                let key = last_value(ps, seq!['k', 'e', 'y']);
                let onion = last_value(ps, seq!['o', 'n', 'i', 'o', 'n']);
                let name = last_value(ps, seq!['n', 'a', 'm', 'e']);
                if key is None {
                    Err(QrError::MissingKeyInUri)
                } else if onion is None {
                    Err(QrError::MissingOnionInUri)
                } else {
                    Ok((key, onion, if name is Some { name->0 } else { unknown_name() }))
                }
            },
        }
    } else if !primitives::json_valid(t) {
        Err(QrError::InvalidJson)
    } else {
        let m = |k: Seq<char>| primitives::json_member_str(t, k);
        Ok((
            either(m("key"@), m("public_key"@)),
            either(m("onion"@), m("onion_address"@)),
            match either(m("name"@), m("display_name"@)) {
                Some(n) => n,
                None => unknown_name(),
            },
        ))
    }
}

/// The key, onion address and name of the contact that trimmed QR text
/// `t` describes (see `contact_from_fields`), or why it describes none.
pub open spec fn qr_contact(t: Seq<char>) -> Result<(Seq<char>, Seq<char>, Seq<char>), QrError> {
    match qr_fields(t) {
        Err(e) => Err(e),
        Ok((key, onion, name)) => match key {
            None => Err(QrError::MissingPublicKey),
            Some(k) => {
                let kb = vstd::utf8::encode_utf8(k);
                if !primitives::hex_valid(kb) {
                    Err(QrError::InvalidKeyHex)
                } else if primitives::hex_bytes(kb).len() != 64 {
                    Err(QrError::WrongKeyLength(primitives::hex_bytes(kb).len() as usize))
                } else {
                    match onion {
                        None => Err(QrError::MissingOnion),
                        Some(o) => Ok((k, o, name)),
                    }
                }
            },
        },
    }
}

/// Read a contact from scanned QR data (see `qr_contact` of the trimmed
/// text). The contact gets a fresh random id and the current time; it is
/// unverified and not blocked.
pub fn parse_qr_data(qr_data: &str) -> (r: Result<Contact, QrError>)
    ensures
        match qr_contact(primitives::trimmed(qr_data@)) {
            Err(e) => r == Err::<Contact, QrError>(e),
            Ok((k, o, n)) => r matches Ok(c) && c.public_key@ == k && c.onion_address@ == o
                && c.display_name@ == n && !c.verified && !c.blocked,
        },
{
    proof { reveal_strlit("vchat://"); }
    assert("vchat://"@ =~= seq!['v', 'c', 'h', 'a', 't', ':', '/', '/']);
    let trimmed = primitives::str_trim(qr_data);
    let fields = if primitives::str_starts_with(trimmed, "vchat://") {
        let pairs = match primitives::url_query(trimmed) {
            Some(p) => p,
            None => return Err(QrError::InvalidUri),
        };
        fields_from_query(&pairs)?
    } else {
        let mut keys: Vec<&str> = Vec::new();
        keys.push("key");
        keys.push("public_key");
        keys.push("onion");
        keys.push("onion_address");
        keys.push("name");
        keys.push("display_name");
        let members = match primitives::json_string_members(trimmed, &keys) {
            Some(m) => m,
            None => return Err(QrError::InvalidJson),
        };
        fields_from_json_members(members)
    };
    let key_bytes = match &fields.key {
        Some(k) => primitives::hex_decode(k.as_str().as_bytes()),
        None => None,
    };
    let now = crate::messaging::protocol::now_secs();
    contact_from_fields(fields, key_bytes, primitives::uuid_v4(), now)
}

/// The JSON text a contact QR code carries for an identity: its key, name
/// and onion address, the type "vchat-contact" and version "1", keys in
/// sorted order.
pub open spec fn qr_payload(name: Seq<char>, key: Seq<char>, onion: Seq<char>) -> Seq<char> {
    "{\"key\":"@ + primitives::json_quoted(key) + ",\"name\":"@ + primitives::json_quoted(name)
        + ",\"onion\":"@ + primitives::json_quoted(onion) + ",\"type\":\"vchat-contact\",\"v\":\"1\"}"@
}

/// The contact QR code of an identity as an SVG data URL: the QR code of
/// `qr_payload`, base64-encoded after "data:image/svg+xml;base64,";
/// refused when the payload does not fit in a QR code.
pub fn generate_qr_code(identity: &Identity) -> (r: Result<String, QrError>)
    ensures
        ({
            let payload = qr_payload(identity.display_name@, identity.public_key@, identity.onion_address@);
            match primitives::qr_svg_image(vstd::utf8::encode_utf8(payload)) {
                None => r == Err::<String, QrError>(QrError::QrGenerationFailed),
                Some(svg) => r matches Ok(url) && url@ == "data:image/svg+xml;base64,"@
                    + primitives::base64_padded(vstd::utf8::encode_utf8(svg)),
            }
        }),
{
    let kq = primitives::json_quote(identity.public_key.as_str());
    let nq = primitives::json_quote(identity.display_name.as_str());
    let oq = primitives::json_quote(identity.onion_address.as_str());
    let payload = String::from_str("{\"key\":").concat(kq.as_str()).concat(",\"name\":").concat(nq.as_str())
        .concat(",\"onion\":").concat(oq.as_str()).concat(",\"type\":\"vchat-contact\",\"v\":\"1\"}");
    let ps = payload.as_str();
    assert(ps@ == qr_payload(identity.display_name@, identity.public_key@, identity.onion_address@));
    let svg = match primitives::qr_svg(ps.as_bytes()) {
        Some(s) => s,
        None => return Err(QrError::QrGenerationFailed),
    };
    let b64 = primitives::base64_encode(svg.as_str().as_bytes());
    Ok(String::from_str("data:image/svg+xml;base64,").concat(b64.as_str()))
}

} // verus!
