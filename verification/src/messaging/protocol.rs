//! The signed wire protocol: message kinds and payloads, the bytes a
//! signature covers, signing and checking, and length-prefixed framing.
use vstd::prelude::*;
use crate::bytes;
use crate::primitives;
use crate::tor;

verus! {

/// Protocol version this library speaks.
pub const WIRE_VERSION: u8 = 1;
/// Largest payload accepted (4 MiB).
pub const MAX_MESSAGE_SIZE: usize = 4194304;
/// Largest frame, length prefix included.
pub const MAX_FRAME_SIZE: usize = 65536;

/// Kinds of wire message.
#[derive(Debug, Clone, Copy, PartialEq, Eq, Structural)]
pub enum WireMessageType {
    Text,
    FileMeta,
    FileChunk,
    CallInvite,
    CallAccept,
    CallReject,
    CallEnd,
    Heartbeat,
    Reaction,
    TypingIndicator,
    Presence,
    GroupCreate,
    GroupInvite,
    GroupMessage,
    GroupAck,
    DisappearingMessage,
    ReadReceipt,
    DeliveryReceipt,
    ProfileUpdate,
    GroupUpdate,
    Ack,
}

/// The number that stands for a message kind: its position in the list.
pub open spec fn spec_type_code(t: WireMessageType) -> u16 {
    match t {
        WireMessageType::Text => 0,
        WireMessageType::FileMeta => 1,
        WireMessageType::FileChunk => 2,
        WireMessageType::CallInvite => 3,
        WireMessageType::CallAccept => 4,
        WireMessageType::CallReject => 5,
        WireMessageType::CallEnd => 6,
        WireMessageType::Heartbeat => 7,
        WireMessageType::Reaction => 8,
        WireMessageType::TypingIndicator => 9,
        WireMessageType::Presence => 10,
        WireMessageType::GroupCreate => 11,
        WireMessageType::GroupInvite => 12,
        WireMessageType::GroupMessage => 13,
        WireMessageType::GroupAck => 14,
        WireMessageType::DisappearingMessage => 15,
        WireMessageType::ReadReceipt => 16,
        WireMessageType::DeliveryReceipt => 17,
        WireMessageType::ProfileUpdate => 18,
        WireMessageType::GroupUpdate => 19,
        WireMessageType::Ack => 20,
    }
}

impl WireMessageType {
    /// The number that stands for this kind.
    pub fn code(&self) -> (r: u16)
        ensures
            r == spec_type_code(*self),
    {
        match self {
            WireMessageType::Text => 0,
            WireMessageType::FileMeta => 1,
            WireMessageType::FileChunk => 2,
            WireMessageType::CallInvite => 3,
            WireMessageType::CallAccept => 4,
            WireMessageType::CallReject => 5,
            WireMessageType::CallEnd => 6,
            WireMessageType::Heartbeat => 7,
            WireMessageType::Reaction => 8,
            WireMessageType::TypingIndicator => 9,
            WireMessageType::Presence => 10,
            WireMessageType::GroupCreate => 11,
            WireMessageType::GroupInvite => 12,
            WireMessageType::GroupMessage => 13,
            WireMessageType::GroupAck => 14,
            WireMessageType::DisappearingMessage => 15,
            WireMessageType::ReadReceipt => 16,
            WireMessageType::DeliveryReceipt => 17,
            WireMessageType::ProfileUpdate => 18,
            WireMessageType::GroupUpdate => 19,
            WireMessageType::Ack => 20,
        }
    }
}

/// A signed message as sent between peers.
#[derive(Debug, Clone)]
pub struct WireMessage {
    pub version: u8,
    pub msg_type: WireMessageType,
    pub payload: Vec<u8>,
    pub signature: Vec<u8>,
    pub sender_pubkey: Vec<u8>,
    pub timestamp: i64,
    pub sequence: u64,
    pub nonce: Vec<u8>,
    pub message_id: String,
}

/// Kind of call.
#[derive(Debug, Clone, Copy, PartialEq, Eq, Structural)]
pub enum CallType {
    Voice,
    Video,
}

#[derive(Debug, Clone)]
pub struct TextPayload {
    pub content: String,
    pub reply_to: Option<String>,
}

#[derive(Debug, Clone)]
pub struct FileMetaPayload {
    pub file_id: String,
    pub filename: String,
    pub mime_type: String,
    pub size: u64,
    pub chunks_total: u32,
    pub sha256: String,
}

#[derive(Debug, Clone)]
pub struct FileChunkPayload {
    pub file_id: String,
    pub chunk_index: u32,
    pub data: Vec<u8>,
}

#[derive(Debug, Clone)]
pub struct CallInvitePayload {
    pub call_id: String,
    pub call_type: CallType,
    pub sdp_offer: String,
}

#[derive(Debug, Clone)]
pub struct HeartbeatPayload {
    pub relay_hint: Option<String>,
    pub uptime_secs: u64,
    pub active_sessions: u32,
}

#[derive(Debug, Clone)]
pub struct ReactionPayload {
    pub message_id: String,
    pub emoji: String,
}

#[derive(Debug, Clone)]
pub struct TypingPayload {
    pub peer_onion: String,
    pub is_typing: bool,
}

#[derive(Debug, Clone)]
pub struct PresencePayload {
    pub status: String,
    pub last_seen: i64,
}

#[derive(Debug, Clone)]
pub struct GroupMemberInfo {
    pub onion_address: String,
    pub public_key: String,
    pub display_name: String,
    pub role: String,
}

#[derive(Debug, Clone)]
pub struct GroupCreatePayload {
    pub group_id: String,
    pub name: String,
    pub members: Vec<GroupMemberInfo>,
}

#[derive(Debug, Clone)]
pub struct GroupMessagePayload {
    pub group_id: String,
    pub content: String,
    pub reply_to: Option<String>,
}

#[derive(Debug, Clone)]
pub struct GroupAckPayload {
    pub group_id: String,
    pub message_id: String,
}

#[derive(Debug, Clone)]
pub struct DisappearingPayload {
    pub message_id: String,
    pub ttl_secs: u64,
}

#[derive(Debug, Clone)]
pub struct ReadReceiptPayload {
    pub message_ids: Vec<String>,
}

#[derive(Debug, Clone)]
pub struct DeliveryReceiptPayload {
    pub message_ids: Vec<String>,
}

#[derive(Debug, Clone)]
pub struct ProfileUpdatePayload {
    pub display_name: Option<String>,
    pub avatar_hash: Option<String>,
}

#[derive(Debug, Clone)]
pub struct GroupInvitePayload {
    pub group_id: String,
    pub group_name: String,
    pub invited_by: String,
    pub encrypted_key: String,
}

#[derive(Debug, Clone)]
pub struct GroupAckPayloadInner {
    pub group_id: String,
    pub message_id: String,
    pub status: String,
}

/// Why a wire message or frame was refused.
#[derive(Debug, Clone, Copy, PartialEq, Eq, Structural)]
pub enum ProtocolError {
    /// The message's version is not `WIRE_VERSION`.
    UnsupportedVersion(u8),
    /// The payload is larger than `MAX_MESSAGE_SIZE`.
    PayloadTooLarge(usize),
    /// The signature is not 64 bytes long.
    InvalidSignatureLength(usize),
    /// A frame is larger than `MAX_FRAME_SIZE`.
    FrameTooLarge(usize),
    /// Fewer than 4 bytes: no length prefix.
    FrameTooShort,
    /// The data ends before the announced frame length.
    InsufficientData { expected: usize, got: usize },
    /// The sender's public key is not 32 bytes long.
    InvalidSenderKeyLength(usize),
}

/// The bytes a wire message's signature covers: version, kind (16-bit
/// little-endian), payload length (32-bit little-endian), payload,
/// timestamp and sequence (64-bit little-endian), nonce, and the message id
/// in UTF-8.
pub open spec fn spec_signing_input(version: u8, t: WireMessageType, payload: Seq<u8>, timestamp: i64, sequence: u64, nonce: Seq<u8>, message_id: Seq<char>) -> Seq<u8> {
    seq![version] + bytes::le16(spec_type_code(t)) + bytes::le32(payload.len() as u32) + payload
        + bytes::le64(timestamp as u64) + bytes::le64(sequence) + nonce + vstd::utf8::encode_utf8(message_id)
}

/// The signing input of a message as it stands.
pub open spec fn message_signing_input(m: WireMessage) -> Seq<u8> {
    spec_signing_input(m.version, m.msg_type, m.payload@, m.timestamp, m.sequence, m.nonce@, m.message_id@)
}

fn signing_input(version: u8, t: WireMessageType, payload: &[u8], timestamp: i64, sequence: u64, nonce: &[u8], message_id: &String) -> (out: Vec<u8>)
    ensures
        out@ == spec_signing_input(version, t, payload@, timestamp, sequence, nonce@, message_id@),
{
    let mut out: Vec<u8> = Vec::new();
    out.push(version);
    bytes::push_le16(&mut out, t.code());
    bytes::push_le32(&mut out, payload.len() as u32);
    bytes::push_all(&mut out, payload);
    bytes::push_le64(&mut out, timestamp as u64);
    bytes::push_le64(&mut out, sequence);
    bytes::push_all(&mut out, nonce);
    bytes::push_all(&mut out, message_id.as_str().as_bytes());
    assert(out@ =~= spec_signing_input(version, t, payload@, timestamp, sequence, nonce@, message_id@));
    out
}

/// Build a signed message at time `timestamp` with the given nonce: the
/// signature is the Ed25519 signature of the signing input under
/// `signing_key`.
pub fn create_wire_message_at(
    signing_key: &[u8; 32],
    verifying_key: &[u8; 32],
    msg_type: WireMessageType,
    payload_bytes: Vec<u8>,
    message_id: String,
    sequence: u64,
    timestamp: i64,
    nonce: Vec<u8>,
) -> (r: WireMessage)
    ensures
        r.version == WIRE_VERSION,
        r.msg_type == msg_type,
        r.payload@ == payload_bytes@,
        r.sender_pubkey@ == verifying_key@,
        r.timestamp == timestamp,
        r.sequence == sequence,
        r.nonce@ == nonce@,
        r.message_id@ == message_id@,
        r.signature@ == primitives::ed25519_signature(signing_key@, message_signing_input(r)),
        r.signature@.len() == 64,
{
    let input = signing_input(WIRE_VERSION, msg_type, payload_bytes.as_slice(), timestamp, sequence, nonce.as_slice(), &message_id);
    let sig = primitives::ed25519_sign(signing_key, input.as_slice());
    let mut signature: Vec<u8> = Vec::new();
    bytes::push_all(&mut signature, &sig);
    let mut sender_pubkey: Vec<u8> = Vec::new();
    bytes::push_all(&mut sender_pubkey, verifying_key);
    assert(signature@ =~= sig@);
    assert(sender_pubkey@ =~= verifying_key@);
    WireMessage {
        version: WIRE_VERSION,
        msg_type,
        payload: payload_bytes,
        signature,
        sender_pubkey,
        timestamp,
        sequence,
        nonce,
        message_id,
    }
}

/// Signed seconds for a clock reading: `Ok(s)` is `s` seconds after the
/// Unix epoch, `Err(s)` is `s` seconds before it.
pub open spec fn spec_signed_secs(reading: Result<u64, u64>) -> int {
    match reading {
        Ok(s) => if s <= i64::MAX { s as int } else { i64::MAX as int },
        Err(s) => if s <= i64::MAX { -(s as int) } else { -(i64::MAX as int) },
    }
}

/// A clock reading as signed seconds since the Unix epoch, saturating at
/// the ends of the `i64` range.
pub fn signed_secs(reading: Result<u64, u64>) -> (t: i64)
    ensures
        t == spec_signed_secs(reading),
{
    match reading {
        Ok(s) => if s <= 0x7fff_ffff_ffff_ffff { s as i64 } else { 0x7fff_ffff_ffff_ffff },
        Err(s) => if s <= 0x7fff_ffff_ffff_ffff { -(s as i64) } else { -0x7fff_ffff_ffff_ffff },
    }
}

/// The current time in whole seconds since the Unix epoch, negative before
/// it; which time it is depends on the clock.
pub fn now_secs() -> (t: i64)
    ensures
        exists|reading: Result<u64, u64>| t == spec_signed_secs(reading),
{
    let reading = primitives::unix_time();
    signed_secs(reading)
}

/// Build a signed message stamped with the current time and a fresh
/// random 32-byte nonce (see `create_wire_message_at`).
pub fn create_wire_message(
    signing_key: &[u8; 32],
    verifying_key: &[u8; 32],
    msg_type: WireMessageType,
    payload_bytes: Vec<u8>,
    message_id: String,
    sequence: u64,
) -> (r: Result<WireMessage, ProtocolError>)
    ensures
        r matches Ok(m) && {
            &&& m.version == WIRE_VERSION
            &&& m.msg_type == msg_type
            &&& m.payload@ == payload_bytes@
            &&& m.sender_pubkey@ == verifying_key@
            &&& m.sequence == sequence
            &&& m.nonce@.len() == 32
            &&& m.message_id@ == message_id@
            &&& m.signature@ == primitives::ed25519_signature(signing_key@, message_signing_input(m))
            &&& m.signature@.len() == 64
        },
{
    let timestamp = now_secs();
    let n = primitives::random_bytes32();
    let mut nonce: Vec<u8> = Vec::new();
    bytes::push_all(&mut nonce, &n);
    Ok(create_wire_message_at(signing_key, verifying_key, msg_type, payload_bytes, message_id, sequence, timestamp, nonce))
}

/// Check a message's signature under `verifying_key`. The version, the
/// payload size and the signature length are checked first, in that
/// order, and refused with an error; otherwise the result says whether the
/// signature is valid. A message that `create_wire_message` signed with the
/// matching secret key is accepted.
pub fn verify_wire_message(message: &WireMessage, verifying_key: &[u8; 32]) -> (r: Result<bool, ProtocolError>)
    ensures
        message.version != WIRE_VERSION ==> r == Err::<bool, ProtocolError>(ProtocolError::UnsupportedVersion(message.version)),
        message.version == WIRE_VERSION && message.payload@.len() > MAX_MESSAGE_SIZE
            ==> r == Err::<bool, ProtocolError>(ProtocolError::PayloadTooLarge(message.payload@.len() as usize)),
        message.version == WIRE_VERSION && message.payload@.len() <= MAX_MESSAGE_SIZE && message.signature@.len() != 64
            ==> r == Err::<bool, ProtocolError>(ProtocolError::InvalidSignatureLength(message.signature@.len() as usize)),
        message.version == WIRE_VERSION && message.payload@.len() <= MAX_MESSAGE_SIZE && message.signature@.len() == 64
            ==> r == Ok::<bool, ProtocolError>(primitives::ed25519_accepts_lax(verifying_key@, message_signing_input(*message), message.signature@)),
        forall|secret: Seq<u8>| secret.len() == 32 && message.version == WIRE_VERSION
            && message.payload@.len() <= MAX_MESSAGE_SIZE && message.signature@.len() == 64
            && verifying_key@ == primitives::ed25519_public_key(secret)
            && message.signature@ == #[trigger] primitives::ed25519_signature(secret, message_signing_input(*message))
            ==> r == Ok::<bool, ProtocolError>(true),
{
    if message.version != WIRE_VERSION {
        return Err(ProtocolError::UnsupportedVersion(message.version));
    }
    if message.payload.len() > MAX_MESSAGE_SIZE {
        return Err(ProtocolError::PayloadTooLarge(message.payload.len()));
    }
    let input = signing_input(message.version, message.msg_type, message.payload.as_slice(), message.timestamp,
        message.sequence, message.nonce.as_slice(), &message.message_id);
    if message.signature.len() != 64 {
        return Err(ProtocolError::InvalidSignatureLength(message.signature.len()));
    }
    let mut sig = [0u8; 64];
    let mut i: usize = 0;
    while i < 64
        invariant
            i <= 64,
            message.signature@.len() == 64,
            forall|j: int| 0 <= j < i ==> sig@[j] == message.signature@[j],
        decreases 64 - i,
    {
        sig[i] = message.signature[i];
        i = i + 1;
    }
    assert(sig@ =~= message.signature@);
    Ok(primitives::ed25519_verify(verifying_key, input.as_slice(), &sig))
}

/// A frame: the length of `body` as a 32-bit little-endian value, then
/// `body`.
pub open spec fn spec_frame(body: Seq<u8>) -> Seq<u8> {
    bytes::le32(body.len() as u32) + body
}

/// Frame an encoded message for the stream, refusing frames larger than
/// `MAX_FRAME_SIZE`.
pub fn frame_wire_bytes(serialized: &[u8]) -> (r: Result<Vec<u8>, ProtocolError>)
    requires
        serialized@.len() + 4 <= usize::MAX,
    ensures
        serialized@.len() + 4 <= MAX_FRAME_SIZE ==> (r matches Ok(f) && f@ == spec_frame(serialized@)),
        serialized@.len() + 4 > MAX_FRAME_SIZE ==> r == Err::<Vec<u8>, ProtocolError>(ProtocolError::FrameTooLarge((serialized@.len() + 4) as usize)),
{
    let n = serialized.len();
    if n > MAX_FRAME_SIZE - 4 {
        return Err(ProtocolError::FrameTooLarge(n + 4));
    }
    let mut buf: Vec<u8> = Vec::new();
    bytes::push_le32(&mut buf, n as u32);
    bytes::push_all(&mut buf, serialized);
    Ok(buf)
}

/// The body of the frame at the start of `data`: refused when there is no
/// length prefix, when the data ends before the announced length, or when
/// that length is larger than `MAX_FRAME_SIZE`, checked in that order.
pub fn unframe_wire_bytes(data: &[u8]) -> (r: Result<Vec<u8>, ProtocolError>)
    ensures
        data@.len() < 4 ==> r == Err::<Vec<u8>, ProtocolError>(ProtocolError::FrameTooShort),
        data@.len() >= 4 ==> {
            let len = bytes::read_le32(data@, 0) as int;
            &&& data@.len() < 4 + len ==> r == Err::<Vec<u8>, ProtocolError>(ProtocolError::InsufficientData { expected: len as usize, got: (data@.len() - 4) as usize })
            &&& data@.len() >= 4 + len && len > MAX_FRAME_SIZE ==> r == Err::<Vec<u8>, ProtocolError>(ProtocolError::FrameTooLarge(len as usize))
            &&& data@.len() >= 4 + len && len <= MAX_FRAME_SIZE ==> (r matches Ok(b) && b@ == data@.subrange(4, 4 + len))
        },
{
    if data.len() < 4 {
        return Err(ProtocolError::FrameTooShort);
    }
    let frame_len = bytes::load_le32(data, 0) as usize;
    if data.len() - 4 < frame_len {
        return Err(ProtocolError::InsufficientData { expected: frame_len, got: data.len() - 4 });
    }
    if frame_len > MAX_FRAME_SIZE {
        return Err(ProtocolError::FrameTooLarge(frame_len));
    }
    Ok(bytes::copy_range(data, 4, 4 + frame_len))
}

/// A framed body comes back unchanged.
pub proof fn lemma_frame_round_trip(body: Seq<u8>)
    requires
        body.len() + 4 <= MAX_FRAME_SIZE,
    ensures
        bytes::read_le32(spec_frame(body), 0) == body.len(),
        spec_frame(body).subrange(4, 4 + body.len() as int) == body,
{
    bytes::lemma_le32_roundtrip(body.len() as u32);
    assert(spec_frame(body).subrange(0, 4) =~= bytes::le32(body.len() as u32));
    assert(bytes::read_le32(spec_frame(body), 0) == bytes::read_le32(bytes::le32(body.len() as u32), 0));
    assert(spec_frame(body).subrange(4, 4 + body.len() as int) =~= body);
}

/// Refuse a decoded message whose version is not `WIRE_VERSION`.
pub fn check_decoded_version(message: &WireMessage) -> (r: Result<(), ProtocolError>)
    ensures
        r is Ok <==> message.version == WIRE_VERSION,
        r is Err ==> r == Err::<(), ProtocolError>(ProtocolError::UnsupportedVersion(message.version)),
{
    if message.version != WIRE_VERSION {
        Err(ProtocolError::UnsupportedVersion(message.version))
    } else {
        Ok(())
    }
}

/// The onion address of a message's sender, from its 32-byte public key.
pub fn derive_sender_onion(msg: &WireMessage) -> (r: Result<String, ProtocolError>)
    ensures
        msg.sender_pubkey@.len() == 32 ==> (r matches Ok(s) && s@ == primitives::ascii_chars(tor::spec_v3_onion(msg.sender_pubkey@))),
        msg.sender_pubkey@.len() != 32 ==> r == Err::<String, ProtocolError>(ProtocolError::InvalidSenderKeyLength(msg.sender_pubkey@.len() as usize)),
{
    if msg.sender_pubkey.len() != 32 {
        return Err(ProtocolError::InvalidSenderKeyLength(msg.sender_pubkey.len()));
    }
    let key = bytes::take32(msg.sender_pubkey.as_slice(), 0);
    assert(key@ =~= msg.sender_pubkey@);
    Ok(tor::pubkey_to_v3_onion(&key))
}

} // verus!
