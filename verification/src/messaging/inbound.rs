//! What an incoming connection is answered with: the frame length check,
//! which handler a message kind goes to, and the records a received text
//! message becomes.
use vstd::prelude::*;
use vstd::string::StringSliceAdditionalSpecFns;
use crate::bytes;
use crate::commands::{Message, MessageType};
use crate::messaging::outbound::MessagingError;
use crate::messaging::protocol::{self, WireMessage, WireMessageType};
use crate::primitives;
use crate::text;

verus! {

/// Why an incoming frame was refused before decoding.
#[derive(Debug, Clone, Copy, PartialEq, Eq, Structural)]
pub enum InboundError {
    /// The announced length is above `MAX_MESSAGE_SIZE` (the length).
    TooLarge(usize),
}

/// The payload length a frame's 4-byte little-endian prefix announces,
/// refused above `MAX_MESSAGE_SIZE`.
pub fn frame_length(len_buf: &[u8; 4]) -> (r: Result<usize, InboundError>)
    ensures
        bytes::read_le32(len_buf@, 0) <= protocol::MAX_MESSAGE_SIZE ==> r == Ok::<usize, InboundError>(bytes::read_le32(len_buf@, 0) as usize),
        bytes::read_le32(len_buf@, 0) > protocol::MAX_MESSAGE_SIZE ==> r == Err::<usize, InboundError>(InboundError::TooLarge(bytes::read_le32(len_buf@, 0) as usize)),
{
    let n = bytes::load_le32(len_buf, 0) as usize;
    if n > protocol::MAX_MESSAGE_SIZE {
        Err(InboundError::TooLarge(n))
    } else {
        Ok(n)
    }
}

/// The handler a received message goes to.
#[derive(Debug, Clone, Copy, PartialEq, Eq, Structural)]
pub enum Route {
    Text,
    CallInvite,
    CallAccept,
    CallReject,
    CallEnd,
    TypingIndicator,
    Heartbeat,
    FileMeta,
    FileChunk,
    Reaction,
    DeliveryReceipt,
    ReadReceipt,
    GroupCreate,
    GroupMessage,
    GroupUpdate,
    Default,
}

/// The handler for each message kind; kinds without one of their own are
/// acknowledged by the default handler.
pub open spec fn spec_route(t: WireMessageType) -> Route {
    match t {
        WireMessageType::Text => Route::Text,
        WireMessageType::CallInvite => Route::CallInvite,
        WireMessageType::CallAccept => Route::CallAccept,
        WireMessageType::CallReject => Route::CallReject,
        WireMessageType::CallEnd => Route::CallEnd,
        WireMessageType::TypingIndicator => Route::TypingIndicator,
        WireMessageType::Heartbeat => Route::Heartbeat,
        WireMessageType::FileMeta => Route::FileMeta,
        WireMessageType::FileChunk => Route::FileChunk,
        WireMessageType::Reaction => Route::Reaction,
        WireMessageType::DeliveryReceipt => Route::DeliveryReceipt,
        WireMessageType::ReadReceipt => Route::ReadReceipt,
        WireMessageType::GroupCreate => Route::GroupCreate,
        WireMessageType::GroupMessage => Route::GroupMessage,
        WireMessageType::GroupUpdate => Route::GroupUpdate,
        _ => Route::Default,
    }
}

/// Every kind with a handler of its own goes to the handler of that kind,
/// and no two kinds share a handler other than the default one.
pub proof fn lemma_route_names_kind(t: WireMessageType, u: WireMessageType)
    ensures
        t == WireMessageType::Text <==> spec_route(t) == Route::Text,
        t == WireMessageType::CallInvite <==> spec_route(t) == Route::CallInvite,
        t == WireMessageType::CallAccept <==> spec_route(t) == Route::CallAccept,
        t == WireMessageType::CallReject <==> spec_route(t) == Route::CallReject,
        t == WireMessageType::CallEnd <==> spec_route(t) == Route::CallEnd,
        t == WireMessageType::TypingIndicator <==> spec_route(t) == Route::TypingIndicator,
        t == WireMessageType::Heartbeat <==> spec_route(t) == Route::Heartbeat,
        t == WireMessageType::FileMeta <==> spec_route(t) == Route::FileMeta,
        t == WireMessageType::FileChunk <==> spec_route(t) == Route::FileChunk,
        t == WireMessageType::Reaction <==> spec_route(t) == Route::Reaction,
        t == WireMessageType::DeliveryReceipt <==> spec_route(t) == Route::DeliveryReceipt,
        t == WireMessageType::ReadReceipt <==> spec_route(t) == Route::ReadReceipt,
        t == WireMessageType::GroupCreate <==> spec_route(t) == Route::GroupCreate,
        t == WireMessageType::GroupMessage <==> spec_route(t) == Route::GroupMessage,
        t == WireMessageType::GroupUpdate <==> spec_route(t) == Route::GroupUpdate,
        spec_route(t) == spec_route(u) && spec_route(t) != Route::Default ==> t == u,
{
}

/// The handler for a message kind (see `spec_route`): each kind with a
/// handler of its own goes to the handler of the same kind.
pub fn route(t: WireMessageType) -> (r: Route)
    ensures
        r == spec_route(t),
        t == WireMessageType::Text <==> r == Route::Text,
        t == WireMessageType::CallInvite <==> r == Route::CallInvite,
        t == WireMessageType::CallAccept <==> r == Route::CallAccept,
        t == WireMessageType::CallReject <==> r == Route::CallReject,
        t == WireMessageType::CallEnd <==> r == Route::CallEnd,
        t == WireMessageType::TypingIndicator <==> r == Route::TypingIndicator,
        t == WireMessageType::Heartbeat <==> r == Route::Heartbeat,
        t == WireMessageType::FileMeta <==> r == Route::FileMeta,
        t == WireMessageType::FileChunk <==> r == Route::FileChunk,
        t == WireMessageType::Reaction <==> r == Route::Reaction,
        t == WireMessageType::DeliveryReceipt <==> r == Route::DeliveryReceipt,
        t == WireMessageType::ReadReceipt <==> r == Route::ReadReceipt,
        t == WireMessageType::GroupCreate <==> r == Route::GroupCreate,
        t == WireMessageType::GroupMessage <==> r == Route::GroupMessage,
        t == WireMessageType::GroupUpdate <==> r == Route::GroupUpdate,
{
    match t {
        WireMessageType::Text => Route::Text,
        WireMessageType::CallInvite => Route::CallInvite,
        WireMessageType::CallAccept => Route::CallAccept,
        WireMessageType::CallReject => Route::CallReject,
        WireMessageType::CallEnd => Route::CallEnd,
        WireMessageType::TypingIndicator => Route::TypingIndicator,
        WireMessageType::Heartbeat => Route::Heartbeat,
        WireMessageType::FileMeta => Route::FileMeta,
        WireMessageType::FileChunk => Route::FileChunk,
        WireMessageType::Reaction => Route::Reaction,
        WireMessageType::DeliveryReceipt => Route::DeliveryReceipt,
        WireMessageType::ReadReceipt => Route::ReadReceipt,
        WireMessageType::GroupCreate => Route::GroupCreate,
        WireMessageType::GroupMessage => Route::GroupMessage,
        WireMessageType::GroupUpdate => Route::GroupUpdate,
        _ => Route::Default,
    }
}

/// The sequence number of a reply to `msg`: one more than its own, or
/// `None` at the top of the range.
pub fn reply_sequence(msg: &WireMessage) -> (r: Option<u64>)
    ensures
        msg.sequence < u64::MAX ==> r == Some((msg.sequence + 1) as u64),
        msg.sequence == u64::MAX ==> r is None,
{
    msg.sequence.checked_add(1)
}

/// The stored record of a received text message: from `sender` to
/// `recipient`, with the message's id, time and sequence number, encrypted
/// in transit, not yet delivered or read, never expiring.
pub fn incoming_text_record(msg: &WireMessage, sender: String, recipient: String, content: String, reply_to: Option<String>) -> (r: Message)
    ensures
        r.id@ == msg.message_id@,
        r.sender == sender,
        r.recipient == recipient,
        r.content == content,
        r.timestamp == msg.timestamp,
        r.encrypted,
        r.message_type == MessageType::Text,
        r.sequence_num == msg.sequence as i64,
        r.reply_to == reply_to,
        !r.delivered && !r.read,
        r.expires_at is None,
{
    Message {
        id: text::copy_string(&msg.message_id),
        sender,
        recipient,
        content,
        timestamp: msg.timestamp,
        encrypted: true,
        message_type: MessageType::Text,
        sequence_num: msg.sequence as i64,
        reply_to,
        delivered: false,
        read: false,
        expires_at: None,
    }
}

/// A contact's X25519 key from its stored public key: the 32 bytes its
/// first 64 hexadecimal characters spell. The key is cut after its 64th
/// byte, which must end a character.
pub fn contact_x25519_key(public_key: &str) -> (r: Result<[u8; 32], MessagingError>)
    requires
        public_key.spec_bytes().len() < 64 || vstd::utf8::is_char_boundary(public_key.spec_bytes(), 64),
    ensures
        ({
            let b = public_key.spec_bytes();
            if b.len() < 64 {
                r == Err::<[u8; 32], MessagingError>(MessagingError::KeyTooShort)
            } else if !primitives::hex_valid(b.take(64)) {
                r == Err::<[u8; 32], MessagingError>(MessagingError::InvalidKeyHex)
            } else {
                r matches Ok(k) && k@ == primitives::hex_bytes(b.take(64))
            }
        }),
{
    let b = public_key.as_bytes();
    if b.len() < 64 {
        return Err(MessagingError::KeyTooShort);
    }
    let head = bytes::copy_range(b, 0, 64);
    assert(head@ =~= b@.take(64));
    match primitives::hex_decode(head.as_slice()) {
        None => Err(MessagingError::InvalidKeyHex),
        Some(raw) => {
            let k = bytes::take32(raw.as_slice(), 0);
            assert(k@ =~= raw@);
            Ok(k)
        },
    }
}

/// The plaintext of a text payload whose content is the hexadecimal form
/// of an envelope sealed under `shared_key`.
pub fn decrypt_hex_content(shared_key: &[u8; 32], content_hex: &str) -> (r: Result<String, MessagingError>)
    ensures
        !primitives::hex_valid(content_hex.spec_bytes()) ==> r == Err::<String, MessagingError>(MessagingError::InvalidKeyHex),
        primitives::hex_valid(content_hex.spec_bytes()) ==> match crate::crypto::spec_decrypt(shared_key@, primitives::hex_bytes(content_hex.spec_bytes())) {
            Ok(p) => if vstd::utf8::valid_utf8(p) {
                r matches Ok(s) && vstd::utf8::encode_utf8(s@) == p
            } else {
                r == Err::<String, MessagingError>(MessagingError::Undecryptable)
            },
            Err(_) => r == Err::<String, MessagingError>(MessagingError::Undecryptable),
        },
{
    let ciphertext = match primitives::hex_decode(content_hex.as_bytes()) {
        Some(c) => c,
        None => return Err(MessagingError::InvalidKeyHex),
    };
    crate::messaging::outbound::decrypt_text(shared_key, ciphertext.as_slice())
}

/// The JSON payload of an acknowledgement of message number `seq`:
/// `{"original_seq":seq,"status":"ok"}`.
pub open spec fn ack_payload(seq: u64) -> Seq<u8> {
    seq![123u8, 34, 111, 114, 105, 103, 105, 110, 97, 108, 95, 115, 101, 113, 34, 58] + crate::settings::decimal(seq as nat)
        + seq![44u8, 34, 115, 116, 97, 116, 117, 115, 34, 58, 34, 111, 107, 34, 125]
}

/// The acknowledgement of `msg`, signed with `signing_key` under id
/// `message_id`: an `Ack` carrying `ack_payload` of its sequence number,
/// numbered one after it; `None` when its number is the last one.
pub fn build_ack_response(msg: &WireMessage, signing_key: &[u8; 32], verifying_key: &[u8; 32], message_id: String) -> (r: Option<WireMessage>)
    ensures
        msg.sequence == u64::MAX ==> r is None,
        msg.sequence < u64::MAX ==> (r matches Some(m) && {
            &&& m.version == protocol::WIRE_VERSION
            &&& m.msg_type == WireMessageType::Ack
            &&& m.payload@ == ack_payload(msg.sequence)
            &&& m.sender_pubkey@ == verifying_key@
            &&& m.sequence == msg.sequence + 1
            &&& m.message_id@ == message_id@
            &&& m.signature@ == primitives::ed25519_signature(signing_key@, protocol::message_signing_input(m))
        }),
{
    let seq = match reply_sequence(msg) {
        Some(s) => s,
        None => return None,
    };
    let head: [u8; 16] = [123, 34, 111, 114, 105, 103, 105, 110, 97, 108, 95, 115, 101, 113, 34, 58];
    let tail: [u8; 15] = [44, 34, 115, 116, 97, 116, 117, 115, 34, 58, 34, 111, 107, 34, 125];
    let digits = crate::settings::format_u64(msg.sequence);
    let mut payload: Vec<u8> = Vec::new();
    bytes::push_all(&mut payload, &head);
    proof { crate::settings::lemma_decimal_ascii(msg.sequence as nat); }
    bytes::push_all(&mut payload, digits.as_str().as_bytes());
    bytes::push_all(&mut payload, &tail);
    assert(payload@ =~= ack_payload(msg.sequence));
    match protocol::create_wire_message(signing_key, verifying_key, WireMessageType::Ack, payload, message_id, seq) {
        Ok(m) => Some(m),
        Err(_) => None,
    }
}

/// The JSON payload of a heartbeat answer:
/// `{"relay_hint":null,"uptime_secs":uptime,"active_sessions":1}`.
pub open spec fn heartbeat_payload(uptime_secs: u64) -> Seq<u8> {
    seq![123u8, 34, 114, 101, 108, 97, 121, 95, 104, 105, 110, 116, 34, 58, 110, 117, 108, 108, 44, 34, 117,
        112, 116, 105, 109, 101, 95, 115, 101, 99, 115, 34, 58] + crate::settings::decimal(uptime_secs as nat)
        + seq![44u8, 34, 97, 99, 116, 105, 118, 101, 95, 115, 101, 115, 115, 105, 111, 110, 115, 34, 58, 49, 125]
}

/// The answer to a heartbeat `msg`, signed with `signing_key` under id
/// `message_id`: a `Heartbeat` carrying `heartbeat_payload` of the node's
/// uptime, numbered one after `msg`; `None` when its number is the last one.
pub fn build_heartbeat_response(msg: &WireMessage, uptime_secs: u64, signing_key: &[u8; 32], verifying_key: &[u8; 32], message_id: String) -> (r: Option<WireMessage>)
    ensures
        msg.sequence == u64::MAX ==> r is None,
        msg.sequence < u64::MAX ==> (r matches Some(m) && {
            &&& m.version == protocol::WIRE_VERSION
            &&& m.msg_type == WireMessageType::Heartbeat
            &&& m.payload@ == heartbeat_payload(uptime_secs)
            &&& m.sender_pubkey@ == verifying_key@
            &&& m.sequence == msg.sequence + 1
            &&& m.message_id@ == message_id@
            &&& m.signature@ == primitives::ed25519_signature(signing_key@, protocol::message_signing_input(m))
        }),
{
    let seq = match reply_sequence(msg) {
        Some(s) => s,
        None => return None,
    };
    let head: [u8; 33] = [123, 34, 114, 101, 108, 97, 121, 95, 104, 105, 110, 116, 34, 58, 110, 117, 108, 108, 44, 34, 117,
        112, 116, 105, 109, 101, 95, 115, 101, 99, 115, 34, 58];
    let tail: [u8; 21] = [44, 34, 97, 99, 116, 105, 118, 101, 95, 115, 101, 115, 115, 105, 111, 110, 115, 34, 58, 49, 125];
    let digits = crate::settings::format_u64(uptime_secs);
    let mut payload: Vec<u8> = Vec::new();
    bytes::push_all(&mut payload, &head);
    proof { crate::settings::lemma_decimal_ascii(uptime_secs as nat); }
    bytes::push_all(&mut payload, digits.as_str().as_bytes());
    bytes::push_all(&mut payload, &tail);
    assert(payload@ =~= heartbeat_payload(uptime_secs));
    match protocol::create_wire_message(signing_key, verifying_key, WireMessageType::Heartbeat, payload, message_id, seq) {
        Ok(m) => Some(m),
        Err(_) => None,
    }
}

/// What a received group update does to the stored member list of its group.
pub enum GroupUpdateAction {
    /// Store this member with the role `member`.
    AddMember { onion_address: String, public_key: String, display_name: String },
    /// Drop this member.
    RemoveMember { onion_address: String },
    /// Leave the member list as it is.
    Nothing,
}

/// The text of an optional field, empty when it is missing.
pub open spec fn text_or_empty(o: Option<String>) -> Seq<char> {
    match o {
        Some(s) => s@,
        None => Seq::empty(),
    }
}

/// The action of an update of kind `update_type` whose data holds the given
/// `onion_address`, `public_key` and `display_name` strings (`None` where
/// the data has no string under that name): `member_added` adds the member,
/// with a missing key or name stored empty; `member_removed` drops it; any
/// other kind, or data without an onion address, changes nothing.
pub fn group_update_action(update_type: &str, onion_address: Option<String>, public_key: Option<String>, display_name: Option<String>) -> (r: GroupUpdateAction)
    ensures
        update_type@ == "member_added"@ && onion_address is Some ==> (r matches GroupUpdateAction::AddMember { onion_address: o, public_key: k, display_name: n }
            && o@ == onion_address.unwrap()@ && k@ == text_or_empty(public_key) && n@ == text_or_empty(display_name)),
        update_type@ == "member_removed"@ && onion_address is Some ==> (r matches GroupUpdateAction::RemoveMember { onion_address: o }
            && o@ == onion_address.unwrap()@),
        !(update_type@ == "member_added"@ || update_type@ == "member_removed"@) || onion_address is None ==> r is Nothing,
{
    proof {
        reveal_strlit("member_added");
        reveal_strlit("member_removed");
        assert("member_added"@.len() != "member_removed"@.len());
    }
    match onion_address {
        None => GroupUpdateAction::Nothing,
        Some(o) => {
            if primitives::str_eq(update_type, "member_added") {
                let k = match public_key {
                    Some(k) => k,
                    None => String::new(),
                };
                let n = match display_name {
                    Some(n) => n,
                    None => String::new(),
                };
                GroupUpdateAction::AddMember { onion_address: o, public_key: k, display_name: n }
            } else if primitives::str_eq(update_type, "member_removed") {
                GroupUpdateAction::RemoveMember { onion_address: o }
            } else {
                GroupUpdateAction::Nothing
            }
        },
    }
}

/// The content stored for a received text whose payload content is
/// `content`: its plaintext when a key shared with the sender is known
/// (`shared_key`) and the content is the hexadecimal form of an envelope
/// sealed under it holding UTF-8 text; else the content as it came.
pub fn received_text_content(shared_key: Option<[u8; 32]>, content: &str) -> (r: String)
    ensures
        ({
            let b = content.spec_bytes();
            match shared_key {
                Some(k) => if primitives::hex_valid(b) && (crate::crypto::spec_decrypt(k@, primitives::hex_bytes(b)) matches Ok(p)
                    && vstd::utf8::valid_utf8(p)) {
                    crate::crypto::spec_decrypt(k@, primitives::hex_bytes(b)) matches Ok(p) && vstd::utf8::encode_utf8(r@) == p
                } else {
                    r@ == content@
                },
                None => r@ == content@,
            }
        }),
{
    match shared_key {
        Some(k) => match decrypt_hex_content(&k, content) {
            Ok(plain) => plain,
            Err(_) => content.to_string(),
        },
        None => content.to_string(),
    }
}

/// The delivery receipt for `msg`, carrying `payload` (the encoded list of
/// the ids it acknowledges), signed with `signing_key` under id
/// `message_id` and numbered one after `msg`; `None` when its number is
/// the last one.
pub fn build_delivery_receipt(msg: &WireMessage, payload: Vec<u8>, signing_key: &[u8; 32], verifying_key: &[u8; 32], message_id: String) -> (r: Option<WireMessage>)
    ensures
        msg.sequence == u64::MAX ==> r is None,
        msg.sequence < u64::MAX ==> (r matches Some(m) && {
            &&& m.version == protocol::WIRE_VERSION
            &&& m.msg_type == WireMessageType::DeliveryReceipt
            &&& m.payload@ == payload@
            &&& m.sender_pubkey@ == verifying_key@
            &&& m.sequence == msg.sequence + 1
            &&& m.message_id@ == message_id@
            &&& m.signature@ == primitives::ed25519_signature(signing_key@, protocol::message_signing_input(m))
        }),
{
    let seq = match reply_sequence(msg) {
        Some(s) => s,
        None => return None,
    };
    match protocol::create_wire_message(signing_key, verifying_key, WireMessageType::DeliveryReceipt, payload, message_id, seq) {
        Ok(m) => Some(m),
        Err(_) => None,
    }
}

} // verus!
