//! Data types exchanged with the user interface, message-type names, and
//! the application settings with their stored text form.
use vstd::prelude::*;
use crate::primitives;
use crate::webrtc::calls::WebRTCState;

verus! {

/// The local identity.
#[derive(Debug, Clone)]
pub struct Identity {
    pub public_key: String,
    pub onion_address: String,
    pub display_name: String,
}

/// A contact.
#[derive(Debug, Clone)]
pub struct Contact {
    pub id: String,
    pub display_name: String,
    pub public_key: String,
    pub onion_address: String,
    pub added_at: i64,
    pub verified: bool,
    pub blocked: bool,
}

/// Kind of a chat message.
#[derive(Debug, Clone, Copy, PartialEq, Eq, Structural)]
pub enum MessageType {
    Text,
    File,
    Image,
    Video,
    Audio,
    VoiceNote,
    Media,
    System,
    Sticker,
    Location,
}

/// The stored name of each message type.
pub open spec fn spec_type_name(t: MessageType) -> Seq<char> {
    match t {
        MessageType::Text => "text"@,
        MessageType::File => "file"@,
        MessageType::Image => "image"@,
        MessageType::Video => "video"@,
        MessageType::Audio => "audio"@,
        MessageType::VoiceNote => "voice_note"@,
        MessageType::Media => "media"@,
        MessageType::System => "system"@,
        MessageType::Sticker => "sticker"@,
        MessageType::Location => "location"@,
    }
}

/// The message type a stored name stands for; unknown names are text.
pub open spec fn spec_type_from_name(s: Seq<char>) -> MessageType {
    if s == "file"@ {
        MessageType::File
    } else if s == "image"@ {
        MessageType::Image
    } else if s == "video"@ {
        MessageType::Video
    } else if s == "audio"@ {
        MessageType::Audio
    } else if s == "voice_note"@ {
        MessageType::VoiceNote
    } else if s == "media"@ {
        MessageType::Media
    } else if s == "system"@ {
        MessageType::System
    } else if s == "sticker"@ {
        MessageType::Sticker
    } else if s == "location"@ {
        MessageType::Location
    } else {
        MessageType::Text
    }
}

/// The stored names are ten different texts.
proof fn lemma_type_names_distinct()
    ensures
        "text"@ != "file"@,
        "text"@ != "image"@,
        "text"@ != "video"@,
        "text"@ != "audio"@,
        "text"@ != "voice_note"@,
        "text"@ != "media"@,
        "text"@ != "system"@,
        "text"@ != "sticker"@,
        "text"@ != "location"@,
        "file"@ != "image"@,
        "file"@ != "video"@,
        "file"@ != "audio"@,
        "file"@ != "voice_note"@,
        "file"@ != "media"@,
        "file"@ != "system"@,
        "file"@ != "sticker"@,
        "file"@ != "location"@,
        "image"@ != "video"@,
        "image"@ != "audio"@,
        "image"@ != "voice_note"@,
        "image"@ != "media"@,
        "image"@ != "system"@,
        "image"@ != "sticker"@,
        "image"@ != "location"@,
        "video"@ != "audio"@,
        "video"@ != "voice_note"@,
        "video"@ != "media"@,
        "video"@ != "system"@,
        "video"@ != "sticker"@,
        "video"@ != "location"@,
        "audio"@ != "voice_note"@,
        "audio"@ != "media"@,
        "audio"@ != "system"@,
        "audio"@ != "sticker"@,
        "audio"@ != "location"@,
        "voice_note"@ != "media"@,
        "voice_note"@ != "system"@,
        "voice_note"@ != "sticker"@,
        "voice_note"@ != "location"@,
        "media"@ != "system"@,
        "media"@ != "sticker"@,
        "media"@ != "location"@,
        "system"@ != "sticker"@,
        "system"@ != "location"@,
        "sticker"@ != "location"@,
{
    reveal_strlit("text");
    reveal_strlit("file");
    reveal_strlit("image");
    reveal_strlit("video");
    reveal_strlit("audio");
    reveal_strlit("voice_note");
    reveal_strlit("media");
    reveal_strlit("system");
    reveal_strlit("sticker");
    reveal_strlit("location");
    assert("text"@.len() == 4);
    assert("file"@.len() == 4);
    assert("image"@.len() == 5);
    assert("video"@.len() == 5);
    assert("audio"@.len() == 5);
    assert("voice_note"@.len() == 10);
    assert("media"@.len() == 5);
    assert("system"@.len() == 6);
    assert("sticker"@.len() == 7);
    assert("location"@.len() == 8);
    assert("text"@[0] != "file"@[0]);
    assert("image"@[0] != "video"@[0]);
    assert("image"@[0] != "audio"@[0]);
    assert("image"@[0] != "media"@[0]);
    assert("video"@[0] != "audio"@[0]);
    assert("video"@[0] != "media"@[0]);
    assert("audio"@[0] != "media"@[0]);
}

impl MessageType {
    /// The stored name of the type: `text`, `file`, `image`, `video`,
    /// `audio`, `voice_note`, `media`, `system`, `sticker` or `location`.
    pub fn as_str(&self) -> (r: &'static str)
        ensures
            r@ == spec_type_name(*self),
            *self == MessageType::Text <==> r@ == "text"@,
            *self == MessageType::File <==> r@ == "file"@,
            *self == MessageType::Image <==> r@ == "image"@,
            *self == MessageType::Video <==> r@ == "video"@,
            *self == MessageType::Audio <==> r@ == "audio"@,
            *self == MessageType::VoiceNote <==> r@ == "voice_note"@,
            *self == MessageType::Media <==> r@ == "media"@,
            *self == MessageType::System <==> r@ == "system"@,
            *self == MessageType::Sticker <==> r@ == "sticker"@,
            *self == MessageType::Location <==> r@ == "location"@,
    {
        proof { lemma_type_names_distinct(); }
        match self {
            MessageType::Text => "text",
            MessageType::File => "file",
            MessageType::Image => "image",
            MessageType::Video => "video",
            MessageType::Audio => "audio",
            MessageType::VoiceNote => "voice_note",
            MessageType::Media => "media",
            MessageType::System => "system",
            MessageType::Sticker => "sticker",
            MessageType::Location => "location",
        }
    }

    /// The type a stored name stands for; any other name is text.
    pub fn from_string(s: &str) -> (r: Self)
        ensures
            r == spec_type_from_name(s@),
            s@ == "text"@ ==> r == MessageType::Text,
            s@ == "file"@ ==> r == MessageType::File,
            s@ == "image"@ ==> r == MessageType::Image,
            s@ == "video"@ ==> r == MessageType::Video,
            s@ == "audio"@ ==> r == MessageType::Audio,
            s@ == "voice_note"@ ==> r == MessageType::VoiceNote,
            s@ == "media"@ ==> r == MessageType::Media,
            s@ == "system"@ ==> r == MessageType::System,
            s@ == "sticker"@ ==> r == MessageType::Sticker,
            s@ == "location"@ ==> r == MessageType::Location,
    {
        proof { lemma_type_names_distinct(); }
        if primitives::str_eq(s, "file") {
            MessageType::File
        } else if primitives::str_eq(s, "image") {
            MessageType::Image
        } else if primitives::str_eq(s, "video") {
            MessageType::Video
        } else if primitives::str_eq(s, "audio") {
            MessageType::Audio
        } else if primitives::str_eq(s, "voice_note") {
            MessageType::VoiceNote
        } else if primitives::str_eq(s, "media") {
            MessageType::Media
        } else if primitives::str_eq(s, "system") {
            MessageType::System
        } else if primitives::str_eq(s, "sticker") {
            MessageType::Sticker
        } else if primitives::str_eq(s, "location") {
            MessageType::Location
        } else {
            MessageType::Text
        }
    }
}

/// Reading back the stored name of a message type gives the same type.
pub proof fn lemma_type_name_round_trip(t: MessageType)
    ensures
        spec_type_from_name(spec_type_name(t)) == t,
{
    reveal_strlit("text");
    reveal_strlit("file");
    reveal_strlit("image");
    reveal_strlit("video");
    reveal_strlit("audio");
    reveal_strlit("voice_note");
    reveal_strlit("media");
    reveal_strlit("system");
    reveal_strlit("sticker");
    reveal_strlit("location");
    assert("text"@.len() == 4 && "text"@[0] == 't');
    assert("file"@.len() == 4 && "file"@[0] == 'f');
    assert("image"@.len() == 5 && "image"@[0] == 'i');
    assert("video"@.len() == 5 && "video"@[0] == 'v');
    assert("audio"@.len() == 5 && "audio"@[0] == 'a');
    assert("voice_note"@.len() == 10 && "voice_note"@[0] == 'v');
    assert("media"@.len() == 5 && "media"@[0] == 'm');
    assert("system"@.len() == 6 && "system"@[0] == 's');
    assert("sticker"@.len() == 7 && "sticker"@[0] == 's');
    assert("location"@.len() == 8 && "location"@[0] == 'l');
}

/// A chat message.
#[derive(Debug, Clone)]
pub struct Message {
    pub id: String,
    pub sender: String,
    pub recipient: String,
    pub content: String,
    pub timestamp: i64,
    pub encrypted: bool,
    pub message_type: MessageType,
    pub sequence_num: i64,
    pub reply_to: Option<String>,
    pub delivered: bool,
    pub read: bool,
    pub expires_at: Option<i64>,
}

/// An emoji reaction to a message.
#[derive(Debug, Clone)]
pub struct Reaction {
    pub id: String,
    pub message_id: String,
    pub sender: String,
    pub emoji: String,
    pub timestamp: i64,
}

/// Whether a peer is typing.
#[derive(Debug, Clone)]
pub struct TypingStatus {
    pub peer_onion: String,
    pub is_typing: bool,
    pub last_typing_at: i64,
}

/// A group chat.
#[derive(Debug, Clone)]
pub struct Group {
    pub id: String,
    pub name: String,
    pub description: String,
    pub created_by: String,
    pub created_at: i64,
    pub member_count: i64,
}

/// A member of a group.
#[derive(Debug, Clone)]
pub struct GroupMember {
    pub group_id: String,
    pub onion_address: String,
    pub public_key: String,
    pub display_name: String,
    pub role: String,
    pub joined_at: i64,
}

/// A message in a group.
#[derive(Debug, Clone)]
pub struct GroupMessage {
    pub id: String,
    pub group_id: String,
    pub sender: String,
    pub content: String,
    pub timestamp: i64,
    pub message_type: MessageType,
    pub reply_to: Option<String>,
}

/// A logged call.
#[derive(Debug, Clone)]
pub struct CallLogEntry {
    pub id: String,
    pub peer_onion: String,
    pub call_type: String,
    pub direction: String,
    pub started_at: i64,
    pub ended_at: Option<i64>,
    pub duration_secs: Option<i64>,
    pub status: String,
}

/// A file transfer record.
#[derive(Debug, Clone)]
pub struct FileTransfer {
    pub id: String,
    pub sender: String,
    pub recipient: String,
    pub filename: String,
    pub mime_type: String,
    pub size: i64,
    pub status: String,
    pub started_at: i64,
    pub completed_at: Option<i64>,
}

/// Connection state of the Tor service.
#[derive(Debug, Clone)]
pub struct TorStatus {
    pub connected: bool,
    pub onion_address: String,
}

/// Names of the cryptographic algorithms in use.
#[derive(Debug, Clone)]
pub struct EncryptionInfo {
    pub algorithm: String,
    pub key_exchange: String,
    pub key_derivation: String,
    pub signing: String,
    pub handshake: String,
    pub onion_version: String,
}

/// The algorithms the messenger uses.
pub fn encryption_info() -> (r: EncryptionInfo)
    ensures
        r.algorithm@ == "AES-256-GCM"@,
        r.key_exchange@ == "X25519 ECDH"@,
        r.key_derivation@ == "HKDF-SHA256"@,
        r.signing@ == "Ed25519"@,
        r.handshake@ == "Noise_XX_25519_ChaChaPoly_BLAKE2s"@,
        r.onion_version@ == "v3 (ed25519)"@,
{
    EncryptionInfo {
        algorithm: String::from_str("AES-256-GCM"),
        key_exchange: String::from_str("X25519 ECDH"),
        key_derivation: String::from_str("HKDF-SHA256"),
        signing: String::from_str("Ed25519"),
        handshake: String::from_str("Noise_XX_25519_ChaChaPoly_BLAKE2s"),
        onion_version: String::from_str("v3 (ed25519)"),
    }
}

/// User settings.
#[derive(Debug, Clone)]
pub struct AppSettings {
    pub disappearing_messages_default: bool,
    pub default_ttl_secs: u64,
    pub read_receipts: bool,
    pub typing_indicators: bool,
    pub notifications_enabled: bool,
    pub theme: String,
}

/// Settings before the user changes anything.
pub fn default_settings() -> (r: AppSettings)
    ensures
        r.disappearing_messages_default == false,
        r.default_ttl_secs == 3600,
        r.read_receipts == true,
        r.typing_indicators == true,
        r.notifications_enabled == true,
        r.theme@ == "dark"@,
{
    AppSettings {
        disappearing_messages_default: false,
        default_ttl_secs: 3600,
        read_receipts: true,
        typing_indicators: true,
        notifications_enabled: true,
        theme: String::from_str("dark"),
    }
}

/// Application state shared by the user-interface commands.
pub struct VchatState {
    pub webrtc: WebRTCState,
}

impl VchatState {
    pub fn new() -> (r: Self)
        ensures
            r.webrtc.active_calls@.len() == 0,
            r.webrtc.call_history@.len() == 0,
    {
        VchatState { webrtc: WebRTCState::new() }
    }
}

/// A fresh shared application state.
pub fn create_app_state() -> (r: std::sync::Arc<VchatState>)
    ensures
        r.webrtc.active_calls@.len() == 0,
        r.webrtc.call_history@.len() == 0,
{
    std::sync::Arc::new(VchatState::new())
}

} // verus!
