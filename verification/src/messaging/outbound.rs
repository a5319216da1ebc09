//! What sending takes: finding the contact and its key, checking a new
//! contact's key against its address, and planning who gets a new group and
//! a group message.
use vstd::prelude::*;
use vstd::string::StringSliceAdditionalSpecFns;
use crate::bytes;
use crate::commands::{Contact, Group, GroupMember, Identity, Message, MessageType};
use crate::crypto;
use crate::messaging::protocol::{self, GroupMemberInfo, WireMessage, WireMessageType};
use crate::primitives;
use crate::text;
use crate::tor;

verus! {

/// Why a messaging step failed.
#[derive(Debug, Clone, Copy, PartialEq, Eq, Structural)]
pub enum MessagingError {
    /// No contact has the address.
    ContactNotFound,
    /// A key is not hexadecimal.
    InvalidKeyHex,
    /// A contact key decodes to fewer than 32 bytes.
    KeyTooShort,
    /// A new contact's key does not decode to 64 bytes (the length it has).
    WrongKeyLength(usize),
    /// Decryption failed or the plaintext is not UTF-8.
    Undecryptable,
    /// The text is too long to encrypt (longer than 2^36 bytes, or too
    /// long for memory once sealed).
    EncryptionFailed,
}

/// The first contact with address `onion`, or -1.
pub open spec fn contact_pos(cs: Seq<Contact>, onion: Seq<char>) -> int
    decreases cs.len(),
{
    if cs.len() == 0 {
        -1
    } else if cs.last().onion_address@ == onion {
        let earlier = contact_pos(cs.drop_last(), onion);
        if earlier >= 0 { earlier } else { cs.len() - 1 }
    } else {
        contact_pos(cs.drop_last(), onion)
    }
}

pub proof fn lemma_contact_pos(cs: Seq<Contact>, onion: Seq<char>)
    ensures
        -1 <= contact_pos(cs, onion) < cs.len(),
        contact_pos(cs, onion) >= 0 ==> cs[contact_pos(cs, onion)].onion_address@ == onion,
        contact_pos(cs, onion) >= 0 ==> forall|j: int| 0 <= j < contact_pos(cs, onion) ==> cs[j].onion_address@ != onion,
        contact_pos(cs, onion) == -1 ==> forall|j: int| 0 <= j < cs.len() ==> cs[j].onion_address@ != onion,
    decreases cs.len(),
{
    if cs.len() > 0 {
        lemma_contact_pos(cs.drop_last(), onion);
        assert forall|j: int| 0 <= j < cs.len() - 1 implies cs.drop_last()[j] == cs[j] by {}
    }
}

/// The contact with address `onion` (the first, if several).
pub fn find_contact<'a>(contacts: &'a Vec<Contact>, onion: &str) -> (r: Result<&'a Contact, MessagingError>)
    ensures
        ({
            let i = contact_pos(contacts@, onion@);
            if i < 0 {
                r == Err::<&Contact, MessagingError>(MessagingError::ContactNotFound)
            } else {
                r matches Ok(c) && *c == contacts@[i]
            }
        }),
{
    proof { lemma_contact_pos(contacts@, onion@); }
    let mut i: usize = 0;
    while i < contacts.len()
        invariant
            i <= contacts@.len(),
            forall|j: int| 0 <= j < i ==> contacts@[j].onion_address@ != onion@,
            -1 <= contact_pos(contacts@, onion@) < contacts@.len(),
            contact_pos(contacts@, onion@) >= 0 ==> contacts@[contact_pos(contacts@, onion@)].onion_address@ == onion@,
            contact_pos(contacts@, onion@) >= 0 ==> forall|j: int| 0 <= j < contact_pos(contacts@, onion@) ==> contacts@[j].onion_address@ != onion@,
            contact_pos(contacts@, onion@) == -1 ==> forall|j: int| 0 <= j < contacts@.len() ==> contacts@[j].onion_address@ != onion@,
        decreases contacts@.len() - i,
    {
        if primitives::str_eq(contacts[i].onion_address.as_str(), onion) {
            return Ok(&contacts[i]);
        }
        i = i + 1;
    }
    Err(MessagingError::ContactNotFound)
}

/// A contact's X25519 key: the first 32 bytes its hexadecimal public key
/// decodes to.
pub fn resolve_contact_pubkey(contact: &Contact) -> (r: Result<[u8; 32], MessagingError>)
    ensures
        ({
            let hexb = vstd::utf8::encode_utf8(contact.public_key@);
            if !primitives::hex_valid(hexb) {
                r == Err::<[u8; 32], MessagingError>(MessagingError::InvalidKeyHex)
            } else if primitives::hex_bytes(hexb).len() < 32 {
                r == Err::<[u8; 32], MessagingError>(MessagingError::KeyTooShort)
            } else {
                r matches Ok(k) && k@ == primitives::hex_bytes(hexb).take(32)
            }
        }),
{
    let raw = match primitives::hex_decode(contact.public_key.as_str().as_bytes()) {
        Some(v) => v,
        None => return Err(MessagingError::InvalidKeyHex),
    };
    if raw.len() < 32 {
        return Err(MessagingError::KeyTooShort);
    }
    let k = bytes::take32(raw.as_slice(), 0);
    assert(k@ =~= raw@.take(32));
    Ok(k)
}

/// Check a new contact's hexadecimal public key (an X25519 key then an
/// Ed25519 key, 64 bytes in all): whether the onion address the Ed25519
/// half gives is `onion_address`.
pub fn check_contact_key(public_key: &str, onion_address: &str) -> (r: Result<bool, MessagingError>)
    ensures
        ({
            let hexb = public_key.spec_bytes();
            if !primitives::hex_valid(hexb) {
                r == Err::<bool, MessagingError>(MessagingError::InvalidKeyHex)
            } else if primitives::hex_bytes(hexb).len() != 64 {
                r == Err::<bool, MessagingError>(MessagingError::WrongKeyLength(primitives::hex_bytes(hexb).len() as usize))
            } else {
                r == Ok::<bool, MessagingError>(primitives::ascii_chars(tor::spec_v3_onion(primitives::hex_bytes(hexb).subrange(32, 64))) == onion_address@)
            }
        }),
{
    let raw = match primitives::hex_decode(public_key.as_bytes()) {
        Some(v) => v,
        None => return Err(MessagingError::InvalidKeyHex),
    };
    if raw.len() != 64 {
        return Err(MessagingError::WrongKeyLength(raw.len()));
    }
    let ed = bytes::take32(raw.as_slice(), 32);
    let expected = crypto::generate_onion_from_pubkey(&ed);
    Ok(primitives::str_eq(expected.as_str(), onion_address))
}

/// A new contact from its details: checked as `check_contact_key` says,
/// then stored under a fresh random id at the current time, unverified and
/// not blocked. Whether the address matched the key is returned with it
/// (a mismatch is only reported).
pub fn add_contact(display_name: &str, public_key: &str, onion_address: &str) -> (r: Result<(Contact, bool), MessagingError>)
    ensures
        ({
            let hexb = public_key.spec_bytes();
            match check_result(hexb, onion_address@) {
                Err(e) => r == Err::<(Contact, bool), MessagingError>(e),
                Ok(m) => r matches Ok((c, matched)) && matched == m && c.display_name@ == display_name@
                    && c.public_key@ == public_key@ && c.onion_address@ == onion_address@
                    && !c.verified && !c.blocked,
            }
        }),
{
    let matched = check_contact_key(public_key, onion_address)?;
    let now = crate::messaging::protocol::now_secs();
    let contact = Contact {
        id: primitives::uuid_v4(),
        display_name: display_name.to_string(),
        public_key: public_key.to_string(),
        onion_address: onion_address.to_string(),
        added_at: now,
        verified: false,
        blocked: false,
    };
    Ok((contact, matched))
}

/// What `check_contact_key` gives for key text `hexb` and address `onion`.
pub open spec fn check_result(hexb: Seq<u8>, onion: Seq<char>) -> Result<bool, MessagingError> {
    if !primitives::hex_valid(hexb) {
        Err(MessagingError::InvalidKeyHex)
    } else if primitives::hex_bytes(hexb).len() != 64 {
        Err(MessagingError::WrongKeyLength(primitives::hex_bytes(hexb).len() as usize))
    } else {
        Ok(primitives::ascii_chars(tor::spec_v3_onion(primitives::hex_bytes(hexb).subrange(32, 64))) == onion)
    }
}

/// The text of an envelope that `crypto::encrypt_message` made, decrypted
/// under `shared_key`; refused when it does not open or is not UTF-8.
pub fn decrypt_text(shared_key: &[u8; 32], encrypted: &[u8]) -> (r: Result<String, MessagingError>)
    ensures
        match crypto::spec_decrypt(shared_key@, encrypted@) {
            Ok(p) => if vstd::utf8::valid_utf8(p) {
                r matches Ok(s) && vstd::utf8::encode_utf8(s@) == p
            } else {
                r == Err::<String, MessagingError>(MessagingError::Undecryptable)
            },
            Err(_) => r == Err::<String, MessagingError>(MessagingError::Undecryptable),
        },
{
    let plain = match crypto::decrypt_message(shared_key, encrypted) {
        Ok(p) => p,
        Err(_) => return Err(MessagingError::Undecryptable),
    };
    match primitives::utf8_string(plain) {
        Some(s) => Ok(s),
        None => Err(MessagingError::Undecryptable),
    }
}

/// Addresses of a group's members other than `my_onion`, in order.
pub fn group_recipients(members: &Vec<String>, my_onion: &str) -> (r: Vec<String>)
    ensures
        text::texts(r@) == text::texts(members@).filter(|m: Seq<char>| m != my_onion@),
{
    let ghost ms = text::texts(members@);
    let ghost pred = |m: Seq<char>| m != my_onion@;
    let mut r: Vec<String> = Vec::new();
    let mut i: usize = 0;
    proof {
        reveal(Seq::filter);
    }
    assert(ms.take(0) =~= Seq::<Seq<char>>::empty());
    assert(text::texts(r@) =~= Seq::<Seq<char>>::empty());
    while i < members.len()
        invariant
            i <= members@.len(),
            ms == text::texts(members@),
            pred == |m: Seq<char>| m != my_onion@,
            text::texts(r@) == ms.take(i as int).filter(pred),
        decreases members@.len() - i,
    {
        proof {
            assert(ms.take(i + 1) =~= ms.take(i as int).push(ms[i as int]));
            ms.take(i as int).lemma_filter_push(ms[i as int], pred);
        }
        if !primitives::str_eq(members[i].as_str(), my_onion) {
            let ghost before = r@;
            r.push(text::copy_string(&members[i]));
            assert(text::texts(r@) =~= text::texts(before).push(members@[i as int]@));
        }
        i = i + 1;
    }
    assert(ms.take(i as int) =~= ms);
    r
}


/// A member's address, key, name and role.
pub type MemberInfoView = (Seq<char>, Seq<char>, Seq<char>, Seq<char>);

/// "admin".
pub open spec fn admin_role() -> Seq<char> {
    seq!['a', 'd', 'm', 'i', 'n']
}

/// "member".
pub open spec fn member_role() -> Seq<char> {
    seq!['m', 'e', 'm', 'b', 'e', 'r']
}

/// The values of a group member.
pub open spec fn member_view(m: GroupMember) -> MemberInfoView {
    (m.onion_address@, m.public_key@, m.display_name@, m.role@)
}

/// The values of a member description.
pub open spec fn info_view(m: GroupMemberInfo) -> MemberInfoView {
    (m.onion_address@, m.public_key@, m.display_name@, m.role@)
}

/// The members a new group has after the creator and the first requested
/// addresses: the creator as admin, then each requested address that is a
/// contact, as member, in order (addresses that are not contacts are
/// skipped).
pub open spec fn planned_members(me: Identity, cs: Seq<Contact>, onions: Seq<Seq<char>>) -> Seq<MemberInfoView>
    decreases onions.len(),
{
    if onions.len() == 0 {
        seq![(me.onion_address@, me.public_key@, me.display_name@, admin_role())]
    } else {
        let m = planned_members(me, cs, onions.drop_last());
        let i = contact_pos(cs, onions.last());
        if i >= 0 {
            m.push((cs[i].onion_address@, cs[i].public_key@, cs[i].display_name@, member_role()))
        } else {
            m
        }
    }
}

/// The invitations a new group sends: one to each member found among the
/// contacts, in order, listing the members known at that point.
pub open spec fn planned_invites(me: Identity, cs: Seq<Contact>, onions: Seq<Seq<char>>) -> Seq<(Seq<char>, Seq<MemberInfoView>)>
    decreases onions.len(),
{
    if onions.len() == 0 {
        Seq::empty()
    } else {
        let inv = planned_invites(me, cs, onions.drop_last());
        let i = contact_pos(cs, onions.last());
        if i >= 0 {
            inv.push((cs[i].onion_address@, planned_members(me, cs, onions)))
        } else {
            inv
        }
    }
}

/// An invitation to send: the address and the member list it carries.
pub struct GroupInvite {
    pub onion: String,
    pub members: Vec<GroupMemberInfo>,
}

/// What creating a group amounts to: its members, the invitations to send,
/// and the group record.
pub struct GroupPlan {
    pub members: Vec<GroupMember>,
    pub invites: Vec<GroupInvite>,
    pub group: Group,
}

fn infos_of(members: &Vec<GroupMember>) -> (r: Vec<GroupMemberInfo>)
    ensures
        r@.map_values(|m: GroupMemberInfo| info_view(m)) == members@.map_values(|m: GroupMember| member_view(m)),
{
    let mut r: Vec<GroupMemberInfo> = Vec::new();
    let mut i: usize = 0;
    while i < members.len()
        invariant
            i <= members@.len(),
            r@.map_values(|m: GroupMemberInfo| info_view(m)) == members@.take(i as int).map_values(|m: GroupMember| member_view(m)),
        decreases members@.len() - i,
    {
        let m = &members[i];
        let info = GroupMemberInfo {
            onion_address: text::copy_string(&m.onion_address),
            public_key: text::copy_string(&m.public_key),
            display_name: text::copy_string(&m.display_name),
            role: text::copy_string(&m.role),
        };
        let ghost before = r@;
        r.push(info);
        assert(members@.take(i + 1).map_values(|m: GroupMember| member_view(m)) =~= members@.take(i as int).map_values(|m: GroupMember| member_view(m)).push(member_view(members@[i as int])));
        assert(r@.map_values(|m: GroupMemberInfo| info_view(m)) =~= before.map_values(|m: GroupMemberInfo| info_view(m)).push(info_view(info)));
        i = i + 1;
    }
    assert(members@.take(i as int) =~= members@);
    r
}

/// Plan the creation of group `group_id` named `name` by `me` at time
/// `now` with the requested member addresses (see `planned_members` and
/// `planned_invites`). Every member joins at `now`; the group's
/// description defaults to empty.
pub fn plan_group_creation(me: &Identity, contacts: &Vec<Contact>, member_onions: &Vec<String>, group_id: &str, name: &str, description: Option<&str>, now: i64) -> (r: GroupPlan)
    ensures
        r.members@.map_values(|m: GroupMember| member_view(m)) == planned_members(*me, contacts@, text::texts(member_onions@)),
        forall|j: int| 0 <= j < r.members@.len() ==> (#[trigger] r.members@[j]).group_id@ == group_id@ && r.members@[j].joined_at == now,
        r.invites@.map_values(|v: GroupInvite| (v.onion@, v.members@.map_values(|m: GroupMemberInfo| info_view(m))))
            == planned_invites(*me, contacts@, text::texts(member_onions@)),
        r.group.id@ == group_id@,
        r.group.name@ == name@,
        r.group.description@ == (match description { Some(d) => d@, None => Seq::<char>::empty() }),
        r.group.created_by@ == me.onion_address@,
        r.group.created_at == now,
        r.group.member_count == r.members@.len() as i64,
{
    proof {
        reveal_strlit("admin");
        reveal_strlit("member");
    }
    assert("admin"@ =~= admin_role());
    assert("member"@ =~= member_role());
    let ghost ons = text::texts(member_onions@);
    let mut members: Vec<GroupMember> = Vec::new();
    members.push(GroupMember {
        group_id: group_id.to_string(),
        onion_address: text::copy_string(&me.onion_address),
        public_key: text::copy_string(&me.public_key),
        display_name: text::copy_string(&me.display_name),
        role: "admin".to_string(),
        joined_at: now,
    });
    let mut invites: Vec<GroupInvite> = Vec::new();
    assert(ons.take(0) =~= Seq::<Seq<char>>::empty());
    assert(members@.map_values(|m: GroupMember| member_view(m)) =~= planned_members(*me, contacts@, ons.take(0)));
    assert(invites@.map_values(|v: GroupInvite| (v.onion@, v.members@.map_values(|m: GroupMemberInfo| info_view(m)))) =~= planned_invites(*me, contacts@, ons.take(0)));
    let mut i: usize = 0;
    while i < member_onions.len()
        invariant
            i <= member_onions@.len(),
            ons == text::texts(member_onions@),
            members@.map_values(|m: GroupMember| member_view(m)) == planned_members(*me, contacts@, ons.take(i as int)),
            forall|j: int| 0 <= j < members@.len() ==> (#[trigger] members@[j]).group_id@ == group_id@ && members@[j].joined_at == now,
            invites@.map_values(|v: GroupInvite| (v.onion@, v.members@.map_values(|m: GroupMemberInfo| info_view(m))))
                == planned_invites(*me, contacts@, ons.take(i as int)),
            "member"@ == member_role(),
        decreases member_onions@.len() - i,
    {
        proof {
            assert(ons.take(i + 1).drop_last() =~= ons.take(i as int));
            assert(ons.take(i + 1).last() == member_onions@[i as int]@);
            lemma_contact_pos(contacts@, member_onions@[i as int]@);
        }
        match find_contact(contacts, member_onions[i].as_str()) {
            Ok(c) => {
                let ghost mb = members@;
                let m = GroupMember {
                    group_id: group_id.to_string(),
                    onion_address: text::copy_string(&c.onion_address),
                    public_key: text::copy_string(&c.public_key),
                    display_name: text::copy_string(&c.display_name),
                    role: "member".to_string(),
                    joined_at: now,
                };
                members.push(m);
                assert(members@.map_values(|m: GroupMember| member_view(m)) =~= mb.map_values(|m: GroupMember| member_view(m)).push(member_view(m)));
                let snapshot = infos_of(&members);
                let ghost ib = invites@;
                let inv = GroupInvite { onion: text::copy_string(&c.onion_address), members: snapshot };
                invites.push(inv);
                assert(invites@.map_values(|v: GroupInvite| (v.onion@, v.members@.map_values(|m: GroupMemberInfo| info_view(m))))
                    =~= ib.map_values(|v: GroupInvite| (v.onion@, v.members@.map_values(|m: GroupMemberInfo| info_view(m))))
                        .push((inv.onion@, inv.members@.map_values(|m: GroupMemberInfo| info_view(m)))));
            },
            Err(_) => {},
        }
        i = i + 1;
    }
    assert(ons.take(i as int) =~= ons);
    let desc = match description {
        Some(d) => d.to_string(),
        None => String::new(),
    };
    let count = members.len() as i64;
    GroupPlan {
        members,
        invites,
        group: Group {
            id: group_id.to_string(),
            name: name.to_string(),
            description: desc,
            created_by: text::copy_string(&me.onion_address),
            created_at: now,
            member_count: count,
        },
    }
}

/// A text message ready to go out: its content encrypted for the store,
/// the signed wire message, and the record kept of it.
pub struct OutgoingText {
    pub encrypted: Vec<u8>,
    pub wire: WireMessage,
    pub message: Message,
}

/// The key a contact's stored public key gives (see
/// `resolve_contact_pubkey`), or why it gives none.
pub open spec fn contact_key(c: Contact) -> Result<Seq<u8>, MessagingError> {
    let hexb = vstd::utf8::encode_utf8(c.public_key@);
    if !primitives::hex_valid(hexb) {
        Err(MessagingError::InvalidKeyHex)
    } else if primitives::hex_bytes(hexb).len() < 32 {
        Err(MessagingError::KeyTooShort)
    } else {
        Ok(primitives::hex_bytes(hexb).take(32))
    }
}

/// Prepare text `content` of kind `message_type` for the contact at
/// `recipient_onion`, as the `seq`-th message to it under id `message_id`:
/// the content is encrypted under the key shared between `static_secret`
/// and the contact's key, and `payload_bytes` (the encoded text payload)
/// is signed into a text wire message. The record is from `me` to the
/// recipient, encrypted, not yet delivered or read, at the wire message's
/// time. Refused when the contact is unknown, when its key does not
/// resolve, or when the text is too long to encrypt.
pub fn prepare_text_message(
    me: &Identity,
    signing_key: &[u8; 32],
    verifying_key: &[u8; 32],
    static_secret: &[u8; 32],
    contacts: &Vec<Contact>,
    recipient_onion: &str,
    content: &str,
    message_type: MessageType,
    payload_bytes: Vec<u8>,
    message_id: String,
    seq: i64,
) -> (r: Result<OutgoingText, MessagingError>)
    ensures
        ({
            let i = contact_pos(contacts@, recipient_onion@);
            let plain = content.spec_bytes();
            if i < 0 {
                r == Err::<OutgoingText, MessagingError>(MessagingError::ContactNotFound)
            } else {
                match contact_key(contacts@[i]) {
                    Err(e) => r == Err::<OutgoingText, MessagingError>(e),
                    Ok(k) => if plain.len() > 0x10_0000_0000 || plain.len() + 32 > usize::MAX {
                        r == Err::<OutgoingText, MessagingError>(MessagingError::EncryptionFailed)
                    } else {
                        r matches Ok(o) && {
                            let key = crypto::spec_shared_key(static_secret@, k);
                            &&& o.encrypted@ == crypto::spec_envelope(key, o.encrypted@.subrange(0, 12), plain)
                            &&& o.encrypted@.len() == plain.len() + 32
                            &&& o.wire.version == protocol::WIRE_VERSION
                            &&& o.wire.msg_type == WireMessageType::Text
                            &&& o.wire.payload@ == payload_bytes@
                            &&& o.wire.sender_pubkey@ == verifying_key@
                            &&& o.wire.sequence == seq as u64
                            &&& o.wire.message_id@ == message_id@
                            &&& o.wire.signature@ == primitives::ed25519_signature(signing_key@, protocol::message_signing_input(o.wire))
                            &&& o.message.id@ == message_id@
                            &&& o.message.sender@ == me.onion_address@
                            &&& o.message.recipient@ == recipient_onion@
                            &&& o.message.content@ == content@
                            &&& o.message.timestamp == o.wire.timestamp
                            &&& o.message.encrypted
                            &&& o.message.message_type == message_type
                            &&& o.message.sequence_num == seq
                            &&& o.message.reply_to is None
                            &&& !o.message.delivered && !o.message.read
                            &&& o.message.expires_at is None
                        }
                    },
                }
            }
        }),
{
    proof { lemma_contact_pos(contacts@, recipient_onion@); }
    let contact = find_contact(contacts, recipient_onion)?;
    let their_pub = resolve_contact_pubkey(contact)?;
    let shared_key = crypto::derive_shared_key(static_secret, &their_pub);
    let plain = content.as_bytes();
    if plain.len() as u64 > 0x10_0000_0000u64 || plain.len() > usize::MAX - 32 {
        return Err(MessagingError::EncryptionFailed);
    }
    let encrypted = crypto::encrypt_message(&shared_key, plain);
    let id_copy = text::copy_string(&message_id);
    let wire = match protocol::create_wire_message(signing_key, verifying_key, WireMessageType::Text, payload_bytes, message_id, seq as u64) {
        Ok(w) => w,
        Err(_) => return Err(MessagingError::EncryptionFailed),
    };
    let message = Message {
        id: id_copy,
        sender: text::copy_string(&me.onion_address),
        recipient: recipient_onion.to_string(),
        content: content.to_string(),
        timestamp: wire.timestamp,
        encrypted: true,
        message_type,
        sequence_num: seq,
        reply_to: None,
        delivered: false,
        read: false,
        expires_at: None,
    };
    Ok(OutgoingText { encrypted, wire, message })
}

/// The record of a received text: `encrypted_content` decrypted under
/// `shared_key` (see `decrypt_text`), from `sender_onion` to `me`, as the
/// `seq`-th message under id `message_id` at time `now`, delivered and not
/// yet read.
pub fn receive_text_message(
    me: &Identity,
    sender_onion: &str,
    encrypted_content: &[u8],
    shared_key: &[u8; 32],
    message_id: String,
    seq: i64,
    now: i64,
) -> (r: Result<Message, MessagingError>)
    ensures
        match crypto::spec_decrypt(shared_key@, encrypted_content@) {
            Ok(p) => if vstd::utf8::valid_utf8(p) {
                r matches Ok(m) && vstd::utf8::encode_utf8(m.content@) == p
                    && m.id@ == message_id@ && m.sender@ == sender_onion@ && m.recipient@ == me.onion_address@
                    && m.timestamp == now && m.encrypted && m.message_type == MessageType::Text
                    && m.sequence_num == seq && m.reply_to is None && m.delivered && !m.read && m.expires_at is None
            } else {
                r == Err::<Message, MessagingError>(MessagingError::Undecryptable)
            },
            Err(_) => r == Err::<Message, MessagingError>(MessagingError::Undecryptable),
        },
{
    let content = decrypt_text(shared_key, encrypted_content)?;
    Ok(Message {
        id: message_id,
        sender: sender_onion.to_string(),
        recipient: text::copy_string(&me.onion_address),
        content,
        timestamp: now,
        encrypted: true,
        message_type: MessageType::Text,
        sequence_num: seq,
        reply_to: None,
        delivered: true,
        read: false,
        expires_at: None,
    })
}

} // verus!
