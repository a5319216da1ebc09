//! Conversation swarms: who administers, belongs to, is invited to or is
//! banned from each conversation, and how invitations are accepted.
use vstd::prelude::*;
use crate::bytes;
use crate::primitives;
use crate::text;

verus! {

/// Who may join a conversation.
#[derive(Debug, Clone, Copy, PartialEq, Eq, Structural)]
pub enum SwarmMode {
    OneToOne,
    AdminInvitesOnly,
    InvitesOnly,
    Public,
}

/// The number a mode is recorded as.
pub open spec fn spec_mode_code(m: SwarmMode) -> u8 {
    match m {
        SwarmMode::OneToOne => 0,
        SwarmMode::AdminInvitesOnly => 1,
        SwarmMode::InvitesOnly => 2,
        SwarmMode::Public => 3,
    }
}

impl SwarmMode {
    /// The number the mode is recorded as in a conversation's first commit.
    pub fn code(&self) -> (r: u8)
        ensures
            r == spec_mode_code(*self),
    {
        match self {
            SwarmMode::OneToOne => 0,
            SwarmMode::AdminInvitesOnly => 1,
            SwarmMode::InvitesOnly => 2,
            SwarmMode::Public => 3,
        }
    }
}

/// A member device's certificate.
#[derive(Debug)]
pub struct DeviceCertificate {
    pub device_id: String,
    pub public_key: Vec<u8>,
    pub signature: Vec<u8>,
}

/// A conversation's membership record.
#[derive(Debug)]
pub struct Conversation {
    pub id: String,
    pub mode: SwarmMode,
    pub admins: Vec<String>,
    pub members: Vec<String>,
    pub devices: Vec<DeviceCertificate>,
    pub invited: Vec<String>,
    pub banned: Vec<String>,
    pub crls: Vec<Vec<u8>>,
    pub created_at: i64,
    pub updated_at: i64,
}

/// Kind of a conversation message.
#[derive(Debug, Clone, Copy, PartialEq, Eq, Structural)]
pub enum MessageType {
    Text,
    File,
    Image,
    Video,
    Audio,
    VoiceNote,
    System,
    Vote,
    Member,
    ProfileUpdate,
    FileTransfer,
}

/// What a conversation message carries.
#[derive(Debug)]
pub enum MessagePayload {
    Text { body: String },
    File { name: String, size: u64, sha3sum: String, tid: String },
    Image { width: u32, height: u32, sha3sum: String, tid: String },
    Video { width: u32, height: u32, duration: u32, sha3sum: String, tid: String },
    Audio { duration: u32, sha3sum: String, tid: String },
    VoiceNote { duration: u32, sha3sum: String, tid: String },
    System { action: String },
    Vote { vote_type: String, target: String },
    Member { action: String, member: String },
    ProfileUpdate { title: Option<String>, description: Option<String>, avatar: Option<String> },
    FileTransfer { file_id: String, offset: u64, data: Vec<u8> },
}

/// A message committed to a conversation.
#[derive(Debug)]
pub struct Message {
    pub id: String,
    pub conversation_id: String,
    pub author: String,
    pub author_device: String,
    pub message_type: MessageType,
    pub payload: MessagePayload,
    pub timestamp: i64,
    pub parent_commit: Option<String>,
    pub signature: Vec<u8>,
}

/// A conversation's title, description and avatar.
#[derive(Debug)]
pub struct ConversationProfile {
    pub title: Option<String>,
    pub description: Option<String>,
    pub avatar: Option<String>,
}

/// The values of a device certificate.
pub type DeviceView = (Seq<char>, Seq<u8>, Seq<u8>);

/// The values of a conversation.
pub struct ConversationView {
    pub id: Seq<char>,
    pub mode: SwarmMode,
    pub admins: Seq<Seq<char>>,
    pub members: Seq<Seq<char>>,
    pub devices: Seq<DeviceView>,
    pub invited: Seq<Seq<char>>,
    pub banned: Seq<Seq<char>>,
    pub crls: Seq<Seq<u8>>,
    pub created_at: i64,
    pub updated_at: i64,
}

pub open spec fn device_view(d: DeviceCertificate) -> DeviceView {
    (d.device_id@, d.public_key@, d.signature@)
}

pub open spec fn conv_view(c: Conversation) -> ConversationView {
    ConversationView {
        id: c.id@,
        mode: c.mode,
        admins: text::texts(c.admins@),
        members: text::texts(c.members@),
        devices: c.devices@.map_values(|d: DeviceCertificate| device_view(d)),
        invited: text::texts(c.invited@),
        banned: text::texts(c.banned@),
        crls: c.crls@.map_values(|v: Vec<u8>| v@),
        created_at: c.created_at,
        updated_at: c.updated_at,
    }
}

/// Why a swarm operation failed.
#[derive(Debug, Clone, Copy, PartialEq, Eq, Structural)]
pub enum SwarmError {
    ConversationNotFound,
}

fn copy_bytes(v: &Vec<u8>) -> (r: Vec<u8>)
    ensures
        r@ == v@,
{
    let r = bytes::copy_range(v.as_slice(), 0, v.len());
    assert(r@ =~= v@);
    r
}

fn copy_devices(v: &Vec<DeviceCertificate>) -> (r: Vec<DeviceCertificate>)
    ensures
        r@.map_values(|d: DeviceCertificate| device_view(d)) == v@.map_values(|d: DeviceCertificate| device_view(d)),
{
    let mut r: Vec<DeviceCertificate> = Vec::new();
    let mut i: usize = 0;
    while i < v.len()
        invariant
            i <= v@.len(),
            r@.len() == i,
            forall|j: int| 0 <= j < i ==> device_view(#[trigger] r@[j]) == device_view(v@[j]),
        decreases v@.len() - i,
    {
        let d = &v[i];
        r.push(DeviceCertificate {
            device_id: text::copy_string(&d.device_id),
            public_key: copy_bytes(&d.public_key),
            signature: copy_bytes(&d.signature),
        });
        i = i + 1;
    }
    assert(r@.map_values(|d: DeviceCertificate| device_view(d)) =~= v@.map_values(|d: DeviceCertificate| device_view(d)));
    r
}

fn copy_byte_lists(v: &Vec<Vec<u8>>) -> (r: Vec<Vec<u8>>)
    ensures
        r@.map_values(|x: Vec<u8>| x@) == v@.map_values(|x: Vec<u8>| x@),
{
    let mut r: Vec<Vec<u8>> = Vec::new();
    let mut i: usize = 0;
    while i < v.len()
        invariant
            i <= v@.len(),
            r@.len() == i,
            forall|j: int| 0 <= j < i ==> (#[trigger] r@[j])@ == v@[j]@,
        decreases v@.len() - i,
    {
        r.push(copy_bytes(&v[i]));
        i = i + 1;
    }
    assert(r@.map_values(|x: Vec<u8>| x@) =~= v@.map_values(|x: Vec<u8>| x@));
    r
}

/// A copy of a conversation.
pub fn copy_conversation(c: &Conversation) -> (r: Conversation)
    ensures
        conv_view(r) == conv_view(*c),
{
    Conversation {
        id: text::copy_string(&c.id),
        mode: c.mode,
        admins: text::copy_strings(&c.admins),
        members: text::copy_strings(&c.members),
        devices: copy_devices(&c.devices),
        invited: text::copy_strings(&c.invited),
        banned: text::copy_strings(&c.banned),
        crls: copy_byte_lists(&c.crls),
        created_at: c.created_at,
        updated_at: c.updated_at,
    }
}

/// The first conversation with id `id`, or -1.
pub open spec fn conv_pos(cs: Seq<ConversationView>, id: Seq<char>) -> int
    decreases cs.len(),
{
    if cs.len() == 0 {
        -1
    } else {
        let earlier = conv_pos(cs.drop_last(), id);
        if earlier >= 0 { earlier } else if cs.last().id == id { cs.len() - 1 } else { -1 }
    }
}

pub proof fn lemma_conv_pos(cs: Seq<ConversationView>, id: Seq<char>)
    ensures
        -1 <= conv_pos(cs, id) < cs.len(),
        conv_pos(cs, id) >= 0 ==> cs[conv_pos(cs, id)].id == id,
        conv_pos(cs, id) >= 0 ==> forall|j: int| 0 <= j < conv_pos(cs, id) ==> cs[j].id != id,
        conv_pos(cs, id) == -1 ==> forall|j: int| 0 <= j < cs.len() ==> cs[j].id != id,
    decreases cs.len(),
{
    if cs.len() > 0 {
        lemma_conv_pos(cs.drop_last(), id);
        assert forall|j: int| 0 <= j < cs.len() - 1 implies cs.drop_last()[j] == cs[j] by {}
    }
}

/// A new conversation `id` in mode `mode`, created at `now` by `me`, who
/// administers it and is its only member; `peer`, if given, is invited.
pub open spec fn new_conversation(id: Seq<char>, mode: SwarmMode, me: Seq<char>, peer: Option<Seq<char>>, now: i64) -> ConversationView {
    ConversationView {
        id,
        mode,
        admins: seq![me],
        members: seq![me],
        devices: Seq::empty(),
        invited: match peer {
            Some(p) => seq![p],
            None => Seq::empty(),
        },
        banned: Seq::empty(),
        crls: Seq::empty(),
        created_at: now,
        updated_at: now,
    }
}

/// A conversation after `peer` is invited at `now`: added to the invited
/// unless already there.
pub open spec fn after_invite(c: ConversationView, peer: Seq<char>, now: i64) -> ConversationView {
    if c.invited.contains(peer) {
        c
    } else {
        ConversationView { invited: c.invited.push(peer), updated_at: now, ..c }
    }
}

/// A conversation after `me` accepts its invitation at `now`: `me` leaves
/// the invited (at its first place there) and joins the members; nothing
/// changes when `me` was not invited.
pub open spec fn after_accept(c: ConversationView, me: Seq<char>, now: i64) -> ConversationView {
    let i = c.invited.index_of_first(me);
    match i {
        Some(i) => ConversationView { invited: c.invited.remove(i), members: c.members.push(me), updated_at: now, ..c },
        None => c,
    }
}

/// Inviting the same peer twice is inviting it once: the second
/// invitation changes nothing.
pub proof fn lemma_invite_idempotent(c: ConversationView, peer: Seq<char>, t1: i64, t2: i64)
    ensures
        after_invite(after_invite(c, peer, t1), peer, t2) == after_invite(c, peer, t1),
        after_invite(c, peer, t1).invited.contains(peer),
{
    if !c.invited.contains(peer) {
        assert(c.invited.push(peer)[c.invited.len() as int] == peer);
    }
}

/// Accepting an invitation makes the local identity a member, and it is
/// invited once fewer.
pub proof fn lemma_accept_joins(c: ConversationView, me: Seq<char>, now: i64)
    requires
        c.invited.contains(me),
    ensures
        after_accept(c, me, now).members.contains(me),
        after_accept(c, me, now).invited.len() == c.invited.len() - 1,
        after_accept(c, me, now).members.len() == c.members.len() + 1,
{
    c.invited.index_of_first_ensures(me);
    let a = after_accept(c, me, now);
    assert(a.members[c.members.len() as int] == me);
}

/// The conversations a device takes part in.
pub struct SwarmManager {
    identity: String,
    conversations: Vec<Conversation>,
}

impl SwarmManager {
    /// The local identity.
    pub closed spec fn spec_identity(&self) -> Seq<char> {
        self.identity@
    }

    /// The conversations, in the order they were first stored.
    pub closed spec fn spec_conversations(&self) -> Seq<ConversationView> {
        self.conversations@.map_values(|c: Conversation| conv_view(c))
    }

    /// A manager for `identity` without conversations.
    pub fn new(identity: String) -> (r: Self)
        ensures
            r.spec_identity() == identity@,
            r.spec_conversations() == Seq::<ConversationView>::empty(),
    {
        let r = SwarmManager { identity, conversations: Vec::new() };
        assert(r.spec_conversations() =~= Seq::<ConversationView>::empty());
        r
    }

    fn find(&self, id: &str) -> (r: Option<usize>)
        ensures
            match r {
                None => conv_pos(self.spec_conversations(), id@) == -1,
                Some(i) => i == conv_pos(self.spec_conversations(), id@) && i < self.conversations@.len(),
            },
    {
        let ghost cs = self.spec_conversations();
        proof { lemma_conv_pos(cs, id@); }
        let mut i: usize = 0;
        while i < self.conversations.len()
            invariant
                i <= self.conversations@.len(),
                cs == self.spec_conversations(),
                cs.len() == self.conversations@.len(),
                forall|j: int| 0 <= j < i ==> cs[j].id != id@,
                -1 <= conv_pos(cs, id@) < cs.len(),
                conv_pos(cs, id@) >= 0 ==> cs[conv_pos(cs, id@)].id == id@,
                conv_pos(cs, id@) >= 0 ==> forall|j: int| 0 <= j < conv_pos(cs, id@) ==> cs[j].id != id@,
                conv_pos(cs, id@) == -1 ==> forall|j: int| 0 <= j < cs.len() ==> cs[j].id != id@,
            decreases self.conversations@.len() - i,
        {
            assert(cs[i as int] == conv_view(self.conversations@[i as int]));
            if primitives::str_eq(self.conversations[i].id.as_str(), id) {
                return Some(i);
            }
            i = i + 1;
        }
        None
    }

    /// Start a conversation in `mode` under a fresh random id at time `now`
    /// (see `new_conversation`), store it (replacing a stored one with the
    /// same id) and return a copy.
    pub fn create_conversation(&mut self, mode: SwarmMode, peer_identity: Option<String>, now: i64) -> (r: Conversation)
        ensures
            conv_view(r) == new_conversation(r.id@, mode, old(self).spec_identity(), text::opt_text(peer_identity), now),
            final(self).spec_identity() == old(self).spec_identity(),
            ({
                let i = conv_pos(old(self).spec_conversations(), r.id@);
                final(self).spec_conversations() == if i >= 0 {
                    old(self).spec_conversations().update(i, conv_view(r))
                } else {
                    old(self).spec_conversations().push(conv_view(r))
                }
            }),
    {
        let mut admins: Vec<String> = Vec::new();
        admins.push(text::copy_string(&self.identity));
        let mut members: Vec<String> = Vec::new();
        members.push(text::copy_string(&self.identity));
        let mut invited: Vec<String> = Vec::new();
        match peer_identity {
            Some(p) => invited.push(p),
            None => {},
        }
        let c = Conversation {
            id: primitives::uuid_v4(),
            mode,
            admins,
            members,
            devices: Vec::new(),
            invited,
            banned: Vec::new(),
            crls: Vec::new(),
            created_at: now,
            updated_at: now,
        };
        assert(text::texts(c.admins@) =~= seq![self.identity@]);
        assert(text::texts(c.members@) =~= seq![self.identity@]);
        assert(text::texts(c.invited@) =~= new_conversation(c.id@, mode, self.identity@, text::opt_text(peer_identity), now).invited);
        assert(c.devices@.map_values(|d: DeviceCertificate| device_view(d)) =~= Seq::<DeviceView>::empty());
        assert(text::texts(c.banned@) =~= Seq::<Seq<char>>::empty());
        assert(c.crls@.map_values(|v: Vec<u8>| v@) =~= Seq::<Seq<u8>>::empty());
        assert(conv_view(c) == new_conversation(c.id@, mode, self.identity@, text::opt_text(peer_identity), now));
        let out = copy_conversation(&c);
        let ghost before = self.conversations@;
        match self.find(c.id.as_str()) {
            Some(i) => {
                let mut c = c;
                self.conversations.set_and_swap(i, &mut c);
                assert(self.conversations@ == before.update(i as int, self.conversations@[i as int]));
                assert(self.spec_conversations() =~= before.map_values(|c: Conversation| conv_view(c)).update(i as int, conv_view(out)));
            },
            None => {
                self.conversations.push(c);
                assert(self.spec_conversations() =~= before.map_values(|c: Conversation| conv_view(c)).push(conv_view(out)));
            },
        }
        out
    }

    /// Invite `peer_identity` to conversation `conversation_id` at time
    /// `now` (see `after_invite`); refused for an unknown conversation.
    pub fn invite_to_conversation(&mut self, conversation_id: &str, peer_identity: &str, now: i64) -> (r: Result<(), SwarmError>)
        ensures
            final(self).spec_identity() == old(self).spec_identity(),
            ({
                let i = conv_pos(old(self).spec_conversations(), conversation_id@);
                if i < 0 {
                    &&& r == Err::<(), SwarmError>(SwarmError::ConversationNotFound)
                    &&& final(self).spec_conversations() == old(self).spec_conversations()
                } else {
                    &&& r is Ok
                    &&& final(self).spec_conversations() == old(self).spec_conversations().update(i,
                        after_invite(old(self).spec_conversations()[i], peer_identity@, now))
                }
            }),
    {
        let i = match self.find(conversation_id) {
            Some(i) => i,
            None => return Err(SwarmError::ConversationNotFound),
        };
        let ghost before = self.conversations@;
        let mut c = placeholder();
        self.conversations.set_and_swap(i, &mut c);
        let ghost cv = conv_view(c);
        assert(cv == old(self).spec_conversations()[i as int]);
        if !contains_text(&c.invited, peer_identity) {
            c.invited.push(peer_identity.to_string());
            c.updated_at = now;
            assert(text::texts(c.invited@) =~= cv.invited.push(peer_identity@));
        }
        assert(conv_view(c) =~~= after_invite(cv, peer_identity@, now));
        self.conversations.set_and_swap(i, &mut c);
        proof {
            let cs = self.conversations@;
            assert(self.spec_conversations() =~= old(self).spec_conversations().update(i as int, after_invite(cv, peer_identity@, now)));
        }
        Ok(())
    }

    /// Accept the invitation to conversation `conversation_id` at time
    /// `now` (see `after_accept`); refused for an unknown conversation.
    pub fn accept_invite(&mut self, conversation_id: &str, now: i64) -> (r: Result<(), SwarmError>)
        ensures
            final(self).spec_identity() == old(self).spec_identity(),
            ({
                let i = conv_pos(old(self).spec_conversations(), conversation_id@);
                if i < 0 {
                    &&& r == Err::<(), SwarmError>(SwarmError::ConversationNotFound)
                    &&& final(self).spec_conversations() == old(self).spec_conversations()
                } else {
                    &&& r is Ok
                    &&& final(self).spec_conversations() == old(self).spec_conversations().update(i,
                        after_accept(old(self).spec_conversations()[i], old(self).spec_identity(), now))
                }
            }),
    {
        let i = match self.find(conversation_id) {
            Some(i) => i,
            None => return Err(SwarmError::ConversationNotFound),
        };
        let ghost before = self.conversations@;
        let mut c = placeholder();
        self.conversations.set_and_swap(i, &mut c);
        let ghost cv = conv_view(c);
        assert(cv == old(self).spec_conversations()[i as int]);
        match position_of_text(&c.invited, self.identity.as_str()) {
            Some(pos) => {
                let ghost inv = c.invited@;
                let _gone = c.invited.remove(pos);
                c.members.push(text::copy_string(&self.identity));
                c.updated_at = now;
                assert(text::texts(c.invited@) =~= cv.invited.remove(pos as int));
                assert(text::texts(c.members@) =~= cv.members.push(self.identity@));
            },
            None => {},
        }
        assert(conv_view(c) =~~= after_accept(cv, self.identity@, now));
        self.conversations.set_and_swap(i, &mut c);
        proof {
            assert(self.spec_conversations() =~= old(self).spec_conversations().update(i as int, after_accept(cv, self.identity@, now)));
        }
        Ok(())
    }

    /// A copy of conversation `conversation_id`, if known.
    pub fn get_conversation(&self, conversation_id: &str) -> (r: Option<Conversation>)
        ensures
            ({
                let i = conv_pos(self.spec_conversations(), conversation_id@);
                if i < 0 { r is None } else { r matches Some(c) && conv_view(c) == self.spec_conversations()[i] }
            }),
    {
        match self.find(conversation_id) {
            Some(i) => Some(copy_conversation(&self.conversations[i])),
            None => None,
        }
    }

    /// Copies of all conversations.
    pub fn list_conversations(&self) -> (r: Vec<Conversation>)
        ensures
            r@.map_values(|c: Conversation| conv_view(c)) == self.spec_conversations(),
    {
        let mut r: Vec<Conversation> = Vec::new();
        let mut i: usize = 0;
        while i < self.conversations.len()
            invariant
                i <= self.conversations@.len(),
                r@.len() == i,
                forall|j: int| 0 <= j < i ==> conv_view(#[trigger] r@[j]) == conv_view(self.conversations@[j]),
            decreases self.conversations@.len() - i,
        {
            r.push(copy_conversation(&self.conversations[i]));
            i = i + 1;
        }
        assert(r@.map_values(|c: Conversation| conv_view(c)) =~= self.spec_conversations());
        r
    }
}

/// A blank one-to-one conversation: empty id and lists, times zero.
fn placeholder() -> (c: Conversation)
    ensures
        c.id@.len() == 0,
        c.mode == SwarmMode::OneToOne,
        c.admins@.len() == 0 && c.members@.len() == 0 && c.devices@.len() == 0,
        c.invited@.len() == 0 && c.banned@.len() == 0 && c.crls@.len() == 0,
        c.created_at == 0 && c.updated_at == 0,
{
    Conversation {
        id: String::new(), mode: SwarmMode::OneToOne, admins: Vec::new(), members: Vec::new(), devices: Vec::new(),
        invited: Vec::new(), banned: Vec::new(), crls: Vec::new(), created_at: 0, updated_at: 0,
    }
}

fn contains_text(v: &Vec<String>, s: &str) -> (r: bool)
    ensures
        r == text::texts(v@).contains(s@),
{
    let mut i: usize = 0;
    while i < v.len()
        invariant
            i <= v@.len(),
            forall|j: int| 0 <= j < i ==> v@[j]@ != s@,
        decreases v@.len() - i,
    {
        if primitives::str_eq(v[i].as_str(), s) {
            assert(text::texts(v@)[i as int] == s@);
            return true;
        }
        i = i + 1;
    }
    assert(!text::texts(v@).contains(s@)) by {
        if text::texts(v@).contains(s@) {
            let k = choose|k: int| 0 <= k < text::texts(v@).len() && text::texts(v@)[k] == s@;
            assert(v@[k]@ == s@);
        }
    }
    false
}

fn position_of_text(v: &Vec<String>, s: &str) -> (r: Option<usize>)
    ensures
        match r {
            Some(i) => text::texts(v@).index_of_first(s@) == Some(i as int) && i < v@.len(),
            None => text::texts(v@).index_of_first(s@) is None,
        },
{
    let ghost t = text::texts(v@);
    proof { t.index_of_first_ensures(s@); }
    let mut i: usize = 0;
    while i < v.len()
        invariant
            i <= v@.len(),
            t == text::texts(v@),
            t.len() == v@.len(),
            forall|j: int| 0 <= j < i ==> t[j] != s@,
        decreases v@.len() - i,
    {
        if primitives::str_eq(v[i].as_str(), s) {
            assert(t[i as int] == s@);
            assert(t.contains(s@));
            proof {
                t.index_of_first_ensures(s@);
                let k = t.index_of_first(s@)->0;
                assert(t[k] == s@);
                assert(k == i as int);
            }
            return Some(i);
        }
        i = i + 1;
    }
    None
}

} // verus!
