//! Multi-party calls as a full mesh: every two members of a conference are
//! joined by one call link.
use vstd::prelude::*;
use crate::primitives;
use crate::text;

verus! {

/// A conference participant.
#[derive(Debug)]
pub struct ConferenceMember {
    pub peer_onion: String,
    pub peer_id: String,
    pub audio_enabled: bool,
    pub video_enabled: bool,
    pub screen_sharing: bool,
    pub connected: bool,
}

/// The call that joins two members.
#[derive(Debug)]
pub struct MeshLink {
    pub peer_a: String,
    pub peer_b: String,
    pub call_id: String,
}

/// A conference: its host, members and mesh links.
#[derive(Debug)]
pub struct Conference {
    pub conference_id: String,
    pub host_onion: String,
    pub members: Vec<ConferenceMember>,
    pub mesh_links: Vec<MeshLink>,
    pub created_at: i64,
    pub updated_at: i64,
}

/// Why a conference operation was refused.
#[derive(Debug, Clone, Copy, PartialEq, Eq, Structural)]
pub enum ConferenceError {
    /// No conference has the given id.
    NotFound,
    /// The peer is already a member.
    AlreadyMember,
}

/// Members' onion addresses, in order.
pub open spec fn member_names(ms: Seq<ConferenceMember>) -> Seq<Seq<char>> {
    ms.map_values(|m: ConferenceMember| m.peer_onion@)
}

/// The pairs of addresses mesh links join, in order.
pub open spec fn link_pairs(ls: Seq<MeshLink>) -> Seq<(Seq<char>, Seq<char>)> {
    ls.map_values(|l: MeshLink| (l.peer_a@, l.peer_b@))
}

/// Whether some link joins `a` and `b`, in either direction.
pub open spec fn linked(pairs: Seq<(Seq<char>, Seq<char>)>, a: Seq<char>, b: Seq<char>) -> bool {
    pairs.contains((a, b)) || pairs.contains((b, a))
}

/// Every two distinct members are linked.
pub open spec fn full_mesh(names: Seq<Seq<char>>, pairs: Seq<(Seq<char>, Seq<char>)>) -> bool {
    forall|a: Seq<char>, b: Seq<char>| #![trigger names.contains(a), names.contains(b)]
        names.contains(a) && names.contains(b) && a != b ==> linked(pairs, a, b)
}

/// The links a newcomer `p` gets: one to each present member, in order.
pub open spec fn links_for(p: Seq<char>, names: Seq<Seq<char>>) -> Seq<(Seq<char>, Seq<char>)> {
    names.map_values(|m: Seq<char>| (p, m))
}

/// Joining a full mesh with links to every present member keeps it full.
pub proof fn lemma_join_keeps_mesh(names: Seq<Seq<char>>, pairs: Seq<(Seq<char>, Seq<char>)>, p: Seq<char>)
    requires
        full_mesh(names, pairs),
    ensures
        full_mesh(names.push(p), pairs + links_for(p, names)),
{
    let n2 = names.push(p);
    let p2 = pairs + links_for(p, names);
    assert forall|a: Seq<char>, b: Seq<char>| #![trigger n2.contains(a), n2.contains(b)]
        n2.contains(a) && n2.contains(b) && a != b implies linked(p2, a, b) by {
        let ia = choose|i: int| 0 <= i < n2.len() && n2[i] == a;
        let ib = choose|i: int| 0 <= i < n2.len() && n2[i] == b;
        if ia < names.len() && ib < names.len() {
            assert(names.contains(a) && names[ia] == a);
            assert(names.contains(b) && names[ib] == b);
            if pairs.contains((a, b)) {
                let k = choose|k: int| 0 <= k < pairs.len() && pairs[k] == (a, b);
                assert(p2[k] == (a, b));
            } else {
                let k = choose|k: int| 0 <= k < pairs.len() && pairs[k] == (b, a);
                assert(p2[k] == (b, a));
            }
        } else if ia == names.len() {
            assert(a == p);
            assert(ib < names.len());
            assert(p2[pairs.len() + ib] == (p, b));
        } else {
            assert(b == p);
            assert(p2[pairs.len() + ia] == (p, a));
        }
    }
}

/// Joining adds exactly one link per present member, so a conference of
/// `n` members that was built by joins from its host holds `n * (n - 1) / 2`
/// links: if the count held before a join, it holds after.
pub proof fn lemma_join_link_count(names: Seq<Seq<char>>, pairs: Seq<(Seq<char>, Seq<char>)>, p: Seq<char>)
    ensures
        (pairs + links_for(p, names)).len() == pairs.len() + names.len(),
        2 * pairs.len() == names.len() * (names.len() - 1)
            ==> 2 * (pairs + links_for(p, names)).len() == names.push(p).len() * (names.push(p).len() - 1),
{
    let n = names.len() as int;
    let k = pairs.len() as int;
    assert((pairs + links_for(p, names)).len() == k + n);
    assert(names.push(p).len() == n + 1);
    assert(2 * k == n * (n - 1) ==> 2 * (k + n) == (n + 1) * ((n + 1) - 1)) by (nonlinear_arith);
}

/// A member leaving with every link that involves it keeps a full mesh
/// full.
pub proof fn lemma_leave_keeps_mesh(names: Seq<Seq<char>>, pairs: Seq<(Seq<char>, Seq<char>)>, q: Seq<char>)
    requires
        full_mesh(names, pairs),
    ensures
        full_mesh(
            names.filter(|n: Seq<char>| n != q),
            pairs.filter(|l: (Seq<char>, Seq<char>)| l.0 != q && l.1 != q),
        ),
{
    let keep_n = |n: Seq<char>| n != q;
    let keep_l = |l: (Seq<char>, Seq<char>)| l.0 != q && l.1 != q;
    let n2 = names.filter(keep_n);
    let p2 = pairs.filter(keep_l);
    assert forall|a: Seq<char>, b: Seq<char>| #![trigger n2.contains(a), n2.contains(b)]
        n2.contains(a) && n2.contains(b) && a != b implies linked(p2, a, b) by {
        names.lemma_filter_contains_rev(keep_n, a);
        names.lemma_filter_contains_rev(keep_n, b);
        let ia = choose|i: int| 0 <= i < n2.len() && n2[i] == a;
        let ib = choose|i: int| 0 <= i < n2.len() && n2[i] == b;
        #[allow(deprecated)]
        names.filter_lemma(keep_n);
        assert(keep_n(n2[ia]) && keep_n(n2[ib]));
        #[allow(deprecated)]
        pairs.filter_lemma(keep_l);
        if pairs.contains((a, b)) {
            let k = choose|k: int| 0 <= k < pairs.len() && pairs[k] == (a, b);
            assert(keep_l(pairs[k]));
        } else {
            let k = choose|k: int| 0 <= k < pairs.len() && pairs[k] == (b, a);
            assert(keep_l(pairs[k]));
        }
    }
}


/// A member's values.
pub open spec fn member_view(m: ConferenceMember) -> (Seq<char>, Seq<char>, bool, bool, bool, bool) {
    (m.peer_onion@, m.peer_id@, m.audio_enabled, m.video_enabled, m.screen_sharing, m.connected)
}

/// A link's values.
pub open spec fn link_view(l: MeshLink) -> (Seq<char>, Seq<char>, Seq<char>) {
    (l.peer_a@, l.peer_b@, l.call_id@)
}

/// The members' values.
pub open spec fn members_view(ms: Seq<ConferenceMember>) -> Seq<(Seq<char>, Seq<char>, bool, bool, bool, bool)> {
    ms.map_values(|m: ConferenceMember| member_view(m))
}

/// Whether two conferences hold the same values.
pub open spec fn same_conference(a: Conference, b: Conference) -> bool {
    &&& a.conference_id@ == b.conference_id@
    &&& a.host_onion@ == b.host_onion@
    &&& members_view(a.members@) == members_view(b.members@)
    &&& a.mesh_links@.map_values(|l: MeshLink| link_view(l)) == b.mesh_links@.map_values(|l: MeshLink| link_view(l))
    &&& a.created_at == b.created_at
    &&& a.updated_at == b.updated_at
}

fn copy_member(m: &ConferenceMember) -> (r: ConferenceMember)
    ensures
        member_view(r) == member_view(*m),
{
    ConferenceMember {
        peer_onion: text::copy_string(&m.peer_onion),
        peer_id: text::copy_string(&m.peer_id),
        audio_enabled: m.audio_enabled,
        video_enabled: m.video_enabled,
        screen_sharing: m.screen_sharing,
        connected: m.connected,
    }
}

fn copy_link(l: &MeshLink) -> (r: MeshLink)
    ensures
        link_view(r) == link_view(*l),
{
    MeshLink { peer_a: text::copy_string(&l.peer_a), peer_b: text::copy_string(&l.peer_b), call_id: text::copy_string(&l.call_id) }
}

/// A copy of a conference.
pub fn copy_conference(c: &Conference) -> (r: Conference)
    ensures
        same_conference(r, *c),
{
    let mut members: Vec<ConferenceMember> = Vec::new();
    let mut i: usize = 0;
    while i < c.members.len()
        invariant
            i <= c.members@.len(),
            members_view(members@) == members_view(c.members@.take(i as int)),
        decreases c.members@.len() - i,
    {
        members.push(copy_member(&c.members[i]));
        assert(members_view(c.members@.take(i + 1)) =~= members_view(c.members@.take(i as int)).push(member_view(c.members@[i as int])));
        assert(members_view(members@) =~= members_view(c.members@.take(i + 1)));
        i = i + 1;
    }
    let mut links: Vec<MeshLink> = Vec::new();
    let mut j: usize = 0;
    while j < c.mesh_links.len()
        invariant
            j <= c.mesh_links@.len(),
            links@.map_values(|l: MeshLink| link_view(l)) == c.mesh_links@.take(j as int).map_values(|l: MeshLink| link_view(l)),
        decreases c.mesh_links@.len() - j,
    {
        links.push(copy_link(&c.mesh_links[j]));
        assert(c.mesh_links@.take(j + 1).map_values(|l: MeshLink| link_view(l)) =~= c.mesh_links@.take(j as int).map_values(|l: MeshLink| link_view(l)).push(link_view(c.mesh_links@[j as int])));
        assert(links@.map_values(|l: MeshLink| link_view(l)) =~= c.mesh_links@.take(j + 1).map_values(|l: MeshLink| link_view(l)));
        j = j + 1;
    }
    assert(c.members@.take(i as int) =~= c.members@);
    assert(c.mesh_links@.take(j as int) =~= c.mesh_links@);
    Conference {
        conference_id: text::copy_string(&c.conference_id),
        host_onion: text::copy_string(&c.host_onion),
        members,
        mesh_links: links,
        created_at: c.created_at,
        updated_at: c.updated_at,
    }
}

/// The first conference with id `id`, or -1.
pub open spec fn conf_pos(cs: Seq<Conference>, id: Seq<char>) -> int
    decreases cs.len(),
{
    if cs.len() == 0 {
        -1
    } else if cs.last().conference_id@ == id {
        let earlier = conf_pos(cs.drop_last(), id);
        if earlier >= 0 { earlier } else { cs.len() - 1 }
    } else {
        conf_pos(cs.drop_last(), id)
    }
}

pub proof fn lemma_conf_pos(cs: Seq<Conference>, id: Seq<char>)
    ensures
        -1 <= conf_pos(cs, id) < cs.len(),
        conf_pos(cs, id) >= 0 ==> cs[conf_pos(cs, id)].conference_id@ == id,
        conf_pos(cs, id) == -1 ==> forall|j: int| 0 <= j < cs.len() ==> cs[j].conference_id@ != id,
        conf_pos(cs, id) >= 0 ==> forall|j: int| 0 <= j < conf_pos(cs, id) ==> cs[j].conference_id@ != id,
    decreases cs.len(),
{
    if cs.len() > 0 {
        lemma_conf_pos(cs.drop_last(), id);
        assert forall|j: int| 0 <= j < cs.len() - 1 implies cs.drop_last()[j] == cs[j] by {}
    }
}

/// A blank conference: empty id, host and lists, times zero.
fn empty_conference() -> (c: Conference)
    ensures
        c.conference_id@.len() == 0 && c.host_onion@.len() == 0,
        c.members@.len() == 0 && c.mesh_links@.len() == 0,
        c.created_at == 0 && c.updated_at == 0,
{
    Conference { conference_id: String::new(), host_onion: String::new(), members: Vec::new(), mesh_links: Vec::new(), created_at: 0, updated_at: 0 }
}

/// The conferences this node takes part in.
pub struct ConferenceManager {
    conferences: Vec<Conference>,
}

impl ConferenceManager {
    /// The conferences, in the order they were first stored.
    pub closed spec fn spec_conferences(&self) -> Seq<Conference> {
        self.conferences@
    }

    /// A manager with no conferences.
    pub fn new() -> (r: Self)
        ensures
            r.spec_conferences() == Seq::<Conference>::empty(),
    {
        ConferenceManager { conferences: Vec::new() }
    }

    fn find(&self, id: &str) -> (r: Option<usize>)
        ensures
            match r {
                None => conf_pos(self.conferences@, id@) == -1,
                Some(i) => i == conf_pos(self.conferences@, id@) && i < self.conferences@.len(),
            },
    {
        proof { lemma_conf_pos(self.conferences@, id@); }
        let mut i: usize = 0;
        while i < self.conferences.len()
            invariant
                i <= self.conferences@.len(),
                forall|j: int| 0 <= j < i ==> self.conferences@[j].conference_id@ != id@,
                -1 <= conf_pos(self.conferences@, id@) < self.conferences@.len(),
                conf_pos(self.conferences@, id@) >= 0 ==> self.conferences@[conf_pos(self.conferences@, id@)].conference_id@ == id@,
                conf_pos(self.conferences@, id@) >= 0 ==> forall|j: int| 0 <= j < conf_pos(self.conferences@, id@) ==> self.conferences@[j].conference_id@ != id@,
                conf_pos(self.conferences@, id@) == -1 ==> forall|j: int| 0 <= j < self.conferences@.len() ==> self.conferences@[j].conference_id@ != id@,
            decreases self.conferences@.len() - i,
        {
            if primitives::str_eq(self.conferences[i].conference_id.as_str(), id) {
                return Some(i);
            }
            i = i + 1;
        }
        None
    }

    /// Start a conference hosted by `host_onion` at time `now`, under a
    /// fresh random id. The host is its only member (connected, audio on,
    /// video and screen sharing off) and there are no links yet.
    pub fn create_conference(&mut self, host_onion: String, now: i64) -> (r: Result<Conference, ConferenceError>)
        ensures
            r matches Ok(c) && {
                &&& c.host_onion@ == host_onion@
                &&& c.members@.len() == 1
                &&& c.members@[0].peer_onion@ == host_onion@
                &&& c.members@[0].audio_enabled && !c.members@[0].video_enabled
                &&& !c.members@[0].screen_sharing && c.members@[0].connected
                &&& c.mesh_links@.len() == 0
                &&& c.created_at == now && c.updated_at == now
                &&& ({
                    let i = conf_pos(old(self).spec_conferences(), c.conference_id@);
                    &&& final(self).spec_conferences().len() == (if i >= 0 { old(self).spec_conferences().len() as int } else { old(self).spec_conferences().len() + 1int })
                    &&& same_conference(final(self).spec_conferences()[if i >= 0 { i } else { old(self).spec_conferences().len() as int }], c)
                    &&& forall|j: int| 0 <= j < old(self).spec_conferences().len() && j != i
                        ==> final(self).spec_conferences()[j] == old(self).spec_conferences()[j]
                })
            },
    {
        let conference_id = primitives::uuid_v4();
        let mut members: Vec<ConferenceMember> = Vec::new();
        members.push(ConferenceMember {
            peer_onion: text::copy_string(&host_onion),
            peer_id: primitives::uuid_v4(),
            audio_enabled: true,
            video_enabled: false,
            screen_sharing: false,
            connected: true,
        });
        let conference = Conference { conference_id, host_onion, members, mesh_links: Vec::new(), created_at: now, updated_at: now };
        let out = copy_conference(&conference);
        proof {
            assert(members_view(out.members@).len() == out.members@.len());
            assert(members_view(conference.members@).len() == conference.members@.len());
            assert(members_view(out.members@)[0] == member_view(out.members@[0]));
            assert(members_view(conference.members@)[0] == member_view(conference.members@[0]));
            assert(out.mesh_links@.map_values(|l: MeshLink| link_view(l)).len() == out.mesh_links@.len());
        }
        proof { lemma_conf_pos(self.conferences@, conference.conference_id@); }
        match self.find(conference.conference_id.as_str()) {
            Some(i) => {
                let mut c = conference;
                self.conferences.set_and_swap(i, &mut c);
            },
            None => {
                self.conferences.push(conference);
            },
        }
        Ok(out)
    }
}


/// Where member `peer` sits among `ms`, if anywhere.
fn member_index(ms: &Vec<ConferenceMember>, peer: &str) -> (r: Option<usize>)
    ensures
        match r {
            Some(k) => k < ms@.len() && ms@[k as int].peer_onion@ == peer@
                && forall|j: int| 0 <= j < k ==> (#[trigger] ms@[j]).peer_onion@ != peer@,
            None => forall|j: int| 0 <= j < ms@.len() ==> (#[trigger] ms@[j]).peer_onion@ != peer@,
        },
        r is None <==> !member_names(ms@).contains(peer@),
{
    let mut k: usize = 0;
    while k < ms.len()
        invariant
            k <= ms@.len(),
            forall|j: int| 0 <= j < k ==> (#[trigger] ms@[j]).peer_onion@ != peer@,
        decreases ms@.len() - k,
    {
        if primitives::str_eq(ms[k].peer_onion.as_str(), peer) {
            assert(member_names(ms@)[k as int] == peer@);
            return Some(k);
        }
        k = k + 1;
    }
    proof {
        if member_names(ms@).contains(peer@) {
            let j = choose|j: int| 0 <= j < member_names(ms@).len() && member_names(ms@)[j] == peer@;
            assert(ms@[j].peer_onion@ == peer@);
        }
    }
    None
}

/// Which member setting to change.
#[derive(Debug, Clone, Copy, PartialEq, Eq, Structural)]
pub enum MemberSetting {
    Audio,
    Video,
    ScreenShare,
}

/// A member's values after `setting` is set to `enabled`.
pub open spec fn with_setting(v: (Seq<char>, Seq<char>, bool, bool, bool, bool), setting: MemberSetting, enabled: bool) -> (Seq<char>, Seq<char>, bool, bool, bool, bool) {
    match setting {
        MemberSetting::Audio => (v.0, v.1, enabled, v.3, v.4, v.5),
        MemberSetting::Video => (v.0, v.1, v.2, enabled, v.4, v.5),
        MemberSetting::ScreenShare => (v.0, v.1, v.2, v.3, enabled, v.5),
    }
}

impl ConferenceManager {
    /// Add `peer_onion` to conference `conference_id` at time `now`, not yet
    /// connected, with audio on and video and screen sharing off, and a new
    /// link (under a fresh random call id) from it to each present member.
    /// Refused when the conference is unknown or the peer is already a
    /// member. Returns a copy of the updated conference.
    pub fn join_conference(&mut self, conference_id: &str, peer_onion: String, peer_id: String, now: i64) -> (r: Result<Conference, ConferenceError>)
        ensures
            ({
                let cs = old(self).spec_conferences();
                let i = conf_pos(cs, conference_id@);
                if i < 0 {
                    r == Err::<Conference, ConferenceError>(ConferenceError::NotFound) && final(self).spec_conferences() == cs
                } else if member_names(cs[i].members@).contains(peer_onion@) {
                    r == Err::<Conference, ConferenceError>(ConferenceError::AlreadyMember) && final(self).spec_conferences() == cs
                } else {
                    let c = cs[i];
                    let d = final(self).spec_conferences()[i];
                    &&& final(self).spec_conferences().len() == cs.len()
                    &&& forall|j: int| 0 <= j < cs.len() && j != i ==> final(self).spec_conferences()[j] == cs[j]
                    &&& d.conference_id == c.conference_id
                    &&& d.host_onion == c.host_onion
                    &&& d.created_at == c.created_at
                    &&& d.updated_at == now
                    &&& members_view(d.members@) == members_view(c.members@).push((peer_onion@, peer_id@, true, false, false, false))
                    &&& member_names(d.members@) == member_names(c.members@).push(peer_onion@)
                    &&& link_pairs(d.mesh_links@) == link_pairs(c.mesh_links@) + links_for(peer_onion@, member_names(c.members@))
                    &&& r matches Ok(x) && same_conference(x, d)
                }
            }),
    {
        let i = match self.find(conference_id) {
            None => return Err(ConferenceError::NotFound),
            Some(i) => i,
        };
        if member_index(&self.conferences[i].members, peer_onion.as_str()).is_some() {
            return Err(ConferenceError::AlreadyMember);
        }
        let mut c = empty_conference();
        self.conferences.set_and_swap(i, &mut c);
        let ghost c0 = c;
        let ghost names = member_names(c0.members@);
        let mut k: usize = 0;
        while k < c.members.len()
            invariant
                k <= c.members@.len(),
                c.members@ == c0.members@,
                names == member_names(c0.members@),
                c.conference_id == c0.conference_id,
                c.host_onion == c0.host_onion,
                c.created_at == c0.created_at,
                c.updated_at == c0.updated_at,
                link_pairs(c.mesh_links@) == link_pairs(c0.mesh_links@) + links_for(peer_onion@, names.take(k as int)),
            decreases c.members@.len() - k,
        {
            let link = MeshLink {
                peer_a: text::copy_string(&peer_onion),
                peer_b: text::copy_string(&c.members[k].peer_onion),
                call_id: primitives::uuid_v4(),
            };
            let ghost before = c.mesh_links@;
            c.mesh_links.push(link);
            proof {
                assert(names.take(k + 1) =~= names.take(k as int).push(names[k as int]));
                assert(links_for(peer_onion@, names.take(k + 1)) =~= links_for(peer_onion@, names.take(k as int)).push((peer_onion@, names[k as int])));
                assert(link_pairs(before.push(link)) =~= link_pairs(before).push((peer_onion@, names[k as int])));
                assert(link_pairs(c.mesh_links@) =~= link_pairs(c0.mesh_links@) + links_for(peer_onion@, names.take(k + 1)));
            }
            k = k + 1;
        }
        assert(names.take(k as int) =~= names);
        let ghost members_before = c.members@;
        c.members.push(ConferenceMember {
            peer_onion,
            peer_id,
            audio_enabled: true,
            video_enabled: false,
            screen_sharing: false,
            connected: false,
        });
        c.updated_at = now;
        proof {
            assert(members_view(c.members@) =~= members_view(members_before).push(member_view(c.members@[c.members@.len() - 1])));
            assert(member_names(c.members@) =~= member_names(members_before).push(c.members@[c.members@.len() - 1].peer_onion@));
        }
        let out = copy_conference(&c);
        self.conferences.set_and_swap(i, &mut c);
        Ok(out)
    }

    /// Remove `peer_onion` from conference `conference_id` at time `now`,
    /// with every link that involves it; a conference left without members
    /// is dropped. Refused when the conference is unknown.
    pub fn leave_conference(&mut self, conference_id: &str, peer_onion: &str, now: i64) -> (r: Result<(), ConferenceError>)
        ensures
            ({
                let cs = old(self).spec_conferences();
                let i = conf_pos(cs, conference_id@);
                let p = peer_onion@;
                if i < 0 {
                    r == Err::<(), ConferenceError>(ConferenceError::NotFound) && final(self).spec_conferences() == cs
                } else {
                    let c = cs[i];
                    let names = member_names(c.members@).filter(|n: Seq<char>| n != p);
                    &&& r is Ok
                    &&& if names.len() == 0 {
                        final(self).spec_conferences() == cs.remove(i)
                    } else {
                        let d = final(self).spec_conferences()[i];
                        &&& final(self).spec_conferences().len() == cs.len()
                        &&& forall|j: int| 0 <= j < cs.len() && j != i ==> final(self).spec_conferences()[j] == cs[j]
                        &&& d.conference_id == c.conference_id
                        &&& d.host_onion == c.host_onion
                        &&& d.created_at == c.created_at
                        &&& d.updated_at == now
                        &&& member_names(d.members@) == names
                        &&& members_view(d.members@) == members_view(c.members@).filter(
                            |v: (Seq<char>, Seq<char>, bool, bool, bool, bool)| v.0 != p)
                        &&& link_pairs(d.mesh_links@) == link_pairs(c.mesh_links@).filter(
                            |l: (Seq<char>, Seq<char>)| l.0 != p && l.1 != p)
                        &&& d.mesh_links@.map_values(|l: MeshLink| link_view(l)) == c.mesh_links@.map_values(|l: MeshLink| link_view(l)).filter(
                            |v: (Seq<char>, Seq<char>, Seq<char>)| v.0 != p && v.1 != p)
                    }
                }
            }),
    {
        let i = match self.find(conference_id) {
            None => return Err(ConferenceError::NotFound),
            Some(i) => i,
        };
        let mut c = empty_conference();
        self.conferences.set_and_swap(i, &mut c);
        let ghost c0 = c;
        let ghost p = peer_onion@;
        let ghost pn = |n: Seq<char>| n != p;
        let ghost pv = |v: (Seq<char>, Seq<char>, bool, bool, bool, bool)| v.0 != p;
        let ghost pl = |l: (Seq<char>, Seq<char>)| l.0 != p && l.1 != p;
        let ghost plv = |v: (Seq<char>, Seq<char>, Seq<char>)| v.0 != p && v.1 != p;
        let ghost mn = member_names(c0.members@);
        let ghost mv = members_view(c0.members@);
        let ghost lp = link_pairs(c0.mesh_links@);
        let ghost lv = c0.mesh_links@.map_values(|l: MeshLink| link_view(l));
        proof {
            reveal(Seq::filter);
        }
        let mut members: Vec<ConferenceMember> = Vec::new();
        let mut k: usize = 0;
        assert(mn.take(0) =~= Seq::<Seq<char>>::empty());
        assert(mv.take(0) =~= Seq::<(Seq<char>, Seq<char>, bool, bool, bool, bool)>::empty());
        assert(member_names(members@) =~= Seq::<Seq<char>>::empty());
        assert(members_view(members@) =~= Seq::<(Seq<char>, Seq<char>, bool, bool, bool, bool)>::empty());
        while k < c.members.len()
            invariant
                k <= c.members@.len(),
                c.members@ == c0.members@,
                p == peer_onion@,
                pn == |n: Seq<char>| n != p,
                pv == |v: (Seq<char>, Seq<char>, bool, bool, bool, bool)| v.0 != p,
                mn == member_names(c0.members@),
                mv == members_view(c0.members@),
                member_names(members@) == mn.take(k as int).filter(pn),
                members_view(members@) == mv.take(k as int).filter(pv),
            decreases c.members@.len() - k,
        {
            proof {
                assert(mn.take(k + 1) =~= mn.take(k as int).push(mn[k as int]));
                assert(mv.take(k + 1) =~= mv.take(k as int).push(mv[k as int]));
                mn.take(k as int).lemma_filter_push(mn[k as int], pn);
                mv.take(k as int).lemma_filter_push(mv[k as int], pv);
            }
            if !primitives::str_eq(c.members[k].peer_onion.as_str(), peer_onion) {
                let m = copy_member(&c.members[k]);
                let ghost before = members@;
                members.push(m);
                assert(member_names(members@) =~= member_names(before).push(m.peer_onion@));
                assert(members_view(members@) =~= members_view(before).push(member_view(m)));
            }
            k = k + 1;
        }
        assert(mn.take(k as int) =~= mn);
        assert(mv.take(k as int) =~= mv);
        let mut links: Vec<MeshLink> = Vec::new();
        let mut q: usize = 0;
        assert(lp.take(0) =~= Seq::<(Seq<char>, Seq<char>)>::empty());
        assert(lv.take(0) =~= Seq::<(Seq<char>, Seq<char>, Seq<char>)>::empty());
        assert(link_pairs(links@) =~= Seq::<(Seq<char>, Seq<char>)>::empty());
        assert(links@.map_values(|l: MeshLink| link_view(l)) =~= Seq::<(Seq<char>, Seq<char>, Seq<char>)>::empty());
        while q < c.mesh_links.len()
            invariant
                q <= c.mesh_links@.len(),
                c.mesh_links@ == c0.mesh_links@,
                p == peer_onion@,
                pl == |l: (Seq<char>, Seq<char>)| l.0 != p && l.1 != p,
                plv == |v: (Seq<char>, Seq<char>, Seq<char>)| v.0 != p && v.1 != p,
                lp == link_pairs(c0.mesh_links@),
                lv == c0.mesh_links@.map_values(|l: MeshLink| link_view(l)),
                link_pairs(links@) == lp.take(q as int).filter(pl),
                links@.map_values(|l: MeshLink| link_view(l)) == lv.take(q as int).filter(plv),
            decreases c.mesh_links@.len() - q,
        {
            proof {
                assert(lp.take(q + 1) =~= lp.take(q as int).push(lp[q as int]));
                assert(lv.take(q + 1) =~= lv.take(q as int).push(lv[q as int]));
                lp.take(q as int).lemma_filter_push(lp[q as int], pl);
                lv.take(q as int).lemma_filter_push(lv[q as int], plv);
            }
            let l = &c.mesh_links[q];
            if !primitives::str_eq(l.peer_a.as_str(), peer_onion) && !primitives::str_eq(l.peer_b.as_str(), peer_onion) {
                let n = copy_link(l);
                let ghost before = links@;
                links.push(n);
                assert(link_pairs(links@) =~= link_pairs(before).push((n.peer_a@, n.peer_b@)));
                assert(links@.map_values(|l: MeshLink| link_view(l)) =~= before.map_values(|l: MeshLink| link_view(l)).push(link_view(n)));
            }
            q = q + 1;
        }
        assert(lp.take(q as int) =~= lp);
        assert(lv.take(q as int) =~= lv);
        let empty = members.len() == 0;
        c.members = members;
        c.mesh_links = links;
        c.updated_at = now;
        self.conferences.set_and_swap(i, &mut c);
        if empty {
            self.conferences.remove(i);
            assert(self.conferences@ =~= old(self).conferences@.remove(i as int));
        }
        Ok(())
    }

    /// Change one setting of member `peer_onion` of conference
    /// `conference_id` at time `now`; nothing changes when either is
    /// unknown.
    pub fn set_member_setting(&mut self, conference_id: &str, peer_onion: &str, setting: MemberSetting, enabled: bool, now: i64) -> (r: Result<(), ConferenceError>)
        ensures
            r is Ok,
            ({
                let cs = old(self).spec_conferences();
                let i = conf_pos(cs, conference_id@);
                if i < 0 || !member_names(cs[i].members@).contains(peer_onion@) {
                    final(self).spec_conferences() == cs
                } else {
                    let c = cs[i];
                    let d = final(self).spec_conferences()[i];
                    &&& final(self).spec_conferences().len() == cs.len()
                    &&& forall|j: int| 0 <= j < cs.len() && j != i ==> final(self).spec_conferences()[j] == cs[j]
                    &&& d == Conference { members: d.members, updated_at: now, ..c }
                    &&& d.members@.len() == c.members@.len()
                    &&& exists|k: int| 0 <= k < c.members@.len() && (#[trigger] c.members@[k]).peer_onion@ == peer_onion@
                        && (forall|j: int| 0 <= j < k ==> (#[trigger] c.members@[j]).peer_onion@ != peer_onion@)
                        && member_view(d.members@[k]) == with_setting(member_view(c.members@[k]), setting, enabled)
                        && d.members@[k].peer_onion@ == c.members@[k].peer_onion@
                        && d.members@[k].peer_id@ == c.members@[k].peer_id@
                        && d.members@[k].audio_enabled == (if setting == MemberSetting::Audio { enabled } else { c.members@[k].audio_enabled })
                        && d.members@[k].video_enabled == (if setting == MemberSetting::Video { enabled } else { c.members@[k].video_enabled })
                        && d.members@[k].screen_sharing == (if setting == MemberSetting::ScreenShare { enabled } else { c.members@[k].screen_sharing })
                        && d.members@[k].connected == c.members@[k].connected
                        && (forall|j: int| 0 <= j < c.members@.len() && j != k ==> d.members@[j] == c.members@[j])
                }
            }),
    {
        let i = match self.find(conference_id) {
            None => return Ok(()),
            Some(i) => i,
        };
        let k = match member_index(&self.conferences[i].members, peer_onion) {
            None => return Ok(()),
            Some(k) => k,
        };
        let mut c = empty_conference();
        self.conferences.set_and_swap(i, &mut c);
        let mut m = ConferenceMember {
            peer_onion: String::new(), peer_id: String::new(), audio_enabled: false, video_enabled: false,
            screen_sharing: false, connected: false,
        };
        c.members.set_and_swap(k, &mut m);
        match setting {
            MemberSetting::Audio => { m.audio_enabled = enabled; },
            MemberSetting::Video => { m.video_enabled = enabled; },
            MemberSetting::ScreenShare => { m.screen_sharing = enabled; },
        }
        c.members.set_and_swap(k, &mut m);
        c.updated_at = now;
        self.conferences.set_and_swap(i, &mut c);
        Ok(())
    }

    /// Turn member audio on or off.
    pub fn set_member_audio(&mut self, conference_id: &str, peer_onion: &str, enabled: bool, now: i64) -> (r: Result<(), ConferenceError>)
        ensures
            r is Ok,
            ({
                let cs = old(self).spec_conferences();
                let i = conf_pos(cs, conference_id@);
                if i < 0 || !member_names(cs[i].members@).contains(peer_onion@) {
                    final(self).spec_conferences() == cs
                } else {
                    let c = cs[i];
                    let d = final(self).spec_conferences()[i];
                    &&& final(self).spec_conferences().len() == cs.len()
                    &&& forall|j: int| 0 <= j < cs.len() && j != i ==> final(self).spec_conferences()[j] == cs[j]
                    &&& d == Conference { members: d.members, updated_at: now, ..c }
                    &&& exists|k: int| 0 <= k < c.members@.len() && (#[trigger] c.members@[k]).peer_onion@ == peer_onion@
                        && member_view(d.members@[k]) == with_setting(member_view(c.members@[k]), MemberSetting::Audio, enabled)
                        && d.members@[k].peer_onion@ == c.members@[k].peer_onion@
                        && d.members@[k].peer_id@ == c.members@[k].peer_id@
                        && d.members@[k].audio_enabled == enabled
                        && d.members@[k].video_enabled == c.members@[k].video_enabled
                        && d.members@[k].screen_sharing == c.members@[k].screen_sharing
                        && d.members@[k].connected == c.members@[k].connected
                        && (forall|j: int| 0 <= j < c.members@.len() && j != k ==> d.members@[j] == c.members@[j])
                        && d.members@.len() == c.members@.len()
                }
            }),
    {
        self.set_member_setting(conference_id, peer_onion, MemberSetting::Audio, enabled, now)
    }

    /// Turn member video on or off.
    pub fn set_member_video(&mut self, conference_id: &str, peer_onion: &str, enabled: bool, now: i64) -> (r: Result<(), ConferenceError>)
        ensures
            r is Ok,
            ({
                let cs = old(self).spec_conferences();
                let i = conf_pos(cs, conference_id@);
                if i < 0 || !member_names(cs[i].members@).contains(peer_onion@) {
                    final(self).spec_conferences() == cs
                } else {
                    let c = cs[i];
                    let d = final(self).spec_conferences()[i];
                    &&& final(self).spec_conferences().len() == cs.len()
                    &&& forall|j: int| 0 <= j < cs.len() && j != i ==> final(self).spec_conferences()[j] == cs[j]
                    &&& d == Conference { members: d.members, updated_at: now, ..c }
                    &&& exists|k: int| 0 <= k < c.members@.len() && (#[trigger] c.members@[k]).peer_onion@ == peer_onion@
                        && member_view(d.members@[k]) == with_setting(member_view(c.members@[k]), MemberSetting::Video, enabled)
                        && d.members@[k].peer_onion@ == c.members@[k].peer_onion@
                        && d.members@[k].peer_id@ == c.members@[k].peer_id@
                        && d.members@[k].audio_enabled == c.members@[k].audio_enabled
                        && d.members@[k].video_enabled == enabled
                        && d.members@[k].screen_sharing == c.members@[k].screen_sharing
                        && d.members@[k].connected == c.members@[k].connected
                        && (forall|j: int| 0 <= j < c.members@.len() && j != k ==> d.members@[j] == c.members@[j])
                        && d.members@.len() == c.members@.len()
                }
            }),
    {
        self.set_member_setting(conference_id, peer_onion, MemberSetting::Video, enabled, now)
    }

    /// Turn member screen sharing on or off.
    pub fn set_member_screen_share(&mut self, conference_id: &str, peer_onion: &str, enabled: bool, now: i64) -> (r: Result<(), ConferenceError>)
        ensures
            r is Ok,
            ({
                let cs = old(self).spec_conferences();
                let i = conf_pos(cs, conference_id@);
                if i < 0 || !member_names(cs[i].members@).contains(peer_onion@) {
                    final(self).spec_conferences() == cs
                } else {
                    let c = cs[i];
                    let d = final(self).spec_conferences()[i];
                    &&& final(self).spec_conferences().len() == cs.len()
                    &&& forall|j: int| 0 <= j < cs.len() && j != i ==> final(self).spec_conferences()[j] == cs[j]
                    &&& d == Conference { members: d.members, updated_at: now, ..c }
                    &&& exists|k: int| 0 <= k < c.members@.len() && (#[trigger] c.members@[k]).peer_onion@ == peer_onion@
                        && member_view(d.members@[k]) == with_setting(member_view(c.members@[k]), MemberSetting::ScreenShare, enabled)
                        && d.members@[k].peer_onion@ == c.members@[k].peer_onion@
                        && d.members@[k].peer_id@ == c.members@[k].peer_id@
                        && d.members@[k].audio_enabled == c.members@[k].audio_enabled
                        && d.members@[k].video_enabled == c.members@[k].video_enabled
                        && d.members@[k].screen_sharing == enabled
                        && d.members@[k].connected == c.members@[k].connected
                        && (forall|j: int| 0 <= j < c.members@.len() && j != k ==> d.members@[j] == c.members@[j])
                        && d.members@.len() == c.members@.len()
                }
            }),
    {
        self.set_member_setting(conference_id, peer_onion, MemberSetting::ScreenShare, enabled, now)
    }

    /// The call ids of the links of conference `conference_id` that involve
    /// `peer_onion`, in order (none when the conference is unknown).
    pub fn get_peer_call_ids(&self, conference_id: &str, peer_onion: &str) -> (r: Vec<String>)
        ensures
            ({
                let cs = self.spec_conferences();
                let i = conf_pos(cs, conference_id@);
                let p = peer_onion@;
                if i < 0 {
                    r@.len() == 0
                } else {
                    text::texts(r@) == cs[i].mesh_links@.map_values(|l: MeshLink| link_view(l))
                        .filter(|v: (Seq<char>, Seq<char>, Seq<char>)| v.0 == p || v.1 == p)
                        .map_values(|v: (Seq<char>, Seq<char>, Seq<char>)| v.2)
                }
            }),
    {
        let i = match self.find(conference_id) {
            None => return Vec::new(),
            Some(i) => i,
        };
        let links = &self.conferences[i].mesh_links;
        let ghost p = peer_onion@;
        let ghost pred = |v: (Seq<char>, Seq<char>, Seq<char>)| v.0 == p || v.1 == p;
        let ghost f = |v: (Seq<char>, Seq<char>, Seq<char>)| v.2;
        let ghost lv = links@.map_values(|l: MeshLink| link_view(l));
        proof {
            reveal(Seq::filter);
        }
        let mut r: Vec<String> = Vec::new();
        let mut q: usize = 0;
        assert(lv.take(0) =~= Seq::<(Seq<char>, Seq<char>, Seq<char>)>::empty());
        assert(text::texts(r@) =~= Seq::<Seq<char>>::empty());
        assert(lv.take(0).filter(pred).map_values(f) =~= Seq::<Seq<char>>::empty());
        while q < links.len()
            invariant
                q <= links@.len(),
                p == peer_onion@,
                pred == |v: (Seq<char>, Seq<char>, Seq<char>)| v.0 == p || v.1 == p,
                f == |v: (Seq<char>, Seq<char>, Seq<char>)| v.2,
                lv == links@.map_values(|l: MeshLink| link_view(l)),
                text::texts(r@) == lv.take(q as int).filter(pred).map_values(f),
            decreases links@.len() - q,
        {
            proof {
                assert(lv.take(q + 1) =~= lv.take(q as int).push(lv[q as int]));
                lv.take(q as int).lemma_filter_push(lv[q as int], pred);
            }
            let l = &links[q];
            if primitives::str_eq(l.peer_a.as_str(), peer_onion) || primitives::str_eq(l.peer_b.as_str(), peer_onion) {
                let id = text::copy_string(&l.call_id);
                let ghost before = r@;
                r.push(id);
                assert(lv.take(q as int).filter(pred).push(lv[q as int]).map_values(f) =~= lv.take(q as int).filter(pred).map_values(f).push(l.call_id@));
                assert(text::texts(r@) =~= text::texts(before).push(id@));
            }
            q = q + 1;
        }
        assert(lv.take(q as int) =~= lv);
        r
    }

    /// A copy of conference `conference_id`, if there is one.
    pub fn get_conference(&self, conference_id: &str) -> (r: Option<Conference>)
        ensures
            ({
                let i = conf_pos(self.spec_conferences(), conference_id@);
                if i < 0 { r is None } else { r matches Some(c) && same_conference(c, self.spec_conferences()[i]) }
            }),
    {
        match self.find(conference_id) {
            None => None,
            Some(i) => Some(copy_conference(&self.conferences[i])),
        }
    }

    /// Copies of all conferences.
    pub fn list_conferences(&self) -> (r: Vec<Conference>)
        ensures
            r@.len() == self.spec_conferences().len(),
            forall|j: int| 0 <= j < r@.len() ==> same_conference(#[trigger] r@[j], self.spec_conferences()[j]),
    {
        let mut r: Vec<Conference> = Vec::new();
        let mut i: usize = 0;
        while i < self.conferences.len()
            invariant
                i <= self.conferences@.len(),
                r@.len() == i,
                forall|j: int| 0 <= j < i ==> same_conference(#[trigger] r@[j], self.conferences@[j]),
            decreases self.conferences@.len() - i,
        {
            r.push(copy_conference(&self.conferences[i]));
            i = i + 1;
        }
        r
    }
}

} // verus!
