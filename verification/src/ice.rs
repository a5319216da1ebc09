//! The ICE agent: which STUN and TURN servers it uses, the candidates it
//! gathers and offers, and the order in which it checks candidate pairs.
use vstd::prelude::*;
use vstd::string::{StringExecFns, StrSliceExecFns};
use crate::primitives;
use crate::settings::{decimal, format_u64};

verus! {

/// A TURN relay and its credentials.
#[derive(Debug, Clone)]
pub struct TurnServer {
    pub url: String,
    pub username: String,
    pub credential: String,
}

/// The servers an ICE agent gathers candidates from, and whether it runs
/// as ICE-lite (host candidates only).
#[derive(Debug, Clone)]
pub struct IceConfig {
    pub stun_servers: Vec<String>,
    pub turn_servers: Vec<TurnServer>,
    pub ice_lite: bool,
}

impl Default for IceConfig {
    /// Three public STUN servers, no TURN relay, full ICE.
    fn default() -> (r: Self)
        ensures
            r.stun_servers@.len() == 3,
            r.stun_servers@[0]@ == "stun:stun.l.google.com:19302"@,
            r.stun_servers@[1]@ == "stun:stun1.l.google.com:19302"@,
            r.stun_servers@[2]@ == "stun:stun2.l.google.com:19302"@,
            r.turn_servers@.len() == 0,
            !r.ice_lite,
    {
        let mut stun_servers: Vec<String> = Vec::new();
        stun_servers.push(String::from_str("stun:stun.l.google.com:19302"));
        stun_servers.push(String::from_str("stun:stun1.l.google.com:19302"));
        stun_servers.push(String::from_str("stun:stun2.l.google.com:19302"));
        IceConfig { stun_servers, turn_servers: Vec::new(), ice_lite: false }
    }
}

/// The decimal text of `n`.
pub open spec fn dec(n: nat) -> Seq<char> {
    primitives::ascii_chars(decimal(n))
}

/// An ICE candidate. The agent reads its addresses only to write them out,
/// so they are held in their textual form.
#[derive(Debug)]
pub struct IceCandidate {
    pub foundation: String,
    pub component_id: u16,
    /// `udp` or `tcp`.
    pub protocol: String,
    pub priority: u32,
    pub address: String,
    pub port: u16,
    /// `host`, `srflx` or `relay`.
    pub candidate_type: String,
    pub related_address: Option<String>,
    pub related_port: Option<u16>,
}

/// The `typ` written for a candidate type: `srflx` and `relay` as they are,
/// anything else as `host`.
pub open spec fn sdp_type(t: Seq<char>) -> Seq<char> {
    if t == "srflx"@ || t == "relay"@ {
        t
    } else {
        "host"@
    }
}

/// The SDP attribute line of a candidate:
/// `a=candidate:<foundation> <component> <protocol> <priority> <address> <port> typ <type>`,
/// then ` raddr <address>` and ` rport <port>` where they are known.
pub open spec fn spec_to_sdp(c: IceCandidate) -> Seq<char> {
    "a=candidate:"@ + c.foundation@ + " "@ + dec(c.component_id as nat) + " "@ + c.protocol@ + " "@
        + dec(c.priority as nat) + " "@ + c.address@ + " "@ + dec(c.port as nat) + " typ "@
        + sdp_type(c.candidate_type@)
        + (match c.related_address {
            Some(a) => " raddr "@ + a@,
            None => Seq::empty(),
        })
        + (match c.related_port {
            Some(p) => " rport "@ + dec(p as nat),
            None => Seq::empty(),
        })
}

/// Priority of a host candidate: type preference 126, local preference 0,
/// component 1.
pub const HOST_PRIORITY: u32 = 2_130_706_431;

/// Priority of a server-reflexive candidate: type preference 100.
pub const SRFLX_PRIORITY: u32 = 1_694_498_815;

impl IceCandidate {
    /// A candidate equal to this one.
    pub fn copy(&self) -> (r: Self)
        ensures
            r == *self,
    {
        IceCandidate {
            foundation: self.foundation.clone(),
            component_id: self.component_id,
            protocol: self.protocol.clone(),
            priority: self.priority,
            address: self.address.clone(),
            port: self.port,
            candidate_type: self.candidate_type.clone(),
            related_address: match &self.related_address {
                Some(a) => Some(a.clone()),
                None => None,
            },
            related_port: self.related_port,
        }
    }

    /// The candidate as an SDP attribute line (see `spec_to_sdp`).
    pub fn to_sdp(&self) -> (r: String)
        ensures
            r@ == spec_to_sdp(*self),
    {
        proof {
            reveal_strlit("host");
            reveal_strlit("srflx");
            reveal_strlit("relay");
        }
        let typ: &str = if primitives::str_eq(self.candidate_type.as_str(), "srflx") {
            "srflx"
        } else if primitives::str_eq(self.candidate_type.as_str(), "relay") {
            "relay"
        } else {
            "host"
        };
        assert(typ@ == sdp_type(self.candidate_type@));
        let component = format_u64(self.component_id as u64);
        let priority = format_u64(self.priority as u64);
        let port = format_u64(self.port as u64);
        let mut line = String::from_str("a=candidate:").concat(self.foundation.as_str()).concat(" ")
            .concat(component.as_str()).concat(" ").concat(self.protocol.as_str()).concat(" ")
            .concat(priority.as_str()).concat(" ").concat(self.address.as_str()).concat(" ")
            .concat(port.as_str()).concat(" typ ").concat(typ);
        let ghost head = line@;
        match &self.related_address {
            Some(a) => {
                line = line.concat(" raddr ").concat(a.as_str());
            },
            None => {
                assert(line@ =~= head + Seq::<char>::empty());
            },
        }
        let ghost mid = line@;
        match self.related_port {
            Some(p) => {
                let rp = format_u64(p as u64);
                line = line.concat(" rport ").concat(rp.as_str());
            },
            None => {
                assert(line@ =~= mid + Seq::<char>::empty());
            },
        }
        line
    }
}

/// The host candidate of the `index`-th local interface, whose address
/// reads `address`: foundation `host-<index>`, component 1, UDP, port 0
/// until a socket is bound.
pub fn host_candidate(index: usize, address: String) -> (r: IceCandidate)
    ensures
        r.foundation@ == "host-"@ + dec(index as nat),
        r.component_id == 1,
        r.protocol@ == "udp"@,
        r.priority == HOST_PRIORITY,
        r.address@ == address@,
        r.port == 0,
        r.candidate_type@ == "host"@,
        r.related_address is None,
        r.related_port is None,
{
    let n = format_u64(index as u64);
    IceCandidate {
        foundation: String::from_str("host-").concat(n.as_str()),
        component_id: 1,
        protocol: String::from_str("udp"),
        priority: HOST_PRIORITY,
        address,
        port: 0,
        candidate_type: String::from_str("host"),
        related_address: None,
        related_port: None,
    }
}

/// The server-reflexive candidate for the mapped address a STUN server
/// reported (`address`, `port`); `tag` names it: foundation `srflx-<tag>`.
pub fn srflx_candidate(tag: u32, address: String, port: u16) -> (r: IceCandidate)
    ensures
        r.foundation@ == "srflx-"@ + dec(tag as nat),
        r.component_id == 1,
        r.protocol@ == "udp"@,
        r.priority == SRFLX_PRIORITY,
        r.address@ == address@,
        r.port == port,
        r.candidate_type@ == "srflx"@,
        r.related_address is None,
        r.related_port is None,
{
    let n = format_u64(tag as u64);
    IceCandidate {
        foundation: String::from_str("srflx-").concat(n.as_str()),
        component_id: 1,
        protocol: String::from_str("udp"),
        priority: SRFLX_PRIORITY,
        address,
        port,
        candidate_type: String::from_str("srflx"),
        related_address: None,
        related_port: None,
    }
}

/// The `host:port` part of a STUN server URL: the text after a leading
/// `stun:`, or the whole URL when it has none.
pub open spec fn spec_stun_target(url: Seq<char>) -> Seq<char> {
    if 5 <= url.len() && url.subrange(0, 5) == "stun:"@ {
        url.subrange(5, url.len() as int)
    } else {
        url
    }
}

/// The `host:port` part of a STUN server URL (see `spec_stun_target`).
pub fn stun_target(url: &str) -> (r: &str)
    ensures
        r@ == spec_stun_target(url@),
{
    proof {
        reveal_strlit("stun:");
    }
    if primitives::str_starts_with(url, "stun:") {
        let n = url.unicode_len();
        url.substring_char(5, n)
    } else {
        url
    }
}

/// The priority with which a local candidate of priority `local` is checked
/// against a remote one of priority `remote`: the controlling side's
/// candidate priority (ours when `controlling`) in the upper 32 bits, the
/// other's in the lower ones, with the tie-breaker shifted left by one
/// OR-ed in.
pub open spec fn spec_pair_priority(controlling: bool, tie_breaker: u64, local: u32, remote: u32) -> u64 {
    let g: u32 = if controlling { local } else { remote };
    let d: u32 = if controlling { remote } else { local };
    ((g as u64) << 32u64) | (d as u64) | (tie_breaker << 1u64)
}

/// The check priority of a candidate pair (see `spec_pair_priority`).
pub fn pair_priority(controlling: bool, tie_breaker: u64, local: u32, remote: u32) -> (r: u64)
    ensures
        r == spec_pair_priority(controlling, tie_breaker, local, remote),
{
    let g: u32 = if controlling { local } else { remote };
    let d: u32 = if controlling { remote } else { local };
    ((g as u64) << 32u64) | (d as u64) | (tie_breaker << 1u64)
}

/// A local and a remote candidate, by their positions in the agent's
/// lists, and the priority with which they are checked.
#[derive(Debug, Clone, Copy, PartialEq, Eq, Structural)]
pub struct CandidatePair {
    pub priority: u64,
    pub local: usize,
    pub remote: usize,
}

/// Whether position (`l1`, `r1`) comes before (`l2`, `r2`) when the local
/// list is walked in the outer loop and the remote one in the inner.
pub open spec fn walk_before(l1: int, r1: int, l2: int, r2: int) -> bool {
    l1 < l2 || (l1 == l2 && r1 < r2)
}

/// Whether local candidate `l` and remote candidate `m` exist and use the
/// same transport protocol.
pub open spec fn pairable(local: Seq<IceCandidate>, remote: Seq<IceCandidate>, l: int, m: int) -> bool {
    0 <= l < local.len() && 0 <= m < remote.len() && local[l].protocol@ == remote[m].protocol@
}

/// Check order: higher priority first, and among equal priorities the
/// order in which the pairs were formed.
pub open spec fn pair_before(a: CandidatePair, b: CandidatePair) -> bool {
    a.priority > b.priority || (a.priority == b.priority && walk_before(a.local as int, a.remote as int, b.local as int, b.remote as int))
}

/// Every pair in `r` is a pairable one with its check priority.
pub open spec fn pairs_sound(r: Seq<CandidatePair>, local: Seq<IceCandidate>, remote: Seq<IceCandidate>, controlling: bool, tie_breaker: u64) -> bool {
    forall|i: int| 0 <= i < r.len() ==> {
        &&& pairable(local, remote, (#[trigger] r[i]).local as int, r[i].remote as int)
        &&& r[i].priority == spec_pair_priority(controlling, tie_breaker, local[r[i].local as int].priority, remote[r[i].remote as int].priority)
    }
}

/// `r` is in check order.
pub open spec fn pairs_ordered(r: Seq<CandidatePair>) -> bool {
    forall|i: int, j: int| 0 <= i < j < r.len() ==> pair_before(#[trigger] r[i], #[trigger] r[j])
}

/// Every pairable (`l`, `m`) formed before (`bl`, `bm`) is in `r`.
pub open spec fn pairs_cover(r: Seq<CandidatePair>, local: Seq<IceCandidate>, remote: Seq<IceCandidate>, bl: int, bm: int) -> bool {
    forall|l: int, m: int| #[trigger] pairable(local, remote, l, m) && walk_before(l, m, bl, bm)
        ==> exists|i: int| 0 <= i < r.len() && (#[trigger] r[i]).local == l && r[i].remote == m
}

/// Every pair in `r` was formed before (`bl`, `bm`).
pub open spec fn pairs_below(r: Seq<CandidatePair>, bl: int, bm: int) -> bool {
    forall|i: int| 0 <= i < r.len() ==> walk_before((#[trigger] r[i]).local as int, r[i].remote as int, bl, bm)
}

/// Inserting pair `p`, formed after every pair of `r`, after the pairs of
/// priority at least its own keeps `r` in check order.
proof fn lemma_insert_ordered(r: Seq<CandidatePair>, j: int, p: CandidatePair)
    requires
        pairs_ordered(r),
        pairs_below(r, p.local as int, p.remote as int),
        0 <= j <= r.len(),
        forall|k: int| 0 <= k < j ==> (#[trigger] r[k]).priority >= p.priority,
        j < r.len() ==> r[j].priority < p.priority,
    ensures
        pairs_ordered(r.insert(j, p)),
{
    let n = r.insert(j, p);
    assert forall|a: int, b: int| 0 <= a < b < n.len() implies pair_before(#[trigger] n[a], #[trigger] n[b]) by {
        if b < j {
            assert(n[a] == r[a] && n[b] == r[b]);
        } else if b == j {
            assert(n[a] == r[a]);
            assert(r[a].priority >= p.priority);
            assert(walk_before(r[a].local as int, r[a].remote as int, p.local as int, p.remote as int));
        } else if a < j {
            assert(n[a] == r[a] && n[b] == r[b - 1]);
        } else if a == j {
            assert(n[b] == r[b - 1]);
            if b - 1 > j {
                assert(pair_before(r[j], r[b - 1]));
            }
        } else {
            assert(n[a] == r[a - 1] && n[b] == r[b - 1]);
        }
    }
}

/// The candidate pairs to check, in check order: every local candidate
/// with every remote one of the same protocol, once each, by decreasing
/// priority, pairs of equal priority in the order they were formed
/// (local list outer, remote list inner).
pub fn ordered_pairs(local: &Vec<IceCandidate>, remote: &Vec<IceCandidate>, controlling: bool, tie_breaker: u64) -> (r: Vec<CandidatePair>)
    ensures
        pairs_sound(r@, local@, remote@, controlling, tie_breaker),
        pairs_ordered(r@),
        forall|l: int, m: int| #[trigger] pairable(local@, remote@, l, m)
            ==> exists|i: int| 0 <= i < r@.len() && (#[trigger] r@[i]).local == l && r@[i].remote == m,
{
    let mut r: Vec<CandidatePair> = Vec::new();
    let mut l: usize = 0;
    while l < local.len()
        invariant
            l <= local@.len(),
            pairs_sound(r@, local@, remote@, controlling, tie_breaker),
            pairs_ordered(r@),
            pairs_below(r@, l as int, 0),
            pairs_cover(r@, local@, remote@, l as int, 0),
        decreases local@.len() - l,
    {
        let mut m: usize = 0;
        while m < remote.len()
            invariant
                l < local@.len(),
                m <= remote@.len(),
                pairs_sound(r@, local@, remote@, controlling, tie_breaker),
                pairs_ordered(r@),
                pairs_below(r@, l as int, m as int),
                pairs_cover(r@, local@, remote@, l as int, m as int),
            decreases remote@.len() - m,
        {
            let ghost old_r = r@;
            if primitives::str_eq(local[l].protocol.as_str(), remote[m].protocol.as_str()) {
                let p = CandidatePair { priority: pair_priority(controlling, tie_breaker, local[l].priority, remote[m].priority), local: l, remote: m };
                let mut j: usize = 0;
                while j < r.len() && r[j].priority >= p.priority
                    invariant
                        j <= r@.len(),
                        forall|k: int| 0 <= k < j ==> (#[trigger] r@[k]).priority >= p.priority,
                    decreases r@.len() - j,
                {
                    j = j + 1;
                }
                proof { lemma_insert_ordered(r@, j as int, p); }
                r.insert(j, p);
                proof {
                    let n = r@;
                    assert(n == old_r.insert(j as int, p));
                    assert forall|i: int| 0 <= i < n.len() implies {
                        &&& pairable(local@, remote@, (#[trigger] n[i]).local as int, n[i].remote as int)
                        &&& n[i].priority == spec_pair_priority(controlling, tie_breaker, local@[n[i].local as int].priority, remote@[n[i].remote as int].priority)
                    } by {
                        if i < j { assert(n[i] == old_r[i]); } else if i > j { assert(n[i] == old_r[i - 1]); }
                    }
                    assert forall|i: int| 0 <= i < n.len() implies walk_before((#[trigger] n[i]).local as int, n[i].remote as int, l as int, m + 1) by {
                        if i < j { assert(n[i] == old_r[i]); } else if i > j { assert(n[i] == old_r[i - 1]); }
                    }
                    assert forall|l2: int, m2: int| #[trigger] pairable(local@, remote@, l2, m2) && walk_before(l2, m2, l as int, m + 1)
                        implies exists|i: int| 0 <= i < n.len() && (#[trigger] n[i]).local == l2 && n[i].remote == m2 by {
                        if l2 == l && m2 == m {
                            assert(n[j as int].local == l2 && n[j as int].remote == m2);
                        } else {
                            assert(walk_before(l2, m2, l as int, m as int));
                            let i = choose|i: int| 0 <= i < old_r.len() && (#[trigger] old_r[i]).local == l2 && old_r[i].remote == m2;
                            if i < j {
                                assert(n[i] == old_r[i]);
                            } else {
                                assert(n[i + 1] == old_r[i]);
                            }
                        }
                    }
                }
            } else {
                proof {
                    assert forall|i: int| 0 <= i < r@.len() implies walk_before((#[trigger] r@[i]).local as int, r@[i].remote as int, l as int, m + 1) by {
                        assert(walk_before(r@[i].local as int, r@[i].remote as int, l as int, m as int));
                    }
                    assert forall|l2: int, m2: int| #[trigger] pairable(local@, remote@, l2, m2) && walk_before(l2, m2, l as int, m + 1)
                        implies exists|i: int| 0 <= i < r@.len() && (#[trigger] r@[i]).local == l2 && r@[i].remote == m2 by {
                        assert(walk_before(l2, m2, l as int, m as int));
                    }
                }
            }
            m = m + 1;
        }
        proof {
            assert forall|i: int| 0 <= i < r@.len() implies walk_before((#[trigger] r@[i]).local as int, r@[i].remote as int, l + 1, 0) by {
                assert(walk_before(r@[i].local as int, r@[i].remote as int, l as int, m as int));
            }
            assert forall|l2: int, m2: int| #[trigger] pairable(local@, remote@, l2, m2) && walk_before(l2, m2, l + 1, 0)
                implies exists|i: int| 0 <= i < r@.len() && (#[trigger] r@[i]).local == l2 && r@[i].remote == m2 by {
                assert(walk_before(l2, m2, l as int, m as int));
            }
        }
        l = l + 1;
    }
    proof {
        assert forall|l2: int, m2: int| #[trigger] pairable(local@, remote@, l2, m2)
            implies exists|i: int| 0 <= i < r@.len() && (#[trigger] r@[i]).local == l2 && r@[i].remote == m2 by {
            assert(walk_before(l2, m2, l as int, 0));
        }
    }
    r
}

/// Why the agent could not settle on a candidate pair.
#[derive(Debug, Clone, Copy, PartialEq, Eq, Structural)]
pub enum IceError {
    /// One of the candidate lists is empty.
    NoCandidates,
    /// No pair passed its connectivity check.
    NoWorkingPair,
}

impl IceError {
    /// The error's text.
    pub fn message(&self) -> (r: &'static str)
        ensures
            r@ == (match *self {
                IceError::NoCandidates => "No candidates available"@,
                IceError::NoWorkingPair => "No working candidate pair found"@,
            }),
    {
        proof {
            reveal_strlit("No candidates available");
            reveal_strlit("No working candidate pair found");
        }
        match self {
            IceError::NoCandidates => "No candidates available",
            IceError::NoWorkingPair => "No working candidate pair found",
        }
    }
}

/// Copies of the candidates `v`.
fn copy_candidates(v: &Vec<IceCandidate>) -> (r: Vec<IceCandidate>)
    ensures
        r@ == v@,
{
    let mut r: Vec<IceCandidate> = Vec::new();
    let mut i: usize = 0;
    while i < v.len()
        invariant
            i <= v@.len(),
            r@ == v@.take(i as int),
        decreases v@.len() - i,
    {
        r.push(v[i].copy());
        i = i + 1;
        assert(r@ =~= v@.take(i as int));
    }
    assert(v@.take(v@.len() as int) =~= v@);
    r
}

/// The ICE agent's state: its servers, the candidates on both sides, its
/// role and tie-breaker, and the pair it settled on.
pub struct IceAgent {
    config: IceConfig,
    local_candidates: Vec<IceCandidate>,
    remote_candidates: Vec<IceCandidate>,
    selected_pair: Option<(IceCandidate, IceCandidate)>,
    controlling: bool,
    tie_breaker: u64,
}

impl IceAgent {
    pub closed spec fn spec_config(&self) -> IceConfig {
        self.config
    }

    pub closed spec fn spec_local(&self) -> Seq<IceCandidate> {
        self.local_candidates@
    }

    pub closed spec fn spec_remote(&self) -> Seq<IceCandidate> {
        self.remote_candidates@
    }

    pub closed spec fn spec_selected(&self) -> Option<(IceCandidate, IceCandidate)> {
        self.selected_pair
    }

    pub closed spec fn spec_controlling(&self) -> bool {
        self.controlling
    }

    pub closed spec fn spec_tie_breaker(&self) -> u64 {
        self.tie_breaker
    }

    /// An agent with the given tie-breaker and no candidates yet.
    pub fn with_tie_breaker(config: IceConfig, controlling: bool, tie_breaker: u64) -> (r: Self)
        ensures
            r.spec_config() == config,
            r.spec_controlling() == controlling,
            r.spec_tie_breaker() == tie_breaker,
            r.spec_local().len() == 0,
            r.spec_remote().len() == 0,
            r.spec_selected() is None,
    {
        IceAgent {
            config,
            local_candidates: Vec::new(),
            remote_candidates: Vec::new(),
            selected_pair: None,
            controlling,
            tie_breaker,
        }
    }

    /// An agent with a random tie-breaker and no candidates yet.
    pub fn new(config: IceConfig, controlling: bool) -> (r: Self)
        ensures
            r.spec_config() == config,
            r.spec_controlling() == controlling,
            r.spec_local().len() == 0,
            r.spec_remote().len() == 0,
            r.spec_selected() is None,
    {
        let tie_breaker = primitives::random_u64();
        Self::with_tie_breaker(config, controlling, tie_breaker)
    }

    /// Whether gathering asks the STUN servers for server-reflexive
    /// candidates: not for an ICE-lite agent.
    pub fn wants_srflx(&self) -> (r: bool)
        ensures
            r == !self.spec_config().ice_lite,
    {
        !self.config.ice_lite
    }

    /// Record the gathered candidates: the host candidates, then the
    /// server-reflexive ones unless the agent is ICE-lite (relay candidates
    /// are never gathered). Returns the recorded list.
    pub fn finish_gathering(&mut self, host: Vec<IceCandidate>, srflx: Vec<IceCandidate>) -> (r: Vec<IceCandidate>)
        ensures
            final(self).spec_local() == (if old(self).spec_config().ice_lite { host@ } else { host@ + srflx@ }),
            r@ == final(self).spec_local(),
            final(self).spec_remote() == old(self).spec_remote(),
            final(self).spec_selected() == old(self).spec_selected(),
            final(self).spec_config() == old(self).spec_config(),
            final(self).spec_controlling() == old(self).spec_controlling(),
            final(self).spec_tie_breaker() == old(self).spec_tie_breaker(),
    {
        let mut all = host;
        if !self.config.ice_lite {
            let mut more = srflx;
            all.append(&mut more);
        }
        let out = copy_candidates(&all);
        self.local_candidates = all;
        out
    }

    /// Replace the remote candidates.
    pub fn add_remote_candidates(&mut self, candidates: Vec<IceCandidate>)
        ensures
            final(self).spec_remote() == candidates@,
            final(self).spec_local() == old(self).spec_local(),
            final(self).spec_selected() == old(self).spec_selected(),
            final(self).spec_config() == old(self).spec_config(),
            final(self).spec_controlling() == old(self).spec_controlling(),
            final(self).spec_tie_breaker() == old(self).spec_tie_breaker(),
    {
        self.remote_candidates = candidates;
    }

    /// The pairs to check, in check order (see `ordered_pairs`);
    /// `NoCandidates` when either side has none.
    pub fn checklist(&self) -> (r: Result<Vec<CandidatePair>, IceError>)
        ensures
            self.spec_local().len() == 0 || self.spec_remote().len() == 0 ==> r == Err::<Vec<CandidatePair>, IceError>(IceError::NoCandidates),
            self.spec_local().len() > 0 && self.spec_remote().len() > 0 ==> (r matches Ok(ps) && {
                &&& pairs_sound(ps@, self.spec_local(), self.spec_remote(), self.spec_controlling(), self.spec_tie_breaker())
                &&& pairs_ordered(ps@)
                &&& forall|l: int, m: int| #[trigger] pairable(self.spec_local(), self.spec_remote(), l, m)
                    ==> exists|i: int| 0 <= i < ps@.len() && (#[trigger] ps@[i]).local == l && ps@[i].remote == m
            }),
    {
        if self.local_candidates.len() == 0 || self.remote_candidates.len() == 0 {
            return Err(IceError::NoCandidates);
        }
        Ok(ordered_pairs(&self.local_candidates, &self.remote_candidates, self.controlling, self.tie_breaker))
    }

    /// Settle on a pair whose connectivity check passed.
    pub fn select_pair(&mut self, pair: CandidatePair)
        requires
            pair.local < old(self).spec_local().len(),
            pair.remote < old(self).spec_remote().len(),
        ensures
            final(self).spec_selected() == Some((old(self).spec_local()[pair.local as int], old(self).spec_remote()[pair.remote as int])),
            final(self).spec_local() == old(self).spec_local(),
            final(self).spec_remote() == old(self).spec_remote(),
            final(self).spec_config() == old(self).spec_config(),
            final(self).spec_controlling() == old(self).spec_controlling(),
            final(self).spec_tie_breaker() == old(self).spec_tie_breaker(),
    {
        let l = self.local_candidates[pair.local].copy();
        let r = self.remote_candidates[pair.remote].copy();
        self.selected_pair = Some((l, r));
    }

    /// The local candidates.
    pub fn get_local_candidates(&self) -> (r: Vec<IceCandidate>)
        ensures
            r@ == self.spec_local(),
    {
        copy_candidates(&self.local_candidates)
    }

    /// The remote candidates.
    pub fn get_remote_candidates(&self) -> (r: Vec<IceCandidate>)
        ensures
            r@ == self.spec_remote(),
    {
        copy_candidates(&self.remote_candidates)
    }

    /// The pair the agent settled on, if any.
    pub fn get_selected_pair(&self) -> (r: Option<(IceCandidate, IceCandidate)>)
        ensures
            r == self.spec_selected(),
    {
        match &self.selected_pair {
            Some((l, r)) => Some((l.copy(), r.copy())),
            None => None,
        }
    }
}

} // verus!
