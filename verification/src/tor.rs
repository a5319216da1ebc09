//! Tor v3 onion addresses derived from ed25519 public keys, and the state
//! of the local Tor client: its address, listening port and circuit.
use vstd::prelude::*;
use vstd::string::StringExecFns;
use crate::base32;
use crate::bytes;
use crate::primitives;

verus! {

/// ASCII codes of ".onion checksum".
pub open spec fn checksum_label() -> Seq<u8> {
    seq![46u8, 111u8, 110u8, 105u8, 111u8, 110u8, 32u8, 99u8, 104u8, 101u8, 99u8, 107u8, 115u8, 117u8, 109u8]
}

/// ASCII codes of ".onion".
pub open spec fn onion_suffix() -> Seq<u8> {
    seq![46u8, 111u8, 110u8, 105u8, 111u8, 110u8]
}

/// The lower-case form of an ASCII code.
pub open spec fn lower(c: u8) -> u8 {
    if 65 <= c <= 90 { (c + 32) as u8 } else { c }
}

/// The 35 bytes a v3 onion address encodes: the key, the first two bytes
/// of `SHA3-256(".onion checksum" || pubkey || 0x03)`, and the version 3.
pub open spec fn onion_data(pubkey: Seq<u8>) -> Seq<u8> {
    pubkey + primitives::sha3_256_digest(checksum_label() + pubkey + seq![3u8]).subrange(0, 2) + seq![3u8]
}

/// The v3 onion address of `pubkey` as ASCII codes: the lower-case base32
/// text of its onion data followed by ".onion".
pub open spec fn spec_v3_onion(pubkey: Seq<u8>) -> Seq<u8> {
    base32::spec_encode_base32(onion_data(pubkey)).map_values(|c: u8| lower(c)) + onion_suffix()
}

fn push_ascii(v: &mut Vec<u8>, s: &[u8])
    ensures
        final(v)@ == old(v)@ + s@,
{
    bytes::push_all(v, s);
}

/// The v3 onion address (with ".onion") of an ed25519 public key.
pub fn pubkey_to_v3_onion(pubkey_bytes: &[u8; 32]) -> (s: String)
    ensures
        s@ == primitives::ascii_chars(spec_v3_onion(pubkey_bytes@)),
{
    let mut checksum_input: Vec<u8> = Vec::new();
    let label: [u8; 15] = [46, 111, 110, 105, 111, 110, 32, 99, 104, 101, 99, 107, 115, 117, 109];
    assert(label@ =~= checksum_label());
    push_ascii(&mut checksum_input, &label);
    bytes::push_all(&mut checksum_input, pubkey_bytes);
    checksum_input.push(3u8);
    assert(checksum_input@ =~= checksum_label() + pubkey_bytes@ + seq![3u8]);
    let checksum = primitives::sha3_256(checksum_input.as_slice());
    let mut onion_data_v: Vec<u8> = Vec::with_capacity(35);
    bytes::push_all(&mut onion_data_v, pubkey_bytes);
    onion_data_v.push(checksum[0]);
    onion_data_v.push(checksum[1]);
    onion_data_v.push(3u8);
    assert(onion_data_v@ =~= onion_data(pubkey_bytes@));
    let encoded = base32::encode_base32_bytes(onion_data_v.as_slice());
    proof { base32::lemma_encoding_is_ascii(onion_data_v@); }
    let mut out: Vec<u8> = Vec::with_capacity(encoded.len() + 6);
    let mut i: usize = 0;
    while i < encoded.len()
        invariant
            i <= encoded@.len(),
            encoded@ == base32::spec_encode_base32(onion_data(pubkey_bytes@)),
            out@ =~= encoded@.take(i as int).map_values(|c: u8| lower(c)),
        decreases encoded@.len() - i,
    {
        let c = encoded[i];
        let l = if 65 <= c && c <= 90 { c + 32 } else { c };
        out.push(l);
        i = i + 1;
    }
    assert(encoded@.take(i as int) =~= encoded@);
    let suffix: [u8; 6] = [46, 111, 110, 105, 111, 110];
    assert(suffix@ =~= onion_suffix());
    push_ascii(&mut out, &suffix);
    assert(out@ =~= spec_v3_onion(pubkey_bytes@));
    assert forall|j: int| 0 <= j < out@.len() implies out@[j] < 128 by {
        if j < encoded@.len() {
            assert(out@[j] == lower(encoded@[j]));
        }
    }
    primitives::ascii_string(out)
}

/// Whether `onion` is the onion address of `pubkey`.
pub fn verify_onion_matches_pubkey(onion: &str, pubkey: &[u8; 32]) -> (r: bool)
    ensures
        r == (onion@ == primitives::ascii_chars(spec_v3_onion(pubkey@))),
{
    let expected = pubkey_to_v3_onion(pubkey);
    primitives::str_eq(expected.as_str(), onion)
}

/// The onion address and Ed25519 public key of an Ed25519 secret key.
pub fn derive_onion_from_keypair(ed25519_secret: &[u8; 32]) -> (r: (String, [u8; 32]))
    ensures
        r.1@ == primitives::ed25519_public_key(ed25519_secret@),
        r.0@ == primitives::ascii_chars(spec_v3_onion(r.1@)),
{
    let pubkey = primitives::ed25519_public(ed25519_secret);
    let onion = pubkey_to_v3_onion(&pubkey);
    (onion, pubkey)
}

/// The local Tor client's state. Times are whole seconds of a monotonic
/// clock.
pub struct TorState {
    pub onion_address: Option<String>,
    pub is_ready: bool,
    pub local_port: Option<u16>,
    pub circuit_id: Option<String>,
    pub circuit_started: Option<u64>,
    pub circuit_hop_count: u8,
}

/// What is known of the current circuit.
#[derive(Debug)]
pub struct CircuitInfo {
    pub circuit_id: String,
    pub hop_count: u8,
    pub uptime_secs: u64,
    pub exit_node: String,
}

/// Whether a circuit id has the form "circuit-" followed by an identifier.
pub open spec fn is_circuit_id(id: Seq<char>) -> bool {
    id.len() >= 8 && id.take(8) == "circuit-"@
}

impl Default for TorState {
    fn default() -> (r: Self)
        ensures
            r.onion_address is None && !r.is_ready && r.local_port is None && r.circuit_id is None
                && r.circuit_started is None && r.circuit_hop_count == 0,
    {
        TorState::new()
    }
}

impl TorState {
    /// A client that is not started: nothing known, not ready.
    pub fn new() -> (r: Self)
        ensures
            r.onion_address is None && !r.is_ready && r.local_port is None && r.circuit_id is None
                && r.circuit_started is None && r.circuit_hop_count == 0,
    {
        TorState {
            onion_address: None,
            is_ready: false,
            local_port: None,
            circuit_id: None,
            circuit_started: None,
            circuit_hop_count: 0,
        }
    }

    fn new_circuit_id() -> (r: String)
        ensures
            is_circuit_id(r@),
    {
        let r = String::from_str("circuit-").concat(primitives::uuid_v4().as_str());
        proof { reveal_strlit("circuit-"); }
        assert(r@.take(8) =~= "circuit-"@);
        r
    }

    /// Record a bootstrapped client at time `now`: its onion address and
    /// local port, ready, on a fresh three-hop circuit.
    pub fn mark_ready(&mut self, onion: String, local_port: u16, now: u64)
        ensures
            final(self).onion_address == Some(onion),
            final(self).local_port == Some(local_port),
            final(self).is_ready,
            final(self).circuit_id matches Some(c) && is_circuit_id(c@),
            final(self).circuit_started == Some(now),
            final(self).circuit_hop_count == 3,
    {
        self.onion_address = Some(onion);
        self.local_port = Some(local_port);
        self.is_ready = true;
        self.circuit_id = Some(TorState::new_circuit_id());
        self.circuit_started = Some(now);
        self.circuit_hop_count = 3;
    }

    /// The onion address; refused before the client is started.
    pub fn get_onion_address(&self) -> (r: Result<String, &'static str>)
        ensures
            match self.onion_address {
                Some(a) => r matches Ok(s) && s@ == a@,
                None => r == Err::<String, &'static str>("Tor not initialized"),
            },
    {
        match &self.onion_address {
            Some(a) => Ok(a.clone()),
            None => Err("Tor not initialized"),
        }
    }

    /// Whether the client is ready.
    pub fn is_tor_ready(&self) -> (r: bool)
        ensures
            r == self.is_ready,
    {
        self.is_ready
    }

    /// The local listening port, if known.
    pub fn get_local_port(&self) -> (r: Option<u16>)
        ensures
            r == self.local_port,
    {
        self.local_port
    }

    /// The current circuit at time `now`: refused without a circuit, then
    /// when the client is not ready. The uptime counts from the circuit's
    /// start (zero if unknown or in the future).
    pub fn get_tor_circuit_info(&self, now: u64) -> (r: Result<CircuitInfo, &'static str>)
        ensures
            match self.circuit_id {
                None => r == Err::<CircuitInfo, &'static str>("Tor not initialized"),
                Some(c) => if !self.is_ready {
                    r == Err::<CircuitInfo, &'static str>("Arti Tor client not ready")
                } else {
                    r matches Ok(info) && info.circuit_id@ == c@ && info.hop_count == self.circuit_hop_count
                        && info.uptime_secs == (match self.circuit_started {
                            Some(t) => if now >= t { (now - t) as u64 } else { 0 },
                            None => 0,
                        })
                        && info.exit_node@ == "(embedded arti)"@
                },
            },
    {
        let circuit_id = match &self.circuit_id {
            Some(c) => c.clone(),
            None => return Err("Tor not initialized"),
        };
        let uptime_secs: u64 = match self.circuit_started {
            Some(t) => if now >= t { now - t } else { 0 },
            None => 0,
        };
        if !self.is_ready {
            return Err("Arti Tor client not ready");
        }
        Ok(CircuitInfo {
            circuit_id,
            hop_count: self.circuit_hop_count,
            uptime_secs,
            exit_node: String::from_str("(embedded arti)"),
        })
    }

    /// Start a fresh three-hop circuit at time `now`; refused when the
    /// client is not ready.
    pub fn refresh_circuit(&mut self, now: u64) -> (r: Result<(), &'static str>)
        ensures
            !old(self).is_ready ==> r == Err::<(), &'static str>("Arti Tor client not ready. Cannot refresh circuit.")
                && *final(self) == *old(self),
            old(self).is_ready ==> r is Ok
                && (final(self).circuit_id matches Some(c) && is_circuit_id(c@))
                && final(self).circuit_started == Some(now)
                && final(self).circuit_hop_count == 3
                && final(self).onion_address == old(self).onion_address
                && final(self).local_port == old(self).local_port
                && final(self).is_ready,
    {
        if !self.is_ready {
            return Err("Arti Tor client not ready. Cannot refresh circuit.");
        }
        self.circuit_id = Some(TorState::new_circuit_id());
        self.circuit_started = Some(now);
        self.circuit_hop_count = 3;
        Ok(())
    }
}

} // verus!
