# vchat

The core of a peer-to-peer encrypted messenger, written in Verus: every
function in `src/` carries a contract that Verus proves.

## Layout

- `src/` — the verified library.
  - `bytes`, `text`, `base32`: byte and string codecs.
  - `primitives`: the trusted wrappers around the cryptographic and parsing
    crates (SHA-2/3, HMAC, AES, HKDF, X25519, Ed25519, AES-GCM, hex, base64,
    URL and JSON parsing, QR rendering, UUIDs, clocks, randomness); each
    states what the crate's documentation promises.
  - `crypto`: message keys and envelopes, Ed25519/X25519 key pairs, X3DH and
    the double ratchet, sessions with associated data, Noise XX sessions,
    post-quantum-sized hybrid key exchange and signatures, contact QR codes.
  - `messaging`: the signed wire protocol and its framing, what sending and
    receiving a message decide.
  - `webrtc`: SRTP/SRTCP, the media pipeline, STUN/ICE framing, chunking and
    reassembly of frames, call bookkeeping, mesh conferences.
  - `dht`, `drt`: Kademlia routing, storage and lookups; the dynamic routing
    table.
  - `signaling`, `file_transfer`, `identity`, `swarm`, `settings`, `tor`,
    `ice`, `commands`, `error`: call signaling, file transfers, device
    identity, conversation membership, stored settings, Tor client state,
    the ICE agent (its servers, candidates and check order), the
    user-interface records and error texts.
  - `transport`: an SRTP session bound to the stream it protects.
- `tests/` — tests run against the compiled library.
- `app/` — the runtime around the library: serde encodings (bincode,
  JSON), files, UDP sockets (DHT, STUN and ICE checks) and clocks.

Laws of the library (round trips of every codec, agreement of key
exchanges, delivery through the double ratchet, reassembly of split
frames, mesh invariants of conferences, and others) are public proof
functions named `lemma_*`.
