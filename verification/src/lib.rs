//! Verified core of a peer-to-peer encrypted messenger: byte codecs, the
//! SRTP media path, ICE/STUN framing, Kademlia routing, the double ratchet
//! and the signed wire protocol.
pub mod bytes;
pub mod text;
pub mod primitives;
pub mod base32;
pub mod webrtc;
pub mod tor;
pub mod commands;
pub mod crypto;
pub mod dht;
pub mod drt;
pub mod error;
pub mod file_transfer;
pub mod ice;
pub mod identity;
pub mod messaging;
pub mod settings;
pub mod signaling;
pub mod swarm;
pub mod transport;
