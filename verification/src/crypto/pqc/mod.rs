//! Post-quantum key and signature containers (ML-KEM, ML-DSA, SLH-DSA)
//! and their hybrid combinations with X25519 and Ed25519.
pub mod kyber;
pub mod dilithium;
pub mod sphincs;
pub mod hybrid_kem;
pub mod hybrid_sig;
