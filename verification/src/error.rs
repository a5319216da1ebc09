//! The application's error kinds and how they read.
use vstd::prelude::*;
use vstd::string::StringExecFns;

verus! {

/// An error of one of the application's areas, with its description.
#[derive(Debug)]
pub enum VchatError {
    Crypto(String),
    Tor(String),
    Network(String),
    Storage(String),
    Protocol(String),
    Qr(String),
    WebRtc(String),
    Auth(String),
}

/// How an error reads: its area in capitals, a colon, a space, and its
/// description.
pub open spec fn spec_message(e: VchatError) -> Seq<char> {
    match e {
        VchatError::Crypto(d) => "CRYPTO: "@ + d@,
        VchatError::Tor(d) => "TOR: "@ + d@,
        VchatError::Network(d) => "NETWORK: "@ + d@,
        VchatError::Storage(d) => "STORAGE: "@ + d@,
        VchatError::Protocol(d) => "PROTOCOL: "@ + d@,
        VchatError::Qr(d) => "QR: "@ + d@,
        VchatError::WebRtc(d) => "WEBRTC: "@ + d@,
        VchatError::Auth(d) => "AUTH: "@ + d@,
    }
}

impl VchatError {
    /// The text of the error (see `spec_message`).
    pub fn message(&self) -> (r: String)
        ensures
            r@ == spec_message(*self),
    {
        match self {
            VchatError::Crypto(d) => String::from_str("CRYPTO: ").concat(d.as_str()),
            VchatError::Tor(d) => String::from_str("TOR: ").concat(d.as_str()),
            VchatError::Network(d) => String::from_str("NETWORK: ").concat(d.as_str()),
            VchatError::Storage(d) => String::from_str("STORAGE: ").concat(d.as_str()),
            VchatError::Protocol(d) => String::from_str("PROTOCOL: ").concat(d.as_str()),
            VchatError::Qr(d) => String::from_str("QR: ").concat(d.as_str()),
            VchatError::WebRtc(d) => String::from_str("WEBRTC: ").concat(d.as_str()),
            VchatError::Auth(d) => String::from_str("AUTH: ").concat(d.as_str()),
        }
    }
}

} // verus!
