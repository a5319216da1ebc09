//! The messaging layer: the signed wire protocol and message-type names.
use vstd::prelude::*;
use crate::commands::{self, MessageType};

pub mod inbound;
pub mod outbound;
pub mod protocol;

verus! {

/// The stored name of a message type.
pub fn message_type_str(mt: &MessageType) -> (r: &'static str)
    ensures
        r@ == commands::spec_type_name(*mt),
{
    mt.as_str()
}

/// The message type a stored name denotes (unknown names are text).
pub fn parse_message_type(s: &str) -> (r: MessageType)
    ensures
        r == commands::spec_type_from_name(s@),
{
    MessageType::from_string(s)
}

} // verus!
