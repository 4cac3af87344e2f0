//! The echo service used to try the gRPC transport: the client sends
//! numbered messages, the server answers each with the text it received.

use vstd::prelude::*;

use crate::paths::{decimal_string, spec_decimal};

verus! {

/// The answer to a message.
pub open spec fn spec_echo_reply(message: Seq<char>) -> Seq<char> {
    "Server got: "@ + message
}

/// The echo service.
pub struct EchoService {}

impl EchoService {
    pub fn new() -> (r: EchoService)
        ensures
            r == (EchoService {}),
    {
        EchoService {}
    }

    /// The answer to each message of a stream: the text received,
    /// announced.
    pub fn reply(&self, message: &str) -> (r: String)
        ensures
            r@ == spec_echo_reply(message@),
    {
        let mut r = String::from_str("Server got: ");
        r.append(message);
        r
    }
}

/// The message the client sends in turn `i`.
pub open spec fn spec_echo_request(i: u64) -> Seq<char> {
    "echo seq "@ + spec_decimal(i as nat)
}

/// The message the client sends in turn `i`.
pub fn echo_request(i: u64) -> (r: String)
    ensures
        r@ == spec_echo_request(i),
{
    let mut r = String::from_str("echo seq ");
    let n = decimal_string(i);
    r.append(n.as_str());
    r
}

} // verus!
