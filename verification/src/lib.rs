//! A scheduled content relay: fetches an image post from a public feed,
//! encodes its media for transport, and publishes it to a microblogging
//! platform through an OAuth1-style signed request flow.
//!
//! The two protocols at the heart of the relay are specified and verified
//! here: the OAuth1 request-signing and token-exchange handshake, and the
//! fixed-cadence scheduling loop that tolerates transient HTTP failures.
use vstd::prelude::*;

pub mod encoding;
pub mod order;
pub mod platform;
pub mod query;
pub mod scheduler;
pub mod signer;

verus! {

/// Error taxonomy of the relay.
///
/// `Transport` is a network or connection failure; `Unauthorized` and
/// `Unexpected` are the two protocol-level classes of a non-2xx HTTP status
/// (the latter carries the status code); `Decode` is a malformed JSON or
/// `key=value` body, or a required field absent from a parsed response;
/// `Config` is a missing required credential at startup.
#[derive(Clone, Copy, Debug, PartialEq, Eq, Structural)]
pub enum Error {
    Transport,
    Unauthorized,
    Unexpected(u16),
    Decode,
    Config,
}

} // verus!
