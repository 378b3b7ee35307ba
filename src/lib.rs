//! A peer-to-peer handshake client for the Bitcoin wire protocol, as verified
//! logic: the message envelope and the version payload as byte codecs with
//! exact contracts, the version/verack handshake as a state machine that a
//! caller drives with socket events, the mapping from seed lookups to peer
//! addresses, and the bookkeeping of many concurrent attempts.
//!
//! Sockets, DNS and threads stay with the caller, which performs each action
//! that a `PeerSession` returns and reports back what happened.
use vstd::prelude::*;

pub mod wire;
pub mod version;
pub mod envelope;
pub mod peer;
pub mod handshake;
pub mod resolver;
pub mod orchestrator;

verus! {

} // verus!
