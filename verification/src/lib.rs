//! Ephemeral, name-addressed local inter-process channels over
//! filesystem-backed sockets: newline-delimited framing with a size
//! ceiling, channel-name validation and path resolution, the
//! role-negotiation state machines (bind-or-serve, duplex failover,
//! retry-connect), and a bounded fan-out broadcaster.
//!
//! The library holds the decision and framing logic; the surrounding
//! binary performs the actual socket and terminal input/output and
//! drives these functions.

pub mod broadcast;
pub mod channels;
pub mod cli;
pub mod codec;
pub mod error;
pub mod roles;
pub mod socket;

use vstd::prelude::*;

verus! {

/// Greatest encoded line length, in bytes, that the transport accepts:
/// one message plus its trailing delimiter.
pub const MAX_MESSAGE_SIZE: usize = 1048576;

} // verus!
