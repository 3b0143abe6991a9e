//! The mode selection the command-line layer hands the transport:
//! plain data, so that the choice of mode and its parameters can be
//! inspected and validated before any socket work starts. The binary
//! owns flag parsing and converts its parsed form into these values.

use vstd::prelude::*;

verus! {

/// How many seconds a sender waits for a channel by default.
pub const DEFAULT_SEND_TIMEOUT_SECS: u64 = 5;

/// One invocation: the selected mode.
pub struct Cli {
    pub command: Command,
}

/// The mode a process runs a channel in.
pub enum Command {
    /// Bind the channel exclusively and print every incoming message.
    Listen { channel: String },
    /// Connect and send one message, or a stream of lines.
    Send {
        channel: String,
        /// The message; absent when lines are streamed instead.
        message: Option<String>,
        /// Fail at once when no listener accepts, instead of retrying.
        no_wait: bool,
        /// Seconds to keep retrying before giving up.
        timeout: u64,
        /// Read one line back after sending.
        reply: bool,
    },
    /// Two-party duplex: the first caller binds, the second connects.
    Pair { channel: String },
    /// Broadcast every input line to all subscribers.
    Pub { channel: String },
    /// Subscribe and print every broadcast line.
    Sub { channel: String },
    /// List the channel names with socket entries.
    Ls,
    /// Remove a channel's socket entry.
    Rm { channel: String },
}

/// The channel name a mode addresses, if it addresses one.
pub open spec fn spec_channel_of(c: Command) -> Option<Seq<char>> {
    match c {
        Command::Listen { channel } => Some(channel@),
        Command::Send { channel, .. } => Some(channel@),
        Command::Pair { channel } => Some(channel@),
        Command::Pub { channel } => Some(channel@),
        Command::Sub { channel } => Some(channel@),
        Command::Ls => None,
        Command::Rm { channel } => Some(channel@),
    }
}

impl Command {
    /// The channel name this mode addresses, if it addresses one.
    pub fn channel(&self) -> (r: Option<&String>)
        ensures
            match r {
                Some(name) => spec_channel_of(*self) == Some(name@),
                None => spec_channel_of(*self) is None,
            },
    {
        match self {
            Command::Listen { channel } => Some(channel),
            Command::Send { channel, .. } => Some(channel),
            Command::Pair { channel } => Some(channel),
            Command::Pub { channel } => Some(channel),
            Command::Sub { channel } => Some(channel),
            Command::Ls => None,
            Command::Rm { channel } => Some(channel),
        }
    }
}

} // verus!
