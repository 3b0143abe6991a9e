//! The failure taxonomy of the channel library, and the exact
//! user-facing text of each failure.

use vstd::prelude::*;
use vstd::string::*;

verus! {

/// Every terminal failure the library can report. Transient races in
/// role negotiation are absorbed by the state machines and never
/// appear here.
#[derive(Debug, PartialEq, Eq)]
pub enum MurmurError {
    /// A single encoded line exceeded the size ceiling; carries the
    /// observed length in bytes, delimiter included.
    MessageTooLarge(usize),
    /// The channel name failed the validation predicate; carries the
    /// offending name.
    InvalidChannel(String),
    /// A bind was attempted against a channel that already has an
    /// active listener; carries the channel name.
    ChannelBusy(String),
    /// The connect retry budget was exhausted; carries the channel
    /// name and the budget in seconds.
    ConnectTimeout { channel: String, timeout_secs: u64 },
}

/// The character for a single decimal digit.
pub open spec fn digit_char(d: nat) -> char {
    if d == 0 {
        '0'
    } else if d == 1 {
        '1'
    } else if d == 2 {
        '2'
    } else if d == 3 {
        '3'
    } else if d == 4 {
        '4'
    } else if d == 5 {
        '5'
    } else if d == 6 {
        '6'
    } else if d == 7 {
        '7'
    } else if d == 8 {
        '8'
    } else {
        '9'
    }
}

/// The decimal rendering of a number: most significant digit first,
/// no sign, no leading zero except for the number zero itself.
pub open spec fn dec_str(n: nat) -> Seq<char>
    decreases n,
{
    if n < 10 {
        seq![digit_char(n)]
    } else {
        dec_str(n / 10).push(digit_char(n % 10))
    }
}

fn digit_literal(d: u64) -> (s: &'static str)
    requires
        d < 10,
    ensures
        s@ == seq![digit_char(d as nat)],
{
    let s: &'static str = if d == 0 {
        "0"
    } else if d == 1 {
        "1"
    } else if d == 2 {
        "2"
    } else if d == 3 {
        "3"
    } else if d == 4 {
        "4"
    } else if d == 5 {
        "5"
    } else if d == 6 {
        "6"
    } else if d == 7 {
        "7"
    } else if d == 8 {
        "8"
    } else {
        "9"
    };
    proof {
        reveal_strlit("0");
        reveal_strlit("1");
        reveal_strlit("2");
        reveal_strlit("3");
        reveal_strlit("4");
        reveal_strlit("5");
        reveal_strlit("6");
        reveal_strlit("7");
        reveal_strlit("8");
        reveal_strlit("9");
        assert(s@ =~= seq![digit_char(d as nat)]);
    }
    s
}

/// Render a number in decimal.
pub fn u64_to_string(n: u64) -> (s: String)
    ensures
        s@ == dec_str(n as nat),
    decreases n,
{
    if n < 10 {
        String::from_str(digit_literal(n))
    } else {
        let mut s = u64_to_string(n / 10);
        s.append(digit_literal(n % 10));
        proof {
            assert(s@ =~= dec_str(n as nat));
        }
        s
    }
}

/// The full user-facing text of a failure: it names the channel (or
/// the observed size) and an actionable next step.
pub open spec fn error_text(e: MurmurError) -> Seq<char> {
    match e {
        MurmurError::MessageTooLarge(size) => "message too large: "@ + dec_str(size as nat)
            + " bytes (max 1MB)"@,
        MurmurError::InvalidChannel(name) => "invalid channel name '"@ + name@
            + "'. Use 1-64 alphanumeric chars, hyphens, or underscores (e.g. my-channel_1)"@,
        MurmurError::ChannelBusy(channel) => "channel '"@ + channel@
            + "' already has an active listener. To send messages, use: murmur send "@ + channel@
            + " \"your message\". To remove the existing listener first: murmur rm "@ + channel@,
        MurmurError::ConnectTimeout { channel, timeout_secs } => "timeout after "@ + dec_str(
            timeout_secs as nat,
        ) + "s waiting for channel '"@ + channel@ + "'. Start a listener with: murmur listen "@
            + channel@,
    }
}

impl MurmurError {
    /// The user-facing line for this failure.
    pub fn message(&self) -> (s: String)
        ensures
            s@ == error_text(*self),
    {
        match self {
            MurmurError::MessageTooLarge(size) => {
                let mut s = String::from_str("message too large: ");
                let num = u64_to_string(*size as u64);
                s.append(num.as_str());
                s.append(" bytes (max 1MB)");
                s
            },
            MurmurError::InvalidChannel(name) => {
                let mut s = String::from_str("invalid channel name '");
                s.append(name.as_str());
                s.append(
                    "'. Use 1-64 alphanumeric chars, hyphens, or underscores (e.g. my-channel_1)",
                );
                s
            },
            MurmurError::ChannelBusy(channel) => {
                let mut s = String::from_str("channel '");
                s.append(channel.as_str());
                s.append("' already has an active listener. To send messages, use: murmur send ");
                s.append(channel.as_str());
                s.append(" \"your message\". To remove the existing listener first: murmur rm ");
                s.append(channel.as_str());
                s
            },
            MurmurError::ConnectTimeout { channel, timeout_secs } => {
                let mut s = String::from_str("timeout after ");
                let num = u64_to_string(*timeout_secs);
                s.append(num.as_str());
                s.append("s waiting for channel '");
                s.append(channel.as_str());
                s.append("'. Start a listener with: murmur listen ");
                s.append(channel.as_str());
                s
            },
        }
    }
}

} // verus!
