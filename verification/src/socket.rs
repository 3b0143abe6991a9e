//! Channel names and their socket paths: the validation predicate and
//! the deterministic name-to-path mapping. Validation happens before
//! any path is built, so an invalid name never reaches the filesystem
//! layer.

use vstd::prelude::*;
use vstd::string::*;
use crate::error::MurmurError;

verus! {

/// Whether a character counts as alphanumeric for channel names.
pub uninterp spec fn char_alphanumeric(c: char) -> bool;

/// Relies on char::is_alphanumeric: whether the character is in the
/// Unicode classes Alphabetic or Numeric, a function of the character
/// alone.
pub assume_specification[ char::is_alphanumeric ](c: char) -> (r: bool)
    ensures
        r == char_alphanumeric(c),
;

/// A character a channel name may contain.
pub open spec fn valid_channel_char(c: char) -> bool {
    char_alphanumeric(c) || c == '-' || c == '_'
}

/// The validation predicate for channel names: 1 to 64 characters,
/// alphanumerics, hyphens and underscores only.
pub open spec fn valid_channel_name(name: Seq<char>) -> bool {
    &&& 1 <= name.len() <= 64
    &&& forall|i: int| 0 <= i < name.len() ==> valid_channel_char(name[i])
}

/// Accept a channel name exactly when it satisfies the validation
/// predicate; reject every other name, carrying the name itself.
pub fn validate_channel(channel: &str) -> (r: Result<(), MurmurError>)
    ensures
        r is Ok <==> valid_channel_name(channel@),
        !valid_channel_name(channel@) ==> (r matches Err(MurmurError::InvalidChannel(name))
            && name@ == channel@),
{
    let len = channel.unicode_len();
    if len == 0 || len > 64 {
        return Err(MurmurError::InvalidChannel(channel.to_owned()));
    }
    let mut i: usize = 0;
    while i < len
        invariant
            len == channel@.len(),
            1 <= len <= 64,
            0 <= i <= len,
            forall|j: int| 0 <= j < i ==> valid_channel_char(channel@[j]),
        decreases len - i,
    {
        let c = channel.get_char(i);
        if !(c.is_alphanumeric() || c == '-' || c == '_') {
            return Err(MurmurError::InvalidChannel(channel.to_owned()));
        }
        i += 1;
    }
    Ok(())
}

/// The socket path a channel name resolves to: a fixed directory and a
/// fixed prefix and suffix around the name.
pub open spec fn channel_path(name: Seq<char>) -> Seq<char> {
    "/tmp/murmur-"@ + name + ".sock"@
}

/// Resolve a channel name to its socket path. Every valid name gets
/// the one deterministic path; every invalid name is rejected before
/// any path is built.
pub fn socket_path(channel: &str) -> (r: Result<String, MurmurError>)
    ensures
        valid_channel_name(channel@) ==> (r matches Ok(path) && path@ == channel_path(channel@)),
        !valid_channel_name(channel@) ==> (r matches Err(MurmurError::InvalidChannel(name))
            && name@ == channel@),
{
    match validate_channel(channel) {
        Err(e) => Err(e),
        Ok(()) => {
            let mut path = String::from_str("/tmp/murmur-");
            path.append(channel);
            path.append(".sock");
            Ok(path)
        },
    }
}

} // verus!
