//! Recovering channel names from socket directory entries: the inverse
//! of the name-to-path mapping, used by the listing utility.

use vstd::prelude::*;
use vstd::string::*;

verus! {

/// Whether a directory entry name is a channel socket entry: the fixed
/// prefix, then the channel name, then the fixed suffix.
pub open spec fn entry_matches(e: Seq<char>) -> bool {
    &&& e.len() >= 12
    &&& (forall|i: int| 0 <= i < 7 ==> e[i] == "murmur-"@[i])
    &&& (forall|i: int| 0 <= i < 5 ==> e[e.len() - 5 + i] == ".sock"@[i])
}

/// The channel name a directory entry carries: exactly the part
/// between the fixed prefix and suffix, for entries that match; no
/// name for any other entry.
pub fn channel_of_entry(entry: &str) -> (r: Option<String>)
    ensures
        entry_matches(entry@) ==> (r matches Some(name) && name@ == entry@.subrange(
            7,
            entry@.len() - 5,
        )),
        !entry_matches(entry@) ==> r is None,
{
    proof {
        reveal_strlit("murmur-");
        reveal_strlit(".sock");
    }
    let len = entry.unicode_len();
    if len < 12 {
        return None;
    }
    let prefix = "murmur-";
    let mut i: usize = 0;
    while i < 7
        invariant
            len == entry@.len(),
            len >= 12,
            0 <= i <= 7,
            prefix@ == "murmur-"@,
            "murmur-"@.len() == 7,
            forall|j: int| 0 <= j < i ==> entry@[j] == "murmur-"@[j],
        decreases 7 - i,
    {
        proof {
            reveal_strlit("murmur-");
        }
        if entry.get_char(i) != prefix.get_char(i) {
            return None;
        }
        i += 1;
    }
    let suffix = ".sock";
    let mut k: usize = 0;
    while k < 5
        invariant
            len == entry@.len(),
            len >= 12,
            0 <= k <= 5,
            suffix@ == ".sock"@,
            ".sock"@.len() == 5,
            forall|j: int| 0 <= j < k ==> entry@[len - 5 + j] == ".sock"@[j],
        decreases 5 - k,
    {
        proof {
            reveal_strlit(".sock");
        }
        if entry.get_char(len - 5 + k) != suffix.get_char(k) {
            return None;
        }
        k += 1;
    }
    let name = entry.substring_char(7, len - 5);
    Some(name.to_owned())
}

/// Listing round trip: an entry built from any channel name matches,
/// and the name recovered from it is that channel name.
pub proof fn lemma_entry_round_trip(name: Seq<char>)
    ensures
        entry_matches("murmur-"@ + name + ".sock"@),
        ("murmur-"@ + name + ".sock"@).subrange(7, ("murmur-"@ + name + ".sock"@).len() - 5)
            == name,
{
    reveal_strlit("murmur-");
    reveal_strlit(".sock");
    let e = "murmur-"@ + name + ".sock"@;
    assert(e.subrange(7, e.len() - 5) =~= name);
}

} // verus!
