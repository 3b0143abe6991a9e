//! The framing codec: newline-delimited messages with a size ceiling.
//! Encoding appends the single delimiter byte; decoding splits a byte
//! stream at delimiters, strips them, silently drops empty lines, and
//! rejects any line whose raw length (delimiter included) exceeds the
//! ceiling — the offending line is consumed whole, so later lines in
//! the same stream are unaffected.

use vstd::prelude::*;
use vstd::slice::{slice_subrange, slice_to_vec};
use crate::MAX_MESSAGE_SIZE;
use crate::error::MurmurError;

verus! {

/// The delimiter between messages on the wire.
pub const DELIMITER: u8 = 10;

/// The encoded form of one message: the payload followed by the
/// delimiter.
pub open spec fn encoded_line(msg: Seq<u8>) -> Seq<u8> {
    msg.push(DELIMITER)
}

/// The position of the first delimiter in a buffer, if any.
pub open spec fn first_nl(s: Seq<u8>) -> Option<int>
    decreases s.len(),
{
    if s.len() == 0 {
        None
    } else if s[0] == DELIMITER {
        Some(0int)
    } else {
        match first_nl(s.drop_first()) {
            None => None,
            Some(i) => Some(i + 1),
        }
    }
}

/// `first_nl` finds the first delimiter: the byte there is the
/// delimiter and no byte before it is.
pub proof fn lemma_first_nl(s: Seq<u8>)
    ensures
        match first_nl(s) {
            Some(i) => 0 <= i < s.len() && s[i] == DELIMITER && (forall|j: int|
                0 <= j < i ==> s[j] != DELIMITER),
            None => forall|j: int| 0 <= j < s.len() ==> s[j] != DELIMITER,
        },
    decreases s.len(),
{
    if s.len() == 0 {
    } else if s[0] == DELIMITER {
    } else {
        let t = s.drop_first();
        lemma_first_nl(t);
        match first_nl(t) {
            None => {
                assert forall|j: int| 0 <= j < s.len() implies s[j] != DELIMITER by {
                    if j >= 1 {
                        assert(t[j - 1] == s[j]);
                    }
                }
            },
            Some(i) => {
                assert(t[i] == s[i + 1]);
                assert forall|j: int| 0 <= j < i + 1 implies s[j] != DELIMITER by {
                    if j >= 1 {
                        assert(t[j - 1] == s[j]);
                    }
                }
            },
        }
    }
}

/// What one decoding step yields from a buffer.
pub enum Extraction {
    /// No complete line waits in the buffer; carries the buffer left.
    Incomplete(Seq<u8>),
    /// The next non-empty message, and the buffer left after its
    /// delimiter.
    Complete(Seq<u8>, Seq<u8>),
    /// The first complete line exceeds the ceiling; carries its raw
    /// length (delimiter included) and the buffer left after it.
    Oversize(nat, Seq<u8>),
}

/// One decoding step: take the first complete line off the buffer,
/// skipping empty lines, rejecting an oversize one.
pub open spec fn extract(s: Seq<u8>) -> Extraction
    decreases s.len(),
{
    match first_nl(s) {
        None => Extraction::Incomplete(s),
        Some(i) => {
            if 0 <= i < s.len() {
                let rest = s.subrange(i + 1, s.len() as int);
                if i + 1 > MAX_MESSAGE_SIZE {
                    Extraction::Oversize((i + 1) as nat, rest)
                } else if i == 0 {
                    extract(rest)
                } else {
                    Extraction::Complete(s.subrange(0, i), rest)
                }
            } else {
                Extraction::Incomplete(s)
            }
        },
    }
}

/// Encode one message for the wire: the payload with the delimiter
/// appended. A message whose encoded length would exceed the ceiling
/// is rejected before anything is built, carrying that length.
pub fn encode_line(msg: &[u8]) -> (r: Result<Vec<u8>, MurmurError>)
    requires
        msg@.len() + 1 <= usize::MAX,
    ensures
        msg@.len() + 1 <= MAX_MESSAGE_SIZE ==> (r matches Ok(v) && v@ == encoded_line(msg@)),
        msg@.len() + 1 > MAX_MESSAGE_SIZE ==> (r matches Err(MurmurError::MessageTooLarge(n))
            && n == msg@.len() + 1),
{
    let len = msg.len();
    if len + 1 > MAX_MESSAGE_SIZE {
        Err(MurmurError::MessageTooLarge(len + 1))
    } else {
        let mut v = slice_to_vec(msg);
        v.push(DELIMITER);
        Ok(v)
    }
}

fn copy_range(v: &Vec<u8>, from: usize, to: usize) -> (out: Vec<u8>)
    requires
        from <= to <= v@.len(),
    ensures
        out@ == v@.subrange(from as int, to as int),
{
    slice_to_vec(slice_subrange(v.as_slice(), from, to))
}

fn find_nl(buf: &Vec<u8>) -> (r: Option<usize>)
    ensures
        match r {
            Some(j) => first_nl(buf@) == Some(j as int),
            None => first_nl(buf@) is None,
        },
{
    let n = buf.len();
    let mut j: usize = 0;
    while j < n
        invariant
            0 <= j <= n,
            n == buf@.len(),
            forall|k: int| 0 <= k < j ==> buf@[k] != DELIMITER,
        decreases n - j,
    {
        if *vstd::std_specs::vec::vec_index(buf, j) == DELIMITER {
            proof {
                lemma_first_nl(buf@);
            }
            return Some(j);
        }
        j += 1;
    }
    proof {
        lemma_first_nl(buf@);
    }
    None
}

/// The incremental decoder: holds the bytes received and not yet
/// delivered. Feed it raw reads; take decoded messages off it one at a
/// time; close it to flush an unterminated final line.
pub struct Decoder {
    buf: Vec<u8>,
}

impl View for Decoder {
    type V = Seq<u8>;

    closed spec fn view(&self) -> Seq<u8> {
        self.buf@
    }
}

impl Decoder {
    /// A decoder with nothing buffered.
    pub fn new() -> (d: Decoder)
        ensures
            d@ == Seq::<u8>::empty(),
    {
        let d = Decoder { buf: Vec::new() };
        proof {
            assert(d@ =~= Seq::<u8>::empty());
        }
        d
    }

    /// Append one raw read to the buffer.
    pub fn feed(&mut self, chunk: &[u8])
        ensures
            final(self)@ == old(self)@ + chunk@,
    {
        let mut tail = slice_to_vec(chunk);
        self.buf.append(&mut tail);
    }

    /// Deliver the next message: the first complete non-empty line,
    /// delimiter stripped. Empty lines are dropped; a line over the
    /// ceiling is consumed and rejected with its observed raw length,
    /// leaving the bytes after it intact.
    pub fn next_message(&mut self) -> (r: Result<Option<Vec<u8>>, MurmurError>)
        ensures
            match extract(old(self)@) {
                Extraction::Incomplete(rest) => (r matches Ok(m) && m is None) && final(self)@
                    == rest,
                Extraction::Complete(msg, rest) => (r matches Ok(m) && m matches Some(v) && v@
                    == msg) && final(self)@ == rest,
                Extraction::Oversize(n, rest) => (r matches Err(MurmurError::MessageTooLarge(sz))
                    && sz == n) && final(self)@ == rest,
            },
    {
        loop
            invariant
                extract(self.buf@) == extract(old(self)@),
            decreases self.buf@.len(),
        {
            match find_nl(&self.buf) {
                None => {
                    return Ok(None);
                },
                Some(i) => {
                    proof {
                        lemma_first_nl(self.buf@);
                    }
                    let n = self.buf.len();
                    if i >= MAX_MESSAGE_SIZE {
                        let rest = copy_range(&self.buf, i + 1, n);
                        self.buf = rest;
                        return Err(MurmurError::MessageTooLarge(i + 1));
                    } else if i == 0 {
                        let rest = copy_range(&self.buf, 1, n);
                        self.buf = rest;
                    } else {
                        let m = copy_range(&self.buf, 0, i);
                        let rest = copy_range(&self.buf, i + 1, n);
                        self.buf = rest;
                        return Ok(Some(m));
                    }
                },
            }
        }
    }

    /// Close the stream: deliver an unterminated final line, if one
    /// waits, under the same ceiling. Call once every complete line
    /// has been taken.
    pub fn finish(&mut self) -> (r: Result<Option<Vec<u8>>, MurmurError>)
        requires
            first_nl(old(self)@) is None,
        ensures
            final(self)@ == Seq::<u8>::empty(),
            old(self)@.len() == 0 ==> (r matches Ok(m) && m is None),
            0 < old(self)@.len() <= MAX_MESSAGE_SIZE ==> (r matches Ok(m) && m matches Some(v)
                && v@ == old(self)@),
            old(self)@.len() > MAX_MESSAGE_SIZE ==> (r matches Err(MurmurError::MessageTooLarge(
                sz,
            )) && sz == old(self)@.len()),
    {
        let n = self.buf.len();
        if n == 0 {
            proof {
                assert(self.buf@ =~= Seq::<u8>::empty());
            }
            Ok(None)
        } else if n > MAX_MESSAGE_SIZE {
            self.buf = Vec::new();
            proof {
                assert(self.buf@ =~= Seq::<u8>::empty());
            }
            Err(MurmurError::MessageTooLarge(n))
        } else {
            let m = copy_range(&self.buf, 0, n);
            self.buf = Vec::new();
            proof {
                assert(self.buf@ =~= Seq::<u8>::empty());
                assert(m@ =~= old(self)@);
            }
            Ok(Some(m))
        }
    }
}

/// The first line of a stream decodes intact: whatever bytes follow
/// its delimiter are left exactly as they arrived.
pub proof fn lemma_decode_first_line(msg: Seq<u8>, rest: Seq<u8>)
    requires
        0 < msg.len(),
        msg.len() + 1 <= MAX_MESSAGE_SIZE,
        forall|i: int| 0 <= i < msg.len() ==> msg[i] != DELIMITER,
    ensures
        extract(encoded_line(msg) + rest) == Extraction::Complete(msg, rest),
{
    let s = encoded_line(msg) + rest;
    lemma_first_nl(s);
    assert(s[msg.len() as int] == DELIMITER);
    assert(forall|j: int| 0 <= j < msg.len() ==> s[j] == msg[j]);
    assert(first_nl(s) == Some(msg.len() as int));
    assert(s.subrange(0, msg.len() as int) =~= msg);
    assert(s.subrange(msg.len() as int + 1, s.len() as int) =~= rest);
}

/// Round trip: a non-empty message that holds no delimiter and fits
/// the ceiling decodes from its own encoding to exactly itself, with
/// nothing left over.
pub proof fn lemma_encode_decode_round_trip(msg: Seq<u8>)
    requires
        0 < msg.len(),
        msg.len() + 1 <= MAX_MESSAGE_SIZE,
        forall|i: int| 0 <= i < msg.len() ==> msg[i] != DELIMITER,
    ensures
        extract(encoded_line(msg)) == Extraction::Complete(msg, Seq::<u8>::empty()),
{
    lemma_decode_first_line(msg, Seq::<u8>::empty());
    assert(encoded_line(msg) + Seq::<u8>::empty() =~= encoded_line(msg));
}

/// Every delivered message could be sent on as it is: it is non-empty,
/// holds no delimiter, and fits the ceiling, so encoding accepts it.
pub proof fn lemma_decoded_message_is_encodable(s: Seq<u8>)
    ensures
        extract(s) matches Extraction::Complete(msg, rest) ==> 0 < msg.len() && msg.len() + 1
            <= MAX_MESSAGE_SIZE && (forall|i: int| 0 <= i < msg.len() ==> msg[i] != DELIMITER),
    decreases s.len(),
{
    match first_nl(s) {
        None => {},
        Some(i) => {
            lemma_first_nl(s);
            let rest = s.subrange(i + 1, s.len() as int);
            if i + 1 > MAX_MESSAGE_SIZE {
            } else if i == 0 {
                lemma_decoded_message_is_encodable(rest);
            } else {
                assert(forall|j: int| 0 <= j < i ==> s.subrange(0, i)[j] == s[j]);
            }
        },
    }
}

/// A line over the ceiling is rejected with its raw length and
/// consumed whole: decoding leaves exactly the bytes that follow its
/// delimiter.
pub proof fn lemma_oversize_rejected(line: Seq<u8>, rest: Seq<u8>)
    requires
        line.len() + 1 > MAX_MESSAGE_SIZE,
        forall|i: int| 0 <= i < line.len() ==> line[i] != DELIMITER,
    ensures
        extract(encoded_line(line) + rest) == Extraction::Oversize((line.len() + 1) as nat, rest),
{
    let s = encoded_line(line) + rest;
    lemma_first_nl(s);
    assert(s[line.len() as int] == DELIMITER);
    assert(forall|j: int| 0 <= j < line.len() ==> s[j] == line[j]);
    assert(first_nl(s) == Some(line.len() as int));
    assert(s.subrange(line.len() as int + 1, s.len() as int) =~= rest);
}

/// Rejecting an oversize line does not corrupt the stream: the line
/// after it still decodes to exactly its own message.
pub proof fn lemma_oversize_then_next_line(big: Seq<u8>, msg: Seq<u8>)
    requires
        big.len() + 1 > MAX_MESSAGE_SIZE,
        forall|i: int| 0 <= i < big.len() ==> big[i] != DELIMITER,
        0 < msg.len(),
        msg.len() + 1 <= MAX_MESSAGE_SIZE,
        forall|i: int| 0 <= i < msg.len() ==> msg[i] != DELIMITER,
    ensures
        extract(encoded_line(big) + encoded_line(msg)) == Extraction::Oversize(
            (big.len() + 1) as nat,
            encoded_line(msg),
        ),
        extract(encoded_line(msg)) == Extraction::Complete(msg, Seq::<u8>::empty()),
{
    lemma_oversize_rejected(big, encoded_line(msg));
    lemma_encode_decode_round_trip(msg);
}

} // verus!
