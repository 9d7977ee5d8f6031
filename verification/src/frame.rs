//! Accumulating the bytes of one message off a connection, and decoding
//! them as text.

use vstd::prelude::*;

use vstd::slice::slice_index_get;
use vstd::utf8::{encode_utf8, valid_utf8};

verus! {

/// Why accumulated bytes yield no request text.
#[derive(Clone, Copy, Debug, PartialEq, Eq, Structural)]
pub enum ReadError {
    InvalidUtf8,
}

/// Size of the read buffer a connection is drained through. A chunk
/// shorter than this is taken to end the message.
pub const READ_BUFFER_SIZE: usize = 1024;

/// Relies on `String::from_utf8`: it returns `Ok` exactly when the bytes
/// are valid UTF-8, and the returned string's UTF-8 encoding is those very
/// bytes.
#[verifier::external_body]
fn string_from_utf8(bytes: Vec<u8>) -> (r: Result<String, ReadError>)
    ensures
        (match r {
            Ok(s) => valid_utf8(bytes@) && encode_utf8(s@) == bytes@,
            Err(e) => !valid_utf8(bytes@) && e == ReadError::InvalidUtf8,
        }),
{
    match String::from_utf8(bytes) {
        Ok(s) => Ok(s),
        Err(_) => Err(ReadError::InvalidUtf8),
    }
}

/// Accumulates the chunks read from one connection and decides when the
/// message is complete. The judgment is deliberately a short-read
/// heuristic: a chunk that did not fill the read buffer ends the message,
/// so a message delivered in exactly buffer-sized chunks would read on.
pub struct FrameReader {
    bytes: Vec<u8>,
    complete: bool,
}

impl FrameReader {
    /// The bytes accumulated so far.
    pub closed spec fn spec_bytes(&self) -> Seq<u8> {
        self.bytes@
    }

    /// Whether a short chunk has ended the message.
    pub closed spec fn spec_complete(&self) -> bool {
        self.complete
    }

    pub fn new() -> (r: FrameReader)
        ensures
            r.spec_bytes() == Seq::<u8>::empty(),
            !r.spec_complete(),
    {
        FrameReader { bytes: Vec::new(), complete: false }
    }

    pub fn is_complete(&self) -> (r: bool)
        ensures
            r == self.spec_complete(),
    {
        self.complete
    }

    /// Appends the next chunk read from the connection; the message is
    /// judged complete when the chunk did not fill the read buffer.
    pub fn push_chunk(&mut self, chunk: &[u8]) -> (done: bool)
        requires
            !old(self).spec_complete(),
            chunk@.len() <= READ_BUFFER_SIZE,
        ensures
            final(self).spec_bytes() == old(self).spec_bytes() + chunk@,
            done == (chunk@.len() < READ_BUFFER_SIZE),
            final(self).spec_complete() == done,
    {
        let mut i: usize = 0;
        while i < chunk.len()
            invariant
                i <= chunk@.len(),
                self.bytes@ == old(self).bytes@ + chunk@.take(i as int),
                self.complete == old(self).complete,
            decreases chunk@.len() - i,
        {
            let b = *slice_index_get(chunk, i);
            self.bytes.push(b);
            proof {
                assert(old(self).bytes@ + chunk@.take(i + 1) =~= (old(self).bytes@ + chunk@.take(
                    i as int,
                )).push(chunk@[i as int]));
            }
            i += 1;
        }
        proof {
            assert(chunk@.take(chunk@.len() as int) =~= chunk@);
        }
        let done = chunk.len() < READ_BUFFER_SIZE;
        self.complete = done;
        done
    }

    /// The accumulated bytes decoded as text; fails exactly when they are
    /// not valid UTF-8.
    pub fn into_text(self) -> (r: Result<String, ReadError>)
        ensures
            (match r {
                Ok(s) => valid_utf8(self.spec_bytes()) && encode_utf8(s@) == self.spec_bytes(),
                Err(e) => !valid_utf8(self.spec_bytes()) && e == ReadError::InvalidUtf8,
            }),
    {
        string_from_utf8(self.bytes)
    }
}

} // verus!
