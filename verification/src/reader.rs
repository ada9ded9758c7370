//! Collecting an exact number of bytes from a stream that may deliver them in
//! pieces. The caller does the reading; this keeps count and decides.

use vstd::prelude::*;

use crate::error::WireError;

verus! {

/// Progress towards `target` bytes: what has been collected so far.
#[derive(Debug, Clone, PartialEq, Eq)]
pub struct ExactReader {
    target: usize,
    collected: Vec<u8>,
}

impl ExactReader {
    /// Never more has been collected than was asked for. Every reader made
    /// by [`new`](Self::new) is well formed and stays so.
    pub closed spec fn wf(&self) -> bool {
        self.collected.len() <= self.target
    }

    /// How many bytes are to be collected in all.
    pub closed spec fn target(&self) -> nat {
        self.target as nat
    }

    /// The bytes collected so far, in the order they arrived.
    pub closed spec fn collected(&self) -> Seq<u8> {
        self.collected@
    }

    /// How many bytes are still missing.
    pub open spec fn missing(&self) -> nat {
        (self.target() - self.collected().len()) as nat
    }

    /// Starts collecting `n` bytes.
    pub fn new(n: usize) -> (reader: ExactReader)
        ensures
            reader.wf(),
            reader.target() == n,
            reader.collected() == Seq::<u8>::empty(),
    {
        ExactReader { target: n, collected: Vec::new() }
    }

    /// The number of bytes to ask the stream for next; zero once all are in.
    pub fn remaining(&self) -> (n: usize)
        requires
            self.wf(),
        ensures
            n == self.missing(),
            self.collected().len() <= self.target(),
    {
        self.target - self.collected.len()
    }

    /// Whether all bytes are in.
    pub fn is_complete(&self) -> (done: bool)
        requires
            self.wf(),
        ensures
            done == (self.missing() == 0),
            self.collected().len() <= self.target(),
    {
        self.remaining() == 0
    }

    /// Takes in what one read delivered.
    ///
    /// An empty delivery while bytes are missing means the peer has closed
    /// the stream. A delivery longer than what is missing cannot come from a
    /// read that was asked for [`remaining`](Self::remaining) bytes and is
    /// reported as a failed read. In both cases nothing is taken in.
    pub fn feed(&mut self, chunk: &[u8]) -> (taken: Result<(), WireError>)
        requires
            old(self).wf(),
        ensures
            final(self).wf(),
            final(self).target() == old(self).target(),
            taken == feed_verdict(old(self).missing(), chunk@.len()),
            final(self).collected() == if taken is Ok {
                old(self).collected() + chunk@
            } else {
                old(self).collected()
            },
    {
        let missing = self.remaining();
        if chunk.len() > missing {
            return Err(WireError::IoError);
        }
        if chunk.len() == 0 && missing > 0 {
            return Err(WireError::ConnectionClosed);
        }
        self.collected.extend_from_slice(chunk);
        Ok(())
    }

    /// Hands over the collected bytes.
    pub fn into_bytes(self) -> (bytes: Vec<u8>)
        ensures
            bytes@ == self.collected(),
            self.wf() ==> bytes@.len() <= self.target(),
    {
        self.collected
    }
}

/// What [`ExactReader::feed`] answers to a delivery of `delivered` bytes
/// while `missing` bytes are missing.
pub open spec fn feed_verdict(missing: nat, delivered: nat) -> Result<(), WireError> {
    if delivered > missing {
        Err(WireError::IoError)
    } else if delivered == 0 && missing > 0 {
        Err(WireError::ConnectionClosed)
    } else {
        Ok(())
    }
}

} // verus!
