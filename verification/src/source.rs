//! Framed reading and writing over byte streams held in memory.
//!
//! A [`MemorySource`] stands in for a socket: it holds the bytes a peer has
//! sent and then closed, and hands them out in pieces of scheduled size, as a
//! stream socket may. Reading from it runs the same decisions a caller with
//! a real socket runs through [`ExactReader`].

use vstd::prelude::*;
use vstd::slice::{slice_subrange, slice_to_vec};

use crate::error::{WireError, WireFault};
use crate::frame::{decode_length, encode_frame, frame, frame_outcome, le_value, HEADER_LEN, MAX_PAYLOAD};
use crate::reader::ExactReader;

verus! {

/// How many bytes one read delivers: what was asked for, capped by the
/// schedule's next entry (an entry of zero counts as one; no entry, no cap)
/// and by what the stream still holds.
pub open spec fn granted(request: nat, schedule: Seq<usize>, available: nat) -> nat {
    let cap: nat = if schedule.len() == 0 {
        request
    } else if schedule[0] == 0 {
        1
    } else {
        schedule[0] as nat
    };
    let wanted = if request < cap {
        request
    } else {
        cap
    };
    if wanted < available {
        wanted
    } else {
        available
    }
}

/// The schedule after one read.
pub open spec fn after_read(schedule: Seq<usize>) -> Seq<usize> {
    if schedule.len() == 0 {
        schedule
    } else {
        schedule.skip(1)
    }
}

/// Reading until `n` bytes are in, read by read: from a stream that holds
/// `content` and then ends, delivering by `schedule`, with `got` already in.
pub open spec fn chunked_read(content: Seq<u8>, schedule: Seq<usize>, n: nat, got: Seq<u8>) -> Result<
    Seq<u8>,
    WireFault,
>
    decreases n - got.len(),
{
    if got.len() >= n {
        Ok(got)
    } else {
        let k = granted((n - got.len()) as nat, schedule, content.len());
        if k == 0 {
            Err(WireFault::ConnectionClosed)
        } else {
            chunked_read(
                content.skip(k as int),
                after_read(schedule),
                n,
                got + content.take(k as int),
            )
        }
    }
}

/// What reading exactly `n` bytes comes to, whatever the pieces: the first
/// `n` bytes, or the peer having closed before that many arrived.
pub open spec fn exact_outcome(content: Seq<u8>, n: nat) -> Result<Seq<u8>, WireFault> {
    if content.len() >= n {
        Ok(content.take(n as int))
    } else {
        Err(WireFault::ConnectionClosed)
    }
}

/// Reading piece by piece comes to the bytes already in followed by the next
/// missing ones, or to a closed stream, by the content alone.
pub proof fn lemma_chunked_read(content: Seq<u8>, schedule: Seq<usize>, n: nat, got: Seq<u8>)
    requires
        got.len() <= n,
    ensures
        chunked_read(content, schedule, n, got) == if content.len() >= n - got.len() {
            Ok::<Seq<u8>, WireFault>(got + content.take(n - got.len()))
        } else {
            Err::<Seq<u8>, WireFault>(WireFault::ConnectionClosed)
        },
    decreases n - got.len(),
{
    if got.len() >= n {
        assert(got + content.take(0) =~= got);
    } else {
        let missing = (n - got.len()) as nat;
        let k = granted(missing, schedule, content.len());
        if k > 0 {
            let rest = content.skip(k as int);
            let more = got + content.take(k as int);
            lemma_chunked_read(rest, after_read(schedule), n, more);
            if content.len() >= missing {
                assert(more + rest.take(n - more.len()) =~= got + content.take(missing as int));
            }
        }
    }
}

/// Partial reads do not show: a stream that delivers in pieces of any sizes
/// gives what a stream that delivers everything at once gives.
pub proof fn lemma_chunking_is_immaterial(content: Seq<u8>, schedule: Seq<usize>, n: nat)
    ensures
        chunked_read(content, schedule, n, Seq::empty()) == exact_outcome(content, n),
        chunked_read(content, schedule, n, Seq::empty()) == chunked_read(
            content,
            Seq::empty(),
            n,
            Seq::empty(),
        ),
{
    lemma_chunked_read(content, schedule, n, Seq::empty());
    lemma_chunked_read(content, Seq::empty(), n, Seq::empty());
    assert(Seq::<u8>::empty() + content.take(n as int) =~= content.take(n as int));
}

/// Bytes in memory that are read like a stream: a peer's output up to the
/// point where it closed.
#[derive(Debug, Clone, PartialEq, Eq)]
pub struct MemorySource {
    data: Vec<u8>,
    pos: usize,
    caps: Vec<usize>,
    turn: usize,
}

impl MemorySource {
    /// The read position and the schedule position lie within their data.
    /// Every source made by a constructor is well formed and stays so.
    pub closed spec fn wf(&self) -> bool {
        self.pos <= self.data.len() && self.turn <= self.caps.len()
    }

    /// The bytes not yet read.
    pub closed spec fn unread(&self) -> Seq<u8> {
        self.data@.skip(self.pos as int)
    }

    /// The caps of the reads to come, one entry per read.
    pub closed spec fn schedule(&self) -> Seq<usize> {
        self.caps@.skip(self.turn as int)
    }

    /// A stream that holds `data` and delivers as much as is asked for.
    pub fn new(data: Vec<u8>) -> (source: MemorySource)
        ensures
            source.wf(),
            source.unread() == data@,
            source.schedule() == Seq::<usize>::empty(),
    {
        let source = MemorySource { data, pos: 0, caps: Vec::new(), turn: 0 };
        assert(source.unread() =~= data@);
        assert(source.schedule() =~= Seq::<usize>::empty());
        source
    }

    /// A stream that holds `data` and delivers at most `caps[k]` bytes in
    /// its `k`-th read, at least one while any are left; after the last
    /// entry it delivers as much as is asked for.
    pub fn chunked(data: Vec<u8>, caps: Vec<usize>) -> (source: MemorySource)
        ensures
            source.wf(),
            source.unread() == data@,
            source.schedule() == caps@,
    {
        let source = MemorySource { data, pos: 0, caps, turn: 0 };
        assert(source.unread() =~= data@);
        assert(source.schedule() =~= caps@);
        source
    }

    /// One read of at most `max` bytes. An empty result to a request for
    /// more than zero bytes means the stream has ended.
    pub fn read(&mut self, max: usize) -> (chunk: Vec<u8>)
        requires
            old(self).wf(),
        ensures
            final(self).wf(),
            chunk@.len() == granted(max as nat, old(self).schedule(), old(self).unread().len()),
            chunk@ == old(self).unread().take(chunk@.len() as int),
            final(self).unread() == old(self).unread().skip(chunk@.len() as int),
            final(self).schedule() == after_read(old(self).schedule()),
    {
        let available = self.data.len() - self.pos;
        let mut k = if max < available {
            max
        } else {
            available
        };
        if self.turn < self.caps.len() {
            let cap = if self.caps[self.turn] == 0 {
                1
            } else {
                self.caps[self.turn]
            };
            if cap < k {
                k = cap;
            }
            assert(old(self).schedule()[0] == self.caps[self.turn as int]);
            assert(self.caps@.skip(self.turn as int).skip(1) =~= self.caps@.skip(self.turn + 1));
            self.turn = self.turn + 1;
        }
        let chunk = slice_to_vec(slice_subrange(self.data.as_slice(), self.pos, self.pos + k));
        assert(chunk@ =~= old(self).unread().take(k as int));
        assert(self.data@.skip(self.pos as int).skip(k as int) =~= self.data@.skip(self.pos + k));
        self.pos = self.pos + k;
        chunk
    }
}

/// What a read or a framed read came to, as mathematics.
pub open spec fn outcome_of(r: Result<Vec<u8>, WireError>) -> Result<Seq<u8>, WireFault> {
    match r {
        Ok(bytes) => Ok(bytes@),
        Err(e) => Err(e@),
    }
}

/// Reads exactly `n` bytes from `source`, read after read.
///
/// Gives the next `n` bytes and leaves the stream just behind them; or, where
/// the stream ends before that, `ConnectionClosed` with the stream used up.
/// The sizes in which the bytes are delivered make no difference.
pub fn read_exact_n(source: &mut MemorySource, n: usize) -> (r: Result<Vec<u8>, WireError>)
    requires
        old(source).wf(),
    ensures
        final(source).wf(),
        outcome_of(r) == exact_outcome(old(source).unread(), n as nat),
        outcome_of(r) == chunked_read(
            old(source).unread(),
            old(source).schedule(),
            n as nat,
            Seq::empty(),
        ),
        r is Ok ==> final(source).unread() == old(source).unread().skip(n as int),
        r is Err ==> final(source).unread().len() == 0,
{
    let ghost content = source.unread();
    let ghost schedule = source.schedule();
    proof {
        lemma_chunking_is_immaterial(content, schedule, n as nat);
        assert(Seq::<u8>::empty() + content =~= content);
    }
    let mut reader = ExactReader::new(n);
    while !reader.is_complete()
        invariant
            reader.wf(),
            source.wf(),
            reader.target() == n,
            content == old(source).unread(),
            schedule == old(source).schedule(),
            content == reader.collected() + source.unread(),
            chunked_read(content, schedule, n as nat, Seq::empty()) == exact_outcome(
                content,
                n as nat,
            ),
            chunked_read(content, schedule, n as nat, Seq::empty()) == chunked_read(
                source.unread(),
                source.schedule(),
                n as nat,
                reader.collected(),
            ),
        decreases reader.missing(),
    {
        let ghost before = source.unread();
        let ghost got = reader.collected();
        let ghost old_schedule = source.schedule();
        let chunk = source.read(reader.remaining());
        match reader.feed(chunk.as_slice()) {
            Err(e) => {
                assert(e == WireError::ConnectionClosed);
                assert(chunked_read(before, old_schedule, n as nat, got) == Err::<
                    Seq<u8>,
                    WireFault,
                >(WireFault::ConnectionClosed));
                return Err(e);
            },
            Ok(()) => {
                assert(content =~= reader.collected() + source.unread()) by {
                    assert(before =~= before.take(chunk@.len() as int) + before.skip(
                        chunk@.len() as int,
                    ));
                }
            },
        }
    }
    let bytes = reader.into_bytes();
    proof {
        assert(bytes@ =~= content.take(n as int));
        assert(source.unread() =~= content.skip(n as int));
    }
    Ok(bytes)
}

/// Reads one frame from `source`: the header, then the payload it declares.
///
/// Gives the payload and leaves the stream just behind the frame; or, where
/// the stream ends inside header or payload, `ConnectionClosed`.
pub fn read_frame(source: &mut MemorySource) -> (r: Result<Vec<u8>, WireError>)
    requires
        old(source).wf(),
    ensures
        final(source).wf(),
        outcome_of(r) == frame_outcome(old(source).unread()),
        r matches Ok(payload) ==> final(source).unread() == old(source).unread().skip(
            HEADER_LEN + payload@.len(),
        ),
        r is Err ==> final(source).unread().len() == 0,
{
    let ghost content = source.unread();
    let header = match read_exact_n(source, HEADER_LEN) {
        Ok(header) => header,
        Err(e) => {
            return Err(e);
        },
    };
    let declared = decode_length(header.as_slice());
    let r = read_exact_n(source, declared as usize);
    proof {
        if r is Ok {
            assert(content.skip(HEADER_LEN as int).skip(declared as int) =~= content.skip(
                HEADER_LEN + declared,
            ));
        }
    }
    r
}

/// Writes one frame for `payload` at the end of `sink`: header, then
/// payload. A payload longer than a header can declare is refused with
/// `Malformed`, and nothing is written.
pub fn write_frame(sink: &mut Vec<u8>, payload: &[u8]) -> (r: Result<(), WireError>)
    ensures
        match r {
            Ok(()) => payload@.len() <= MAX_PAYLOAD && final(sink)@ == old(sink)@ + frame(
                payload@,
            ),
            Err(e) => payload@.len() > MAX_PAYLOAD && e == WireError::Malformed && final(sink)@
                == old(sink)@,
        },
{
    match encode_frame(payload) {
        Err(e) => Err(e),
        Ok(bytes) => {
            sink.extend_from_slice(bytes.as_slice());
            assert(sink@ =~= old(sink)@ + frame(payload@));
            Ok(())
        },
    }
}

} // verus!
