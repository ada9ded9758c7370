//! The wire format of one message: a four-byte little-endian length followed
//! by exactly that many payload bytes.

use vstd::prelude::*;

use crate::error::{WireError, WireFault};

verus! {

/// Number of bytes in a frame's length header.
pub const HEADER_LEN: usize = 4;

/// Largest payload length a header can declare.
pub const MAX_PAYLOAD: usize = 0xffff_ffff;

/// The four header bytes that declare a payload of `n` bytes, least
/// significant byte first.
pub open spec fn le_bytes(n: nat) -> Seq<u8>
    recommends
        n <= MAX_PAYLOAD,
{
    seq![
        (n % 256) as u8,
        ((n / 256) % 256) as u8,
        ((n / 65536) % 256) as u8,
        ((n / 16777216) % 256) as u8,
    ]
}

/// The length that four header bytes declare.
pub open spec fn le_value(header: Seq<u8>) -> nat
    recommends
        header.len() == HEADER_LEN,
{
    (header[0] as nat) + 256 * (header[1] as nat) + 65536 * (header[2] as nat) + 16777216 * (
    header[3] as nat)
}

/// The bytes on the wire for payload `p`: header, then payload.
pub open spec fn frame(p: Seq<u8>) -> Seq<u8>
    recommends
        p.len() <= MAX_PAYLOAD,
{
    le_bytes(p.len()) + p
}

/// Reading back a written length gives the length.
pub proof fn lemma_length_roundtrip(n: nat)
    requires
        n <= MAX_PAYLOAD,
    ensures
        le_bytes(n).len() == HEADER_LEN,
        le_value(le_bytes(n)) == n,
{
}

/// Writing a length that was read gives the bytes that were read, so no two
/// headers declare the same length.
pub proof fn lemma_header_roundtrip(header: Seq<u8>)
    requires
        header.len() == HEADER_LEN,
    ensures
        le_value(header) <= MAX_PAYLOAD,
        le_bytes(le_value(header)) == header,
{
    let b0 = header[0] as nat;
    let b1 = header[1] as nat;
    let b2 = header[2] as nat;
    let b3 = header[3] as nat;
    let n = le_value(header);
    lemma_split_low_byte(b0, b1 + 256 * b2 + 65536 * b3);
    lemma_split_low_byte(b1, b2 + 256 * b3);
    lemma_split_low_byte(b2, b3);
    assert(n / 256 == b1 + 256 * b2 + 65536 * b3);
    assert(n / 65536 == (n / 256) / 256);
    assert(n / 16777216 == (n / 65536) / 256);
    assert(le_bytes(n) =~= header);
}

/// A number written as a low byte and the rest splits back into the two.
proof fn lemma_split_low_byte(low: nat, rest: nat)
    requires
        low < 256,
    ensures
        (low + 256 * rest) % 256 == low,
        (low + 256 * rest) / 256 == rest,
{
}

/// Encodes a payload length as a frame header.
pub fn encode_length(n: u32) -> (header: [u8; 4])
    ensures
        header@ == le_bytes(n as nat),
{
    let header = [
        (n % 256) as u8,
        ((n / 256) % 256) as u8,
        ((n / 65536) % 256) as u8,
        ((n / 16777216) % 256) as u8,
    ];
    assert(header@ =~= le_bytes(n as nat));
    header
}

/// Decodes a frame header into the payload length it declares.
pub fn decode_length(header: &[u8]) -> (n: u32)
    requires
        header@.len() == HEADER_LEN,
    ensures
        n == le_value(header@),
{
    let b0: u32 = header[0] as u32;
    let b1: u32 = header[1] as u32;
    let b2: u32 = header[2] as u32;
    let b3: u32 = header[3] as u32;
    b0 + 256 * b1 + 65536 * b2 + 16777216 * b3
}

/// What reading one frame from a stream that holds `content`, and then ends,
/// comes to: the payload, or the peer having closed before header or payload
/// was whole.
pub open spec fn frame_outcome(content: Seq<u8>) -> Result<Seq<u8>, WireFault> {
    if content.len() < HEADER_LEN {
        Err(WireFault::ConnectionClosed)
    } else {
        let declared = le_value(content.take(HEADER_LEN as int));
        let rest = content.skip(HEADER_LEN as int);
        if rest.len() < declared {
            Err(WireFault::ConnectionClosed)
        } else {
            Ok(rest.take(declared as int))
        }
    }
}

/// Round trip: a written frame, whatever follows it on the stream, reads
/// back as the payload it was written from.
pub proof fn lemma_frame_roundtrip(p: Seq<u8>, following: Seq<u8>)
    requires
        p.len() <= MAX_PAYLOAD,
    ensures
        frame_outcome(frame(p) + following) == Ok::<Seq<u8>, WireFault>(p),
{
    let content = frame(p) + following;
    lemma_length_roundtrip(p.len());
    assert(content.take(HEADER_LEN as int) =~= le_bytes(p.len()));
    assert(content.skip(HEADER_LEN as int) =~= p + following);
    assert((p + following).take(p.len() as int) =~= p);
}

/// Frames written one after the other are read back one after the other:
/// the first read gives the first payload and leaves the stream at the
/// second frame.
pub proof fn lemma_frames_in_order(first: Seq<u8>, second: Seq<u8>, following: Seq<u8>)
    requires
        first.len() <= MAX_PAYLOAD,
        second.len() <= MAX_PAYLOAD,
    ensures
        frame_outcome(frame(first) + frame(second) + following) == Ok::<Seq<u8>, WireFault>(
            first,
        ),
        (frame(first) + frame(second) + following).skip(HEADER_LEN + first.len()) == frame(second)
            + following,
        frame_outcome(frame(second) + following) == Ok::<Seq<u8>, WireFault>(second),
{
    let wire = frame(first) + frame(second) + following;
    assert(wire =~= frame(first) + (frame(second) + following));
    lemma_frame_roundtrip(first, frame(second) + following);
    lemma_frame_roundtrip(second, following);
    lemma_length_roundtrip(first.len());
    assert(wire.skip(HEADER_LEN + first.len()) =~= frame(second) + following);
}

/// A stream that ends before the declared payload is whole gives no payload,
/// however much of it did arrive.
pub proof fn lemma_closed_mid_frame(declared: nat, arrived: Seq<u8>)
    requires
        declared <= MAX_PAYLOAD,
        arrived.len() < declared,
    ensures
        frame_outcome(le_bytes(declared) + arrived) == Err::<Seq<u8>, WireFault>(
            WireFault::ConnectionClosed,
        ),
{
    let content = le_bytes(declared) + arrived;
    lemma_length_roundtrip(declared);
    assert(content.take(HEADER_LEN as int) =~= le_bytes(declared));
    assert(content.skip(HEADER_LEN as int) =~= arrived);
}

/// The header for a payload of `len` bytes; `Malformed` for a length that
/// four bytes cannot declare.
pub fn frame_header(len: usize) -> (header: Result<[u8; 4], WireError>)
    ensures
        match header {
            Ok(h) => len <= MAX_PAYLOAD && h@ == le_bytes(len as nat),
            Err(e) => len > MAX_PAYLOAD && e == WireError::Malformed,
        },
{
    if len > MAX_PAYLOAD {
        Err(WireError::Malformed)
    } else {
        Ok(encode_length(len as u32))
    }
}

/// The bytes on the wire for `payload`; `Malformed` for a payload longer
/// than a header can declare.
pub fn encode_frame(payload: &[u8]) -> (bytes: Result<Vec<u8>, WireError>)
    ensures
        match bytes {
            Ok(b) => payload@.len() <= MAX_PAYLOAD && b@ == frame(payload@),
            Err(e) => payload@.len() > MAX_PAYLOAD && e == WireError::Malformed,
        },
{
    match frame_header(payload.len()) {
        Err(e) => Err(e),
        Ok(header) => {
            let mut bytes: Vec<u8> = Vec::new();
            bytes.extend_from_slice(header.as_slice());
            bytes.extend_from_slice(payload);
            assert(bytes@ =~= frame(payload@));
            Ok(bytes)
        },
    }
}

} // verus!
