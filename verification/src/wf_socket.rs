//! One request and its response, as bytes: what is written for a payload and
//! what the bytes that come back amount to.
//!
//! The socket itself belongs to the caller. It connects to what
//! [`socket_path`] gives, writes what [`encode_request`] gives, collects the
//! response frame with [`ExactReader`](crate::reader::ExactReader) and
//! [`decode_length`](crate::frame::decode_length), hands the payload to
//! [`decode_response`], and closes by [`close_outcome`]. One caller at a time
//! holds the connection for a whole round trip, so a response belongs to the
//! request written just before it. [`send_and_receive`] and
//! [`watch_events`] run the same exchange over a stream held in memory.

use vstd::prelude::*;
use vstd::utf8::encode_utf8;

use crate::codec::{parse_json, parsed, render_json, rendered};
use crate::error::{WireError, WireFault};
use crate::frame::{encode_frame, frame, frame_outcome, HEADER_LEN, MAX_PAYLOAD};
use crate::json::{items_model, Json, JsonValue};
use crate::source::{read_frame, MemorySource};
use crate::wf_ipc::{classify_response, command_envelope, error_of, WayfireCommand};

verus! {

/// How the system answered a request to shut the socket down.
#[derive(Debug, Clone, Copy, PartialEq, Eq)]
pub enum Shutdown {
    /// Both directions are shut down now.
    Done,
    /// The socket was not connected any more.
    NotConnected,
    /// The request failed for another reason.
    Failed,
}

/// The path to connect to, given what the configuration names: without a
/// configured path there is nothing to connect to.
pub fn socket_path(configured: Option<String>) -> (path: Result<String, WireError>)
    ensures
        match configured {
            Some(p) => path == Ok::<String, WireError>(p),
            None => path == Err::<String, WireError>(WireError::ConnectFailed),
        },
{
    match configured {
        Some(path) => Ok(path),
        None => Err(WireError::ConnectFailed),
    }
}

/// What closing the connection comes to: closing a connection that is
/// closed already is no failure.
pub fn close_outcome(shutdown: Shutdown) -> (r: Result<(), WireError>)
    ensures
        r == if shutdown == Shutdown::Failed {
            Err::<(), WireError>(WireError::IoError)
        } else {
            Ok::<(), WireError>(())
        },
{
    match shutdown {
        Shutdown::Done => Ok(()),
        Shutdown::NotConnected => Ok(()),
        Shutdown::Failed => Err(WireError::IoError),
    }
}

/// The frame that carries `payload` as a request: its JSON text in UTF-8
/// behind the length header. `None` where the payload has no JSON text or
/// the text is longer than a header can declare.
pub open spec fn request_bytes(payload: Json) -> Option<Seq<u8>> {
    match rendered(payload) {
        Some(text) => if encode_utf8(text).len() <= MAX_PAYLOAD {
            Some(frame(encode_utf8(text)))
        } else {
            None
        },
        None => None,
    }
}

/// What a response payload amounts to: `Malformed` where it is no JSON
/// text, `RemoteError` with the reported value where it is an object with an
/// `"error"` member, and the value it spells otherwise.
pub open spec fn response_outcome(payload: Seq<u8>) -> Result<Json, WireFault> {
    match parsed(payload) {
        None => Err(WireFault::Malformed),
        Some(value) => match error_of(value) {
            Some(reported) => Err(WireFault::RemoteError(reported)),
            None => Ok(value),
        },
    }
}

/// What a whole exchange amounts to, given the payload to send and the
/// bytes the peer sends before it closes.
pub open spec fn exchange_outcome(payload: Json, inbound: Seq<u8>) -> Result<Json, WireFault> {
    if request_bytes(payload) is None {
        Err(WireFault::Malformed)
    } else {
        match frame_outcome(inbound) {
            Err(fault) => Err(fault),
            Ok(response) => response_outcome(response),
        }
    }
}

/// The result of a call, as mathematics.
pub open spec fn reply_of(r: Result<JsonValue, WireError>) -> Result<Json, WireFault> {
    match r {
        Ok(value) => Ok(value@),
        Err(e) => Err(e@),
    }
}

/// The bytes to write for a request with this payload: one frame around
/// the payload's JSON text. `Malformed` where there is no such frame.
pub fn encode_request(payload: &JsonValue) -> (bytes: Result<Vec<u8>, WireError>)
    ensures
        match bytes {
            Ok(b) => request_bytes(payload@) == Some(b@),
            Err(e) => request_bytes(payload@) is None && e == WireError::Malformed,
        },
{
    match render_json(payload) {
        None => Err(WireError::Malformed),
        Some(text) => encode_frame(text.as_str().as_bytes()),
    }
}

/// Reads the payload of a response frame and decides what the call
/// returns.
pub fn decode_response(payload: &[u8]) -> (r: Result<JsonValue, WireError>)
    ensures
        reply_of(r) == response_outcome(payload@),
{
    match parse_json(payload) {
        None => Err(WireError::Malformed),
        Some(value) => classify_response(value),
    }
}

/// A connection held in memory: what the peer has sent, and what has been
/// written to it.
#[derive(Debug, Clone, PartialEq, Eq)]
pub struct MemoryStream {
    /// The peer's output, up to where it closed.
    pub inbound: MemorySource,
    /// Everything written so far.
    pub outbound: Vec<u8>,
}

/// One round trip: writes the request frame for `payload`, reads one
/// response frame and returns what it amounts to.
///
/// Where the payload cannot be framed, nothing is written or read. Otherwise
/// exactly one frame is written and the inbound stream is read up to the end
/// of one frame, so the next call meets the next response.
pub fn send_and_receive(stream: &mut MemoryStream, payload: &JsonValue) -> (r: Result<
    JsonValue,
    WireError,
>)
    requires
        old(stream).inbound.wf(),
    ensures
        final(stream).inbound.wf(),
        reply_of(r) == exchange_outcome(payload@, old(stream).inbound.unread()),
        match request_bytes(payload@) {
            Some(request) => {
                &&& final(stream).outbound@ == old(stream).outbound@ + request
                &&& match frame_outcome(old(stream).inbound.unread()) {
                    Ok(response) => final(stream).inbound.unread() == old(
                        stream,
                    ).inbound.unread().skip(HEADER_LEN + response.len()),
                    Err(_) => final(stream).inbound.unread().len() == 0,
                }
            },
            None => *final(stream) == *old(stream),
        },
{
    let request = match encode_request(payload) {
        Ok(request) => request,
        Err(e) => {
            return Err(e);
        },
    };
    stream.outbound.extend_from_slice(request.as_slice());
    assert(stream.outbound@ =~= old(stream).outbound@ + request@);
    match read_frame(&mut stream.inbound) {
        Err(e) => Err(e),
        Ok(response) => decode_response(response.as_slice()),
    }
}

/// What watching for events comes to, given the bytes the peer sends before
/// it closes: every round trip of a `Watch` command that succeeds delivers
/// one event, and the first that fails ends the watch with its failure.
/// After `limit` events the watch ends without one.
pub open spec fn watch_outcome(inbound: Seq<u8>, limit: nat) -> (Seq<Json>, Option<WireFault>)
    decreases limit,
{
    if limit == 0 {
        (Seq::empty(), None)
    } else {
        match exchange_outcome(command_envelope(WayfireCommand::Watch), inbound) {
            Err(fault) => (Seq::empty(), Some(fault)),
            Ok(event) => {
                let behind = inbound.skip(HEADER_LEN + frame_outcome(inbound)->Ok_0.len());
                let later = watch_outcome(behind, (limit - 1) as nat);
                (seq![event] + later.0, later.1)
            },
        }
    }
}

/// The events a watch delivered, and what ended it before its limit, if
/// anything did.
#[derive(Debug, Clone, PartialEq)]
pub struct WatchReport {
    pub events: Vec<JsonValue>,
    pub stopped_by: Option<WireError>,
}

impl WatchReport {
    /// The report as mathematics.
    pub open spec fn outcome(&self) -> (Seq<Json>, Option<WireFault>) {
        (
            items_model(self.events@),
            match self.stopped_by {
                Some(e) => Some(e@),
                None => None,
            },
        )
    }
}

/// Watches for events: sends `Watch` again and again, one round trip per
/// event, until `limit` events are in or a round trip fails.
pub fn watch_events(stream: &mut MemoryStream, limit: usize) -> (report: WatchReport)
    requires
        old(stream).inbound.wf(),
    ensures
        final(stream).inbound.wf(),
        report.outcome() == watch_outcome(old(stream).inbound.unread(), limit as nat),
{
    let watch = WayfireCommand::Watch.to_envelope();
    let mut events: Vec<JsonValue> = Vec::new();
    let ghost whole = watch_outcome(stream.inbound.unread(), limit as nat);
    assert(Seq::<Json>::empty() + whole.0 =~= whole.0);
    assert(items_model(events@) =~= Seq::<Json>::empty());
    while events.len() < limit
        invariant
            stream.inbound.wf(),
            events.len() <= limit,
            watch@ == command_envelope(WayfireCommand::Watch),
            whole == watch_outcome(old(stream).inbound.unread(), limit as nat),
            whole.0 == items_model(events@) + watch_outcome(
                stream.inbound.unread(),
                (limit - events.len()) as nat,
            ).0,
            whole.1 == watch_outcome(stream.inbound.unread(), (limit - events.len()) as nat).1,
        decreases limit - events.len(),
    {
        let ghost seen = events@;
        let ghost later = watch_outcome(
            stream.inbound.unread().skip(
                HEADER_LEN + frame_outcome(stream.inbound.unread())->Ok_0.len(),
            ),
            (limit - events.len() - 1) as nat,
        );
        match send_and_receive(stream, &watch) {
            Err(e) => {
                let report = WatchReport { events, stopped_by: Some(e) };
                assert(report.outcome().0 =~= whole.0);
                return report;
            },
            Ok(event) => {
                events.push(event);
                assert(items_model(events@) =~= items_model(seen).push(event@));
                assert(items_model(events@) + later.0 =~= items_model(seen) + (seq![event@]
                    + later.0));
            },
        }
    }
    let report = WatchReport { events, stopped_by: None };
    assert(report.outcome().0 =~= whole.0);
    report
}

} // verus!
