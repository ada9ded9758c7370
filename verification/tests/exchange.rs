use kumo::codec::{parse_json, render_json};
use kumo::error::WireError;
use kumo::frame::encode_frame;
use kumo::json::JsonValue;
use kumo::source::{read_frame, MemorySource};
use kumo::wf_ipc::WayfireCommand;
use kumo::wf_socket::{
    close_outcome, decode_response, encode_request, send_and_receive, socket_path, watch_events,
    MemoryStream, Shutdown,
};

fn text(s: &str) -> JsonValue {
    JsonValue::Text(s.to_string())
}

fn object(members: Vec<(&str, JsonValue)>) -> JsonValue {
    JsonValue::Object(members.into_iter().map(|(k, v)| (k.to_string(), v)).collect())
}

fn frame_of(value: &JsonValue) -> Vec<u8> {
    encode_frame(render_json(value).unwrap().as_bytes()).unwrap()
}

/// A server that answers each request frame with `{"ok": true, "echo": <method>}`.
fn echo_server(requests: &[u8]) -> Vec<u8> {
    let mut source = MemorySource::new(requests.to_vec());
    let mut replies = Vec::new();
    while let Ok(payload) = read_frame(&mut source) {
        let request = parse_json(&payload).unwrap();
        let method = match request.member("method") {
            Some(JsonValue::Text(method)) => method.clone(),
            other => panic!("request without a method: {:?}", other),
        };
        let reply = object(vec![("ok", JsonValue::Bool(true)), ("echo", JsonValue::Text(method))]);
        replies.extend(frame_of(&reply));
    }
    replies
}

fn stream_with(inbound: Vec<u8>, caps: Vec<usize>) -> MemoryStream {
    MemoryStream { inbound: MemorySource::chunked(inbound, caps), outbound: Vec::new() }
}

#[test]
fn request_is_one_frame_of_json_text() {
    let bytes = encode_request(&WayfireCommand::ListViews.to_envelope()).unwrap();
    let text = "{\"data\":{},\"method\":\"list-views\"}";
    assert_eq!(&bytes[..4], &(text.len() as u32).to_le_bytes());
    assert_eq!(&bytes[4..], text.as_bytes());
}

#[test]
fn request_with_a_bad_number_is_malformed() {
    let payload = object(vec![("id", JsonValue::Number("x".to_string()))]);
    assert_eq!(encode_request(&payload), Err(WireError::Malformed));
    let mut stream = stream_with(frame_of(&JsonValue::Null), vec![]);
    assert_eq!(send_and_receive(&mut stream, &payload), Err(WireError::Malformed));
    assert!(stream.outbound.is_empty());
    assert_eq!(read_frame(&mut stream.inbound), Ok(b"null".to_vec()));
}

#[test]
fn response_payloads() {
    assert_eq!(decode_response(b"{\"views\":[]}"), Ok(object(vec![("views", JsonValue::Array(vec![]))])));
    assert_eq!(decode_response(b"[1]"), Ok(JsonValue::Array(vec![JsonValue::Number("1".to_string())])));
    assert_eq!(decode_response(b"{\"error\":\"boom\"}"), Err(WireError::RemoteError(text("boom"))));
    assert_eq!(
        decode_response(b"{\"error\":{\"code\":5}}"),
        Err(WireError::RemoteError(object(vec![("code", JsonValue::Number("5".to_string()))])))
    );
    assert_eq!(decode_response(b"{\"views\":"), Err(WireError::Malformed));
    assert_eq!(decode_response(b""), Err(WireError::Malformed));
}

#[test]
fn end_to_end_scenario() {
    let envelope = WayfireCommand::ListViews.to_envelope();
    let request = encode_request(&envelope).unwrap();
    let mut stream = stream_with(echo_server(&request), vec![]);
    let reply = send_and_receive(&mut stream, &envelope);
    assert_eq!(stream.outbound, request);
    assert_eq!(reply, Ok(object(vec![("echo", text("list-views")), ("ok", JsonValue::Bool(true))])));
}

#[test]
fn end_to_end_in_small_pieces() {
    let envelope = WayfireCommand::OutputInfo { id: 2 }.to_envelope();
    let request = encode_request(&envelope).unwrap();
    let mut stream = stream_with(echo_server(&request), vec![1; 100]);
    let reply = send_and_receive(&mut stream, &envelope).unwrap();
    assert_eq!(reply.member("echo"), Some(&text("window-rules/output-info")));
    assert_eq!(reply.member("ok"), Some(&JsonValue::Bool(true)));
}

#[test]
fn end_to_end_error_scenario() {
    let refusal = object(vec![("error", text("unauthorized"))]);
    let mut stream = stream_with(frame_of(&refusal), vec![]);
    let reply = send_and_receive(&mut stream, &WayfireCommand::Watch.to_envelope());
    assert_eq!(reply, Err(WireError::RemoteError(text("unauthorized"))));
}

#[test]
fn responses_are_matched_in_order() {
    let first = WayfireCommand::Watch.to_envelope();
    let second = WayfireCommand::ListViews.to_envelope();
    let mut requests = encode_request(&first).unwrap();
    requests.extend(encode_request(&second).unwrap());
    let mut stream = stream_with(echo_server(&requests), vec![3, 1, 4, 1, 5, 9, 2, 6]);
    let reply = send_and_receive(&mut stream, &first).unwrap();
    assert_eq!(reply.member("echo"), Some(&text("window-rules/events/watch")));
    let reply = send_and_receive(&mut stream, &second).unwrap();
    assert_eq!(reply.member("echo"), Some(&text("list-views")));
    assert_eq!(stream.outbound, requests);
    assert_eq!(send_and_receive(&mut stream, &first), Err(WireError::ConnectionClosed));
}

#[test]
fn exchange_with_a_silent_peer_is_closed() {
    let mut stream = stream_with(vec![], vec![]);
    let reply = send_and_receive(&mut stream, &WayfireCommand::Watch.to_envelope());
    assert_eq!(reply, Err(WireError::ConnectionClosed));
    assert_eq!(stream.outbound, encode_request(&WayfireCommand::Watch.to_envelope()).unwrap());
}

#[test]
fn exchange_with_a_garbled_reply_is_malformed() {
    let mut stream = stream_with(encode_frame(b"not json").unwrap(), vec![]);
    let reply = send_and_receive(&mut stream, &WayfireCommand::Watch.to_envelope());
    assert_eq!(reply, Err(WireError::Malformed));
}

#[test]
fn watch_loop_takes_one_event_per_round_trip() {
    let events = vec![
        object(vec![("event", text("view-mapped"))]),
        object(vec![("event", text("view-unmapped"))]),
    ];
    let mut inbound = Vec::new();
    for event in &events {
        inbound.extend(frame_of(event));
    }
    let mut stream = stream_with(inbound, vec![2; 10]);
    let watch = WayfireCommand::Watch.to_envelope();
    let mut seen = Vec::new();
    loop {
        match send_and_receive(&mut stream, &watch) {
            Ok(event) => seen.push(event),
            Err(e) => {
                assert_eq!(e, WireError::ConnectionClosed);
                break;
            }
        }
    }
    assert_eq!(seen, events);
}

#[test]
fn watch_events_stops_at_its_limit() {
    let events: Vec<JsonValue> =
        (0..5).map(|i| object(vec![("event", JsonValue::integer(i))])).collect();
    let mut inbound = Vec::new();
    for event in &events {
        inbound.extend(frame_of(event));
    }
    let mut stream = stream_with(inbound, vec![1, 2, 3]);
    let report = watch_events(&mut stream, 0);
    assert_eq!(report.events, Vec::<JsonValue>::new());
    assert_eq!(report.stopped_by, None);
    assert!(stream.outbound.is_empty());
    let report = watch_events(&mut stream, 2);
    assert_eq!(report.events, events[..2].to_vec());
    assert_eq!(report.stopped_by, None);
    let watch = encode_request(&WayfireCommand::Watch.to_envelope()).unwrap();
    assert_eq!(stream.outbound, [watch.clone(), watch].concat());
    let report = watch_events(&mut stream, 10);
    assert_eq!(report.events, events[2..].to_vec());
    assert_eq!(report.stopped_by, Some(WireError::ConnectionClosed));
}

#[test]
fn watch_events_stops_at_a_reported_error() {
    let mut inbound = frame_of(&object(vec![("event", text("a"))]));
    inbound.extend(frame_of(&object(vec![("error", text("gone"))])));
    inbound.extend(frame_of(&object(vec![("event", text("b"))])));
    let mut stream = stream_with(inbound, vec![]);
    let report = watch_events(&mut stream, 5);
    assert_eq!(report.events, vec![object(vec![("event", text("a"))])]);
    assert_eq!(report.stopped_by, Some(WireError::RemoteError(text("gone"))));
    assert_eq!(read_frame(&mut stream.inbound), Ok(b"{\"event\":\"b\"}".to_vec()));
}

#[test]
fn connecting_needs_a_configured_path() {
    assert_eq!(socket_path(None), Err(WireError::ConnectFailed));
    assert_eq!(socket_path(Some("/run/user/1000/wayfire.sock".to_string())), Ok("/run/user/1000/wayfire.sock".to_string()));
    assert_eq!(socket_path(Some(String::new())), Ok(String::new()));
}

#[test]
fn closing_twice_is_no_failure() {
    assert_eq!(close_outcome(Shutdown::Done), Ok(()));
    assert_eq!(close_outcome(Shutdown::NotConnected), Ok(()));
    assert_eq!(close_outcome(Shutdown::Failed), Err(WireError::IoError));
}
