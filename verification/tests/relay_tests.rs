use pocketcoder::relay::{
    messages_upstream_url, relay_line, rewrite_endpoint, sse_upstream_url, LineBuffer, SseOut,
};

#[test]
fn endpoint_line_is_rewritten_with_session_prefix() {
    // The upstream advertises its post-back endpoint; downstream it must
    // appear under the local namespace with the `ses_` session prefix,
    // as an `endpoint` event.
    match relay_line("http://self", "data: /messages/?session_id=abc") {
        SseOut::Endpoint(d) => {
            assert_eq!(d, "http://self/mcp/messages/?session_id=ses_abc");
        },
        _ => panic!("expected an endpoint event"),
    }
}

#[test]
fn endpoint_line_without_session_id() {
    match relay_line("http://self", "data: /messages/post") {
        SseOut::Endpoint(d) => assert_eq!(d, "http://self/mcp/messages/post"),
        _ => panic!("expected an endpoint event"),
    }
}

#[test]
fn bare_endpoint_marker_is_dropped() {
    // The rewritten URL line already carries the `endpoint` event type;
    // passing the bare marker on as well would emit two downstream
    // `endpoint` events for the upstream's one.
    assert!(matches!(
        relay_line("http://self", "event: endpoint"),
        SseOut::Skip
    ));
}

#[test]
fn one_upstream_endpoint_event_yields_one_downstream() {
    // One upstream endpoint event arrives as its two lines; downstream
    // exactly one `endpoint` event is emitted for it.
    let upstream = ["event: endpoint", "data: /messages/?session_id=abc"];
    let mut endpoint_events = 0;
    for line in upstream {
        match relay_line("http://self", line) {
            SseOut::Endpoint(_) => endpoint_events += 1,
            _ => {},
        }
    }
    assert_eq!(endpoint_events, 1);
}

#[test]
fn other_data_and_event_lines_pass_through() {
    match relay_line("http://self", "data: {\"jsonrpc\":\"2.0\"}") {
        SseOut::Data(d) => assert_eq!(d, "{\"jsonrpc\":\"2.0\"}"),
        _ => panic!("expected a data line"),
    }
    match relay_line("http://self", "event: message") {
        SseOut::Event(e) => assert_eq!(e, "message"),
        _ => panic!("expected an event line"),
    }
    assert!(matches!(relay_line("http://self", ""), SseOut::Skip));
    assert!(matches!(relay_line("http://self", ": comment"), SseOut::Skip));
}

#[test]
fn no_endpoint_event_for_plain_lines() {
    // The relay never emits more endpoint events than the upstream
    // announced: a non-endpoint line never becomes one.
    for line in ["data: hello", "event: message", "id: 4", ""] {
        match relay_line("http://self", line) {
            SseOut::Endpoint(_) => panic!("endpoint event invented for {:?}", line),
            _ => {},
        }
    }
}

#[test]
fn rewrite_prefixes_session_value() {
    assert_eq!(
        rewrite_endpoint("http://h", "/messages/?session_id=xyz&x=1"),
        "http://h/mcp/messages/?session_id=ses_xyz&x=1"
    );
    assert_eq!(rewrite_endpoint("http://h", "/messages/plain"), "http://h/mcp/messages/plain");
}

#[test]
fn line_buffer_reassembles_split_chunks() {
    let mut b = LineBuffer::new();
    let mut lines: Vec<String> = Vec::new();
    for chunk in ["data: /mes", "sages/?x=1\nevent: ", "endpoint\npartial"] {
        lines.extend(b.push_chunk(chunk));
    }
    assert_eq!(lines, vec!["data: /messages/?x=1", "event: endpoint"]);
    assert_eq!(b.buf, "partial");
    let rest = b.push_chunk("\n");
    assert_eq!(rest, vec!["partial"]);
    assert_eq!(b.buf, "");
}

#[test]
fn line_buffer_keeps_empty_lines() {
    let mut b = LineBuffer::new();
    let lines = b.push_chunk("a\n\nb\n");
    assert_eq!(lines, vec!["a", "", "b"]);
    assert_eq!(b.buf, "");
}

#[test]
fn upstream_urls() {
    assert_eq!(sse_upstream_url("sid"), "http://sandbox:9888/sse?session_id=sid");
    assert_eq!(
        messages_upstream_url("sid"),
        "http://sandbox:9888/messages/?session_id=sid"
    );
}
