use pocketcoder::resolver::{
    cao_base_url, endpoint_url, find_window_index, missing_session_error, missing_window_error,
    resolve_terminal, resolver_status_error, resolver_transport_error, Resolution,
    TerminalRecord,
};

fn record(
    session: Option<&str>,
    window_id: Option<u32>,
    window: Option<&str>,
) -> TerminalRecord {
    TerminalRecord {
        tmux_session: session.map(|s| s.to_string()),
        tmux_window_id: window_id,
        tmux_window: window.map(|s| s.to_string()),
    }
}

#[test]
fn test_resolve_session_calls_correct_cao_endpoint() {
    // The registry answers for this delegating agent:
    //   tmux_session "pc-test123", tmux_window "main@0", tmux_window_id 0.
    let rec = record(Some("pc-test123"), Some(0), Some("main@0"));
    match resolve_terminal(&rec) {
        Resolution::Resolved { session, window } => {
            assert_eq!(session, "pc-test123");
            assert_eq!(window, 0);
        },
        _ => panic!("expected resolution"),
    }
    // The endpoint URL the lookup is made against.
    let base = "http://127.0.0.1:3999";
    let expected_url = endpoint_url(base, "test-session-id");
    assert_eq!(
        expected_url,
        format!("{}/terminals/by-delegating-agent/test-session-id", base)
    );
    assert!(expected_url.contains("/terminals/by-delegating-agent/"));
    assert!(!expected_url.contains("/terminals/by-external-session/"));
}

#[test]
fn test_resolve_session_returns_error_on_cao_404() {
    // The registry returns 404 for this session: the lookup fails with
    // the in-band error, and no fallback resolution happens.
    let error_msg = resolver_status_error("missing-session", 404);
    assert!(error_msg.contains("CAO lookup failed") || error_msg.contains("CAO request failed"));
    assert!(error_msg.contains("missing-session"));
    assert!(error_msg.contains("404"));
    let transport = resolver_transport_error("connection refused");
    assert!(transport.contains("CAO lookup failed") || transport.contains("CAO request failed"));
}

#[test]
fn test_resolve_session_extracts_tmux_window_id() {
    let rec = record(Some("pc-test123"), Some(5), None);
    match resolve_terminal(&rec) {
        Resolution::Resolved { session, window } => {
            assert_eq!(session, "pc-test123");
            assert_eq!(window, 5);
        },
        _ => panic!("expected resolution"),
    }
}

#[test]
fn test_resolve_session_falls_back_to_tmux_window_parsing() {
    let rec = record(Some("pc-test123"), None, Some("analyst@2"));
    match resolve_terminal(&rec) {
        Resolution::Resolved { session, window } => {
            assert_eq!(session, "pc-test123");
            assert_eq!(window, 2);
        },
        _ => panic!("expected resolution"),
    }
}

#[test]
fn test_endpoint_url_format() {
    let session_id = "agent-session-123";
    let cao_url = cao_base_url();
    let endpoint = endpoint_url(cao_url, session_id);
    assert_eq!(
        endpoint,
        "http://sandbox:9889/terminals/by-delegating-agent/agent-session-123"
    );
    assert!(!endpoint.contains("by-external-session"));
}

#[test]
fn bare_window_name_defers_to_listing() {
    let rec = record(Some("pc-test123"), None, Some("analyst"));
    match resolve_terminal(&rec) {
        Resolution::NeedsWindowLookup { session, window_name } => {
            assert_eq!(session, "pc-test123");
            assert_eq!(window_name, "analyst");
        },
        _ => panic!("expected a listing lookup"),
    }
}

#[test]
fn incomplete_records_are_refused() {
    assert!(matches!(
        resolve_terminal(&record(None, Some(1), None)),
        Resolution::MissingSession
    ));
    assert!(matches!(
        resolve_terminal(&record(Some("s"), None, None)),
        Resolution::MissingWindow
    ));
    assert!(missing_session_error().contains("tmux_session"));
    assert!(missing_window_error().contains("tmux_window"));
}

#[test]
fn window_index_from_listing() {
    let listing = "main:0\nanalyst:2\nworker:3\n";
    assert_eq!(find_window_index(listing, "analyst"), 2);
    assert_eq!(find_window_index(listing, "worker"), 3);
    // An unknown name falls back to window 0.
    assert_eq!(find_window_index(listing, "missing"), 0);
    // A malformed index also falls back to 0.
    assert_eq!(find_window_index("odd:x\n", "odd"), 0);
}

#[test]
fn at_suffix_parse_defaults() {
    // An unparsable suffix after the last `@` gives window 0.
    let rec = record(Some("s"), None, Some("name@notanumber"));
    match resolve_terminal(&rec) {
        Resolution::Resolved { window, .. } => assert_eq!(window, 0),
        _ => panic!("expected resolution"),
    }
    // The split is at the last `@`.
    let rec = record(Some("s"), None, Some("a@b@9"));
    match resolve_terminal(&rec) {
        Resolution::Resolved { window, .. } => assert_eq!(window, 9),
        _ => panic!("expected resolution"),
    }
}
