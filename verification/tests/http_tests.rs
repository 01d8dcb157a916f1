use pocketcoder::driver::CommandResult;
use pocketcoder::http::{
    default_cwd, default_opencode_url, effective_cwd, exec_error_response,
    exec_success_response, forward_header, health_body, message_session_id, nudge_message,
    pane_unavailable_error, prompt_url, sandbox_forward_url, session_name_for, sse_session_id,
    McpQuery, SseQuery,
};
use pocketcoder::mux::{
    capture_args, clear_history_args, has_session_args, list_windows_args, new_session_args,
    send_clear_args, send_command_args, send_interrupt_args,
};

#[test]
fn health_is_ok_whatever_the_multiplexer_state() {
    assert_eq!(health_body(), "ok");
}

#[test]
fn cwd_defaults_to_workspace() {
    assert_eq!(default_cwd(), "/workspace");
    assert_eq!(effective_cwd(&None), "/workspace");
    assert_eq!(effective_cwd(&Some("/tmp".to_string())), "/tmp");
}

#[test]
fn session_naming() {
    assert_eq!(session_name_for("X"), "pc_X");
}

#[test]
fn exec_responses() {
    let ok = exec_success_response(CommandResult { output: "hi".to_string(), exit_code: 3 });
    assert_eq!(ok.stdout.as_deref(), Some("hi"));
    assert_eq!(ok.exit_code, Some(3));
    assert!(ok.error.is_none());

    let err = exec_error_response("CAO lookup failed for delegating_agent_id 'missing'".to_string());
    assert!(err.error.unwrap().contains("CAO lookup failed"));
    assert_eq!(err.exit_code, Some(1));
    assert!(err.stdout.is_none());
}

#[test]
fn pane_unavailable_message() {
    assert_eq!(pane_unavailable_error("s1"), "Tmux session not found: s1");
}

#[test]
fn stream_session_ids() {
    let named = sse_session_id(SseQuery { session_id: Some("abc".to_string()) });
    assert_eq!(named, "abc");
    let fresh = sse_session_id(SseQuery { session_id: None });
    assert_eq!(fresh.len(), 36);
    assert!(fresh.chars().all(|c| c == '-' || c.is_ascii_hexdigit()));
    assert_eq!(message_session_id(McpQuery { session_id: None }), "unknown");
    assert_eq!(
        message_session_id(McpQuery { session_id: Some("s".to_string()) }),
        "s"
    );
}

#[test]
fn notify_prompt() {
    assert_eq!(
        nudge_message(&Some("done: 3 files".to_string())),
        "**[Reflex Arc]** Worker task completed:\n\ndone: 3 files"
    );
    assert_eq!(
        nudge_message(&None),
        "**[Reflex Arc]** Worker task completed:\n\nTask completed via CAO."
    );
    assert_eq!(
        prompt_url("http://opencode:3000", "s1"),
        "http://opencode:3000/session/s1/prompt_async"
    );
    assert_eq!(default_opencode_url(), "http://opencode:3000");
}

#[test]
fn reverse_proxy_rules() {
    assert_eq!(sandbox_forward_url("/terminals?x=1"), "http://sandbox:9889/terminals?x=1");
    assert!(!forward_header("Host"));
    assert!(!forward_header("host"));
    assert!(!forward_header("HOST"));
    assert!(forward_header("content-type"));
    assert!(forward_header("hostname"));
}

#[test]
fn multiplexer_calls_are_spelled_exactly() {
    let s = "/tmp/tmux/pocketcoder";
    assert_eq!(has_session_args(s, "sess"), vec!["-S", s, "has-session", "-t", "sess"]);
    assert_eq!(
        new_session_args(s, "sess"),
        vec!["-S", s, "new-session", "-d", "-s", "sess"]
    );
    assert_eq!(
        send_interrupt_args(s, "sess:0.0"),
        vec!["-S", s, "send-keys", "-t", "sess:0.0", "C-c"]
    );
    assert_eq!(
        send_clear_args(s, "sess:0.0"),
        vec!["-S", s, "send-keys", "-t", "sess:0.0", "clear", "Enter"]
    );
    assert_eq!(
        clear_history_args(s, "sess:0.0"),
        vec!["-S", s, "clear-history", "-t", "sess:0.0"]
    );
    assert_eq!(
        send_command_args(s, "sess:0.0", "ls; echo done"),
        vec!["-S", s, "send-keys", "-t", "sess:0.0", "ls; echo done", "Enter"]
    );
    assert_eq!(
        capture_args(s, "sess:0.0"),
        vec!["-S", s, "capture-pane", "-p", "-t", "sess:0.0"]
    );
    assert_eq!(
        list_windows_args(s, "sess"),
        vec!["-S", s, "list-windows", "-t", "sess", "-F", "#{window_name}:#{window_index}"]
    );
}
