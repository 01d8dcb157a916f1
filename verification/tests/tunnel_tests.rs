use pocketcoder::tunnel::{
    mcp_ws_endpoint, ssh_tunnel_args, stdio_stdin_step, stdio_ws_step, tunnel_child_step,
    tunnel_client_step, ws_url_of, ChildAction, ChildEvent, ClientAction, ClientEvent,
    StdioAction, WsMessage,
};

#[test]
fn client_text_frames_reach_stdin_newline_separated() {
    // Frames go to the child's stdin in receive order, each closed by
    // one newline.
    let frames = ["{\"id\":1}", "{\"id\":2}", "{\"id\":3}"];
    let mut stdin = String::new();
    for f in frames {
        match tunnel_client_step(ClientEvent::Text(f.to_string())) {
            ClientAction::WriteStdin(w) => stdin.push_str(&w),
            _ => panic!("expected a stdin write"),
        }
    }
    assert_eq!(stdin, "{\"id\":1}\n{\"id\":2}\n{\"id\":3}\n");
}

#[test]
fn client_close_and_error_stop() {
    assert!(matches!(tunnel_client_step(ClientEvent::Close), ClientAction::Stop));
    assert!(matches!(tunnel_client_step(ClientEvent::Error), ClientAction::Stop));
    assert!(matches!(tunnel_client_step(ClientEvent::Binary), ClientAction::Ignore));
    assert!(matches!(tunnel_client_step(ClientEvent::Ping), ClientAction::Ignore));
}

#[test]
fn child_lines_reach_client_in_order() {
    let lines = ["one", "two"];
    let mut sent: Vec<String> = Vec::new();
    for l in lines {
        match tunnel_child_step(ChildEvent::Line(l.to_string())) {
            ChildAction::SendText(s) => sent.push(s),
            _ => panic!("expected a send"),
        }
    }
    assert_eq!(sent, vec!["one", "two"]);
    assert!(matches!(tunnel_child_step(ChildEvent::Eof), ChildAction::Stop));
    assert!(matches!(tunnel_child_step(ChildEvent::Error), ChildAction::Stop));
}

#[test]
fn ssh_invocation_shape() {
    let args = ssh_tunnel_args();
    assert_eq!(args[0], "-T");
    assert_eq!(args[1], "-p");
    assert_eq!(args[2], "2222");
    assert_eq!(args[9], "worker@sandbox");
    assert_eq!(args[10], "cd /app/cao && /usr/local/bin/uv run cao-mcp-server");
    assert_eq!(args.len(), 11);
}

#[test]
fn ws_url_scheme_conversion() {
    assert_eq!(ws_url_of("http://proxy:3001"), "ws://proxy:3001");
    assert_eq!(ws_url_of("https://proxy"), "wss://proxy");
    assert_eq!(ws_url_of("ftp://x"), "ftp://x");
    assert_eq!(mcp_ws_endpoint("ws://proxy:3001"), "ws://proxy:3001/mcp/ws");
}

#[test]
fn stdio_stdin_skips_blank_lines() {
    assert_eq!(stdio_stdin_step("  \t "), None);
    assert_eq!(stdio_stdin_step(""), None);
    assert_eq!(stdio_stdin_step("  {\"id\":1} \n"), Some("{\"id\":1}".to_string()));
}

#[test]
fn stdio_ws_actions() {
    match stdio_ws_step(WsMessage::Text("hi".to_string())) {
        StdioAction::WriteOut(s) => assert_eq!(s, "hi\n"),
        _ => panic!("expected stdout write"),
    }
    match stdio_ws_step(WsMessage::Binary(vec![1, 2, 3])) {
        StdioAction::WriteRaw(b) => assert_eq!(b, vec![1, 2, 3]),
        _ => panic!("expected raw write"),
    }
    // A clean close ends the loop quietly; a transport failure is an
    // error of its own, so the client can exit non-zero on it.
    assert!(matches!(stdio_ws_step(WsMessage::Close), StdioAction::Stop));
    assert!(matches!(stdio_ws_step(WsMessage::Failed), StdioAction::Fail));
    assert!(matches!(stdio_ws_step(WsMessage::Ping), StdioAction::Ignore));
    assert!(matches!(stdio_ws_step(WsMessage::Pong), StdioAction::Ignore));
}
