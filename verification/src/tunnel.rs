//! The MCP tunnel: the decisions of the full-duplex bridge between an
//! upgraded client socket and a spawned child process. The surrounding
//! process runs the select loop and the I/O; each leg's step, and the
//! ordering they guarantee, are here.

use vstd::prelude::*;

verus! {

/// One thing the client socket yields.
pub enum ClientEvent {
    /// A text frame.
    Text(String),
    /// A binary frame, which the tunnel ignores.
    Binary,
    /// A ping or pong frame, which the tunnel ignores.
    Ping,
    /// The client's close frame.
    Close,
    /// A transport error on the socket.
    Error,
}

/// What the tunnel does about one client event.
pub enum ClientAction {
    /// Write these characters to the child's stdin, as bytes.
    WriteStdin(String),
    /// Tear the session down.
    Stop,
    /// Nothing.
    Ignore,
}

/// Decide the client leg: a text frame goes to the child's stdin with a
/// newline behind it, a close or an error ends the session, anything
/// else is ignored.
pub fn tunnel_client_step(ev: ClientEvent) -> (a: ClientAction)
    ensures
        (a is WriteStdin) <==> (ev is Text),
        (a is Stop) <==> (ev is Close || ev is Error),
        (a is Ignore) <==> (ev is Binary || ev is Ping),
        a matches ClientAction::WriteStdin(w) ==> (ev matches ClientEvent::Text(t) && w@ == t@
            + "\n"@),
{
    match ev {
        ClientEvent::Text(t) => {
            let mut w = t;
            w.append("\n");
            ClientAction::WriteStdin(w)
        },
        ClientEvent::Close => ClientAction::Stop,
        ClientEvent::Error => ClientAction::Stop,
        ClientEvent::Binary => ClientAction::Ignore,
        ClientEvent::Ping => ClientAction::Ignore,
    }
}

/// One thing the child's stdout yields.
pub enum ChildEvent {
    /// One line, without its newline.
    Line(String),
    /// End of the child's stdout: the child is gone.
    Eof,
    /// A read error.
    Error,
}

/// What the tunnel does about one child event.
pub enum ChildAction {
    /// Send this text frame to the client.
    SendText(String),
    /// Tear the session down.
    Stop,
}

/// Decide the child leg: each stdout line goes to the client as one text
/// frame, unchanged; end of stream or an error ends the session.
pub fn tunnel_child_step(ev: ChildEvent) -> (a: ChildAction)
    ensures
        (a is SendText) <==> (ev is Line),
        a matches ChildAction::SendText(s) ==> (ev matches ChildEvent::Line(t) && s@ == t@),
        (a is Stop) <==> (ev is Eof || ev is Error),
{
    match ev {
        ChildEvent::Line(t) => ChildAction::SendText(t),
        ChildEvent::Eof => ChildAction::Stop,
        ChildEvent::Error => ChildAction::Stop,
    }
}

/// The text frames among a run of client events, in order, by view.
pub open spec fn frames_of(events: Seq<ClientEvent>) -> Seq<Seq<char>>
    decreases events.len(),
{
    if events.len() == 0 {
        Seq::empty()
    } else {
        frames_of(events.drop_last()) + (match events.last() {
            ClientEvent::Text(t) => seq![t@],
            _ => Seq::empty(),
        })
    }
}

/// The stdin writes a run of client events produces, in order, by view:
/// one write per text frame.
pub open spec fn writes_of(events: Seq<ClientEvent>) -> Seq<Seq<char>>
    decreases events.len(),
{
    if events.len() == 0 {
        Seq::empty()
    } else {
        writes_of(events.drop_last()) + (match events.last() {
            ClientEvent::Text(t) => seq![t@ + "\n"@],
            _ => Seq::empty(),
        })
    }
}

/// Frames reach the child's stdin in receive order, newline-separated:
/// over any run of client events, the stdin writes are exactly the text
/// frames in order, each with one newline behind it — no frame is
/// dropped, reordered, or written without its delimiter.
pub proof fn lemma_tunnel_stdin_order(events: Seq<ClientEvent>)
    ensures
        writes_of(events).len() == frames_of(events).len(),
        forall|i: int| 0 <= i < frames_of(events).len() ==> writes_of(events)[i] == frames_of(
            events,
        )[i] + "\n"@,
    decreases events.len(),
{
    if events.len() > 0 {
        lemma_tunnel_stdin_order(events.drop_last());
    }
}

/// The frames sent back to the client over a run of child events, in
/// order, by view.
pub open spec fn sends_of(events: Seq<ChildEvent>) -> Seq<Seq<char>>
    decreases events.len(),
{
    if events.len() == 0 {
        Seq::empty()
    } else {
        sends_of(events.drop_last()) + (match events.last() {
            ChildEvent::Line(t) => seq![t@],
            _ => Seq::empty(),
        })
    }
}

/// The stdout lines among a run of child events, in order, by view.
pub open spec fn lines_of_events(events: Seq<ChildEvent>) -> Seq<Seq<char>>
    decreases events.len(),
{
    if events.len() == 0 {
        Seq::empty()
    } else {
        lines_of_events(events.drop_last()) + (match events.last() {
            ChildEvent::Line(t) => seq![t@],
            _ => Seq::empty(),
        })
    }
}

/// Child stdout lines reach the client in emit order, unchanged.
pub proof fn lemma_tunnel_send_order(events: Seq<ChildEvent>)
    ensures
        sends_of(events) == lines_of_events(events),
    decreases events.len(),
{
    if events.len() == 0 {
        assert(sends_of(events) =~= lines_of_events(events));
    } else {
        lemma_tunnel_send_order(events.drop_last());
        assert(sends_of(events) =~= lines_of_events(events));
    }
}

/// The argument list of the outbound transport the tunnel spawns: the
/// deployment's ssh invocation of the remote entry command.
pub fn ssh_tunnel_args() -> (r: Vec<String>)
    ensures
        r.deep_view() == seq![
            "-T"@,
            "-p"@,
            "2222"@,
            "-i"@,
            "/ssh_keys/id_rsa"@,
            "-o"@,
            "StrictHostKeyChecking=no"@,
            "-o"@,
            "UserKnownHostsFile=/dev/null"@,
            "worker@sandbox"@,
            "cd /app/cao && /usr/local/bin/uv run cao-mcp-server"@,
        ],
{
    let mut v: Vec<String> = Vec::new();
    v.push(String::from_str("-T"));
    v.push(String::from_str("-p"));
    v.push(String::from_str("2222"));
    v.push(String::from_str("-i"));
    v.push(String::from_str("/ssh_keys/id_rsa"));
    v.push(String::from_str("-o"));
    v.push(String::from_str("StrictHostKeyChecking=no"));
    v.push(String::from_str("-o"));
    v.push(String::from_str("UserKnownHostsFile=/dev/null"));
    v.push(String::from_str("worker@sandbox"));
    v.push(String::from_str("cd /app/cao && /usr/local/bin/uv run cao-mcp-server"));
    proof {
        assert(v.deep_view() =~= seq![
            "-T"@,
            "-p"@,
            "2222"@,
            "-i"@,
            "/ssh_keys/id_rsa"@,
            "-o"@,
            "StrictHostKeyChecking=no"@,
            "-o"@,
            "UserKnownHostsFile=/dev/null"@,
            "worker@sandbox"@,
            "cd /app/cao && /usr/local/bin/uv run cao-mcp-server"@,
        ]);
    }
    v
}

/// The proxy URL with its scheme turned into the socket scheme:
/// `https://…` becomes `wss://…`, `http://…` becomes `ws://…`, and
/// anything else is kept as it is.
pub fn ws_url_of(proxy_url: &str) -> (r: String)
    ensures
        crate::text::occurs_at(proxy_url@, "https://"@, 0) ==> r@ == "wss://"@
            + proxy_url@.subrange(8, proxy_url@.len() as int),
        !crate::text::occurs_at(proxy_url@, "https://"@, 0) && crate::text::occurs_at(
            proxy_url@,
            "http://"@,
            0,
        ) ==> r@ == "ws://"@ + proxy_url@.subrange(7, proxy_url@.len() as int),
        !crate::text::occurs_at(proxy_url@, "https://"@, 0) && !crate::text::occurs_at(
            proxy_url@,
            "http://"@,
            0,
        ) ==> r@ == proxy_url@,
{
    let n = proxy_url.unicode_len();
    if crate::text::starts_with_str(proxy_url, "https://") {
        proof {
            reveal_strlit("https://");
        }
        let mut r = String::from_str("wss://");
        r.append(proxy_url.substring_char(8, n));
        proof {
            assert(r@ =~= "wss://"@ + proxy_url@.subrange(8, proxy_url@.len() as int));
        }
        r
    } else if crate::text::starts_with_str(proxy_url, "http://") {
        proof {
            reveal_strlit("http://");
        }
        let mut r = String::from_str("ws://");
        r.append(proxy_url.substring_char(7, n));
        proof {
            assert(r@ =~= "ws://"@ + proxy_url@.subrange(7, proxy_url@.len() as int));
        }
        r
    } else {
        String::from_str(proxy_url)
    }
}

/// The tunnel endpoint under a socket-scheme base URL.
pub fn mcp_ws_endpoint(ws_base: &str) -> (r: String)
    ensures
        r@ == ws_base@ + "/mcp/ws"@,
{
    let mut r = String::from_str(ws_base);
    r.append("/mcp/ws");
    proof {
        assert(r@ =~= ws_base@ + "/mcp/ws"@);
    }
    r
}

/// Decide one line read from local stdin by the stdio client: blank
/// lines are dropped, anything else is sent as one trimmed text frame.
pub fn stdio_stdin_step(line: &str) -> (a: Option<String>)
    ensures
        (a is None) <==> crate::text::trim_spec(line@).len() == 0,
        a matches Some(t) ==> t@ == crate::text::trim_spec(line@),
{
    let t = crate::text::trim_str(line);
    if t.as_str().unicode_len() == 0 {
        None
    } else {
        Some(t)
    }
}

/// What the stdio client does with one socket message: text goes to
/// stdout with a newline behind it, binary goes to stdout as it is, a
/// clean close ends the loop quietly, a transport failure ends it as an
/// error, keep-alive frames are ignored.
pub enum WsMessage {
    Text(String),
    Binary(Vec<u8>),
    Ping,
    Pong,
    /// The server's close frame, or the orderly end of the stream.
    Close,
    /// A protocol or transport error on the socket.
    Failed,
}

pub enum StdioAction {
    /// Write these characters to local stdout.
    WriteOut(String),
    /// Write these bytes to local stdout.
    WriteRaw(Vec<u8>),
    /// End the loop cleanly: the client exits without error.
    Stop,
    /// End the loop as a failure: the client reports the error.
    Fail,
    /// Nothing.
    Ignore,
}

pub fn stdio_ws_step(msg: WsMessage) -> (a: StdioAction)
    ensures
        a matches StdioAction::WriteOut(s) ==> (msg matches WsMessage::Text(t) && s@ == t@
            + "\n"@),
        (a is WriteOut) <==> (msg is Text),
        a matches StdioAction::WriteRaw(b) ==> (msg matches WsMessage::Binary(bb) && b@ == bb@),
        (a is WriteRaw) <==> (msg is Binary),
        (a is Stop) <==> (msg is Close),
        (a is Fail) <==> (msg is Failed),
        (a is Ignore) <==> (msg is Ping || msg is Pong),
{
    match msg {
        WsMessage::Text(t) => {
            let mut s = t;
            s.append("\n");
            StdioAction::WriteOut(s)
        },
        WsMessage::Binary(b) => StdioAction::WriteRaw(b),
        WsMessage::Close => StdioAction::Stop,
        WsMessage::Failed => StdioAction::Fail,
        WsMessage::Ping => StdioAction::Ignore,
        WsMessage::Pong => StdioAction::Ignore,
    }
}

} // verus!
