//! The HTTP surface: the request and response shapes of the proxy's
//! endpoints and every decision they make — default working directory,
//! session naming, in-band error mapping, notification prompts, and the
//! reverse-proxy's forwarding rules. The listeners and the wire JSON
//! live in the surrounding process.

use vstd::prelude::*;
use crate::driver::{valid_id, CommandResult};

verus! {

/// A shell command execution request, as `/exec` takes it.
pub struct ExecRequest {
    /// Bash command string; must be non-empty to mean anything.
    pub cmd: String,
    /// Working directory; absent means the default.
    pub cwd: Option<String>,
    /// Opaque audit record, carried as its raw JSON text, never read.
    pub metadata: Option<String>,
    /// Opaque audit identifier, passed through unmodified.
    pub usage_id: Option<String>,
    /// Caller session identifier; absent means the configured default.
    pub session_id: Option<String>,
}

/// The in-band reply of `/exec`: either a result or an error, always
/// under HTTP 200.
pub struct ExecResponse {
    pub stdout: Option<String>,
    pub exit_code: Option<i32>,
    pub error: Option<String>,
}

/// A notification from the Sandbox, as `/notify` takes it: the payload's
/// `output` field is what the prompt quotes, when it is there.
pub struct NotifyRequest {
    pub session_id: String,
    pub event_type: String,
    /// The `output` string of the payload, already picked out of the
    /// JSON by the caller; absent when the payload had none.
    pub payload_output: Option<String>,
}

/// The `sessionId` query of the event-stream endpoints.
pub struct SseQuery {
    pub session_id: Option<String>,
}

/// The `session_id` query of the tunnel endpoint.
pub struct McpQuery {
    pub session_id: Option<String>,
}

/// Body of the `/health` endpoint: always the literal `ok`, whatever the
/// state of the multiplexer.
pub fn health_body() -> (r: String)
    ensures
        r@ == "ok"@,
{
    String::from_str("ok")
}

/// The working directory used when the request names none.
pub fn default_cwd() -> (r: &'static str)
    ensures
        r@ == "/workspace"@,
{
    "/workspace"
}

/// The working directory of a request: the one it names, or the default.
pub fn effective_cwd(cwd: &Option<String>) -> (r: String)
    ensures
        match cwd {
            Some(d) => r@ == d@,
            None => r@ == "/workspace"@,
        },
{
    match cwd {
        Some(d) => d.clone(),
        None => String::from_str("/workspace"),
    }
}

/// The multiplexer session a caller session identifier maps to on the
/// default path: `pc_<id>`.
pub fn session_name_for(id: &str) -> (r: String)
    ensures
        r@ == "pc_"@ + id@,
{
    let mut r = String::from_str("pc_");
    r.append(id);
    proof {
        assert(r@ =~= "pc_"@ + id@);
    }
    r
}

/// The reply for a command that ran: its output and its exit code, no
/// error.
pub fn exec_success_response(res: CommandResult) -> (r: ExecResponse)
    ensures
        r.stdout matches Some(s) && s@ == res.output@,
        r.exit_code == Some(res.exit_code),
        r.error is None,
{
    ExecResponse { stdout: Some(res.output), exit_code: Some(res.exit_code), error: None }
}

/// The reply for an execution that failed in transport, resolution or
/// time: the message in-band, with the synthetic exit code 1.
pub fn exec_error_response(msg: String) -> (r: ExecResponse)
    ensures
        r.error matches Some(e) && e@ == msg@,
        r.exit_code == Some(1i32),
        r.stdout is None,
{
    ExecResponse { stdout: None, exit_code: Some(1), error: Some(msg) }
}

/// The in-band message of a command that outran its deadline.
pub fn timeout_error() -> (r: String)
    ensures
        r@ == "Command execution timed out (Sandbox)."@,
{
    String::from_str("Command execution timed out (Sandbox).")
}

/// The in-band message of a missing target session.
pub fn pane_unavailable_error(session: &str) -> (r: String)
    ensures
        r@ == "Tmux session not found: "@ + session@,
{
    let mut r = String::from_str("Tmux session not found: ");
    r.append(session);
    proof {
        assert(r@ =~= "Tmux session not found: "@ + session@);
    }
    r
}

/// The session identifier an event stream is filed under: the one the
/// query named, or a fresh random one.
pub fn sse_session_id(q: SseQuery) -> (r: String)
    ensures
        match q.session_id {
            Some(s) => r@ == s@,
            None => valid_id(r@),
        },
{
    match q.session_id {
        Some(s) => s,
        None => crate::driver::fresh_invocation_id(),
    }
}

/// The session identifier the message proxy forwards under: the one the
/// query named, or the literal `unknown`.
pub fn message_session_id(q: McpQuery) -> (r: String)
    ensures
        match q.session_id {
            Some(s) => r@ == s@,
            None => r@ == "unknown"@,
        },
{
    match q.session_id {
        Some(s) => s,
        None => String::from_str("unknown"),
    }
}

/// The prompt text `/notify` sends to the Brain: the worker's output
/// when the payload carried one, else the fixed completion notice.
pub fn nudge_message(payload_output: &Option<String>) -> (r: String)
    ensures
        match payload_output {
            Some(o) => r@ == "**[Reflex Arc]** Worker task completed:\n\n"@ + o@,
            None => r@ == "**[Reflex Arc]** Worker task completed:\n\n"@
                + "Task completed via CAO."@,
        },
{
    let mut r = String::from_str("**[Reflex Arc]** Worker task completed:\n\n");
    match payload_output {
        Some(o) => {
            r.append(o.as_str());
            proof {
                assert(r@ =~= "**[Reflex Arc]** Worker task completed:\n\n"@ + o@);
            }
        },
        None => {
            r.append("Task completed via CAO.");
            proof {
                assert(r@ =~= "**[Reflex Arc]** Worker task completed:\n\n"@
                    + "Task completed via CAO."@);
            }
        },
    }
    r
}

/// The Brain's asynchronous prompt endpoint for a session:
/// `<base>/session/<sid>/prompt_async`.
pub fn prompt_url(base: &str, session_id: &str) -> (r: String)
    ensures
        r@ == base@ + "/session/"@ + session_id@ + "/prompt_async"@,
{
    let mut r = String::from_str(base);
    r.append("/session/");
    r.append(session_id);
    r.append("/prompt_async");
    proof {
        assert(r@ =~= base@ + "/session/"@ + session_id@ + "/prompt_async"@);
    }
    r
}

/// The Brain's base URL when the environment names none.
pub fn default_opencode_url() -> (r: &'static str)
    ensures
        r@ == "http://opencode:3000"@,
{
    "http://opencode:3000"
}

/// The upstream the legacy-port reverse proxy forwards to:
/// `http://sandbox:9889<path-and-query>`.
pub fn sandbox_forward_url(path_query: &str) -> (r: String)
    ensures
        r@ == "http://sandbox:9889"@ + path_query@,
{
    let mut r = String::from_str("http://sandbox:9889");
    r.append(path_query);
    proof {
        assert(r@ =~= "http://sandbox:9889"@ + path_query@);
    }
    r
}

/// Whether a header name spells `host`, in any letter case.
pub open spec fn is_host_header_spec(s: Seq<char>) -> bool {
    s.len() == 4 && (s[0] == 'h' || s[0] == 'H') && (s[1] == 'o' || s[1] == 'O') && (s[2] == 's'
        || s[2] == 'S') && (s[3] == 't' || s[3] == 'T')
}

/// Whether the reverse proxy forwards a header: every header except
/// `Host` is passed through.
pub fn forward_header(name: &str) -> (r: bool)
    ensures
        r == !is_host_header_spec(name@),
{
    let n = name.unicode_len();
    if n != 4 {
        return true;
    }
    let c0 = name.get_char(0);
    let c1 = name.get_char(1);
    let c2 = name.get_char(2);
    let c3 = name.get_char(3);
    !((c0 == 'h' || c0 == 'H') && (c1 == 'o' || c1 == 'O') && (c2 == 's' || c2 == 'S') && (c3
        == 't' || c3 == 'T'))
}

} // verus!
