//! The exact argument lists of every control-socket call the driver
//! makes, as the multiplexer contract spells them: `-S <socket>` first,
//! then the subcommand and its flags. The surrounding process hands each
//! list to the `tmux` binary unchanged.

use vstd::prelude::*;

verus! {

fn push_lit(v: &mut Vec<String>, s: &str)
    ensures
        final(v).deep_view() == old(v).deep_view().push(s@),
{
    v.push(String::from_str(s));
    proof {
        assert(v.deep_view() =~= old(v).deep_view().push(s@));
    }
}

/// `has-session -t <session>`: does the target session exist?
pub fn has_session_args(socket: &str, session: &str) -> (r: Vec<String>)
    ensures
        r.deep_view() == seq!["-S"@, socket@, "has-session"@, "-t"@, session@],
{
    let mut v: Vec<String> = Vec::new();
    push_lit(&mut v, "-S");
    push_lit(&mut v, socket);
    push_lit(&mut v, "has-session");
    push_lit(&mut v, "-t");
    push_lit(&mut v, session);
    proof {
        assert(v.deep_view() =~= seq!["-S"@, socket@, "has-session"@, "-t"@, session@]);
    }
    v
}

/// `new-session -d -s <session>`: create the session detached, in the
/// auto-create mode only.
pub fn new_session_args(socket: &str, session: &str) -> (r: Vec<String>)
    ensures
        r.deep_view() == seq!["-S"@, socket@, "new-session"@, "-d"@, "-s"@, session@],
{
    let mut v: Vec<String> = Vec::new();
    push_lit(&mut v, "-S");
    push_lit(&mut v, socket);
    push_lit(&mut v, "new-session");
    push_lit(&mut v, "-d");
    push_lit(&mut v, "-s");
    push_lit(&mut v, session);
    proof {
        assert(v.deep_view() =~= seq!["-S"@, socket@, "new-session"@, "-d"@, "-s"@, session@]);
    }
    v
}

/// `send-keys -t <pane> C-c`: the interrupt of the sanitise step.
pub fn send_interrupt_args(socket: &str, pane: &str) -> (r: Vec<String>)
    ensures
        r.deep_view() == seq!["-S"@, socket@, "send-keys"@, "-t"@, pane@, "C-c"@],
{
    let mut v: Vec<String> = Vec::new();
    push_lit(&mut v, "-S");
    push_lit(&mut v, socket);
    push_lit(&mut v, "send-keys");
    push_lit(&mut v, "-t");
    push_lit(&mut v, pane);
    push_lit(&mut v, "C-c");
    proof {
        assert(v.deep_view() =~= seq!["-S"@, socket@, "send-keys"@, "-t"@, pane@, "C-c"@]);
    }
    v
}

/// `send-keys -t <pane> clear Enter`: redraw a clean screen before the
/// injection.
pub fn send_clear_args(socket: &str, pane: &str) -> (r: Vec<String>)
    ensures
        r.deep_view() == seq!["-S"@, socket@, "send-keys"@, "-t"@, pane@, "clear"@, "Enter"@],
{
    let mut v: Vec<String> = Vec::new();
    push_lit(&mut v, "-S");
    push_lit(&mut v, socket);
    push_lit(&mut v, "send-keys");
    push_lit(&mut v, "-t");
    push_lit(&mut v, pane);
    push_lit(&mut v, "clear");
    push_lit(&mut v, "Enter");
    proof {
        assert(v.deep_view() =~= seq![
            "-S"@,
            socket@,
            "send-keys"@,
            "-t"@,
            pane@,
            "clear"@,
            "Enter"@,
        ]);
    }
    v
}

/// `clear-history -t <pane>`: drop the scrollback so no stale sentinel
/// survives into this invocation's captures.
pub fn clear_history_args(socket: &str, pane: &str) -> (r: Vec<String>)
    ensures
        r.deep_view() == seq!["-S"@, socket@, "clear-history"@, "-t"@, pane@],
{
    let mut v: Vec<String> = Vec::new();
    push_lit(&mut v, "-S");
    push_lit(&mut v, socket);
    push_lit(&mut v, "clear-history");
    push_lit(&mut v, "-t");
    push_lit(&mut v, pane);
    proof {
        assert(v.deep_view() =~= seq!["-S"@, socket@, "clear-history"@, "-t"@, pane@]);
    }
    v
}

/// `send-keys -t <pane> <wrapped> Enter`: inject the wrapped command as
/// one submitted line.
pub fn send_command_args(socket: &str, pane: &str, wrapped: &str) -> (r: Vec<String>)
    ensures
        r.deep_view() == seq!["-S"@, socket@, "send-keys"@, "-t"@, pane@, wrapped@, "Enter"@],
{
    let mut v: Vec<String> = Vec::new();
    push_lit(&mut v, "-S");
    push_lit(&mut v, socket);
    push_lit(&mut v, "send-keys");
    push_lit(&mut v, "-t");
    push_lit(&mut v, pane);
    push_lit(&mut v, wrapped);
    push_lit(&mut v, "Enter");
    proof {
        assert(v.deep_view() =~= seq![
            "-S"@,
            socket@,
            "send-keys"@,
            "-t"@,
            pane@,
            wrapped@,
            "Enter"@,
        ]);
    }
    v
}

/// `capture-pane -p -t <pane>`: print the current pane buffer.
pub fn capture_args(socket: &str, pane: &str) -> (r: Vec<String>)
    ensures
        r.deep_view() == seq!["-S"@, socket@, "capture-pane"@, "-p"@, "-t"@, pane@],
{
    let mut v: Vec<String> = Vec::new();
    push_lit(&mut v, "-S");
    push_lit(&mut v, socket);
    push_lit(&mut v, "capture-pane");
    push_lit(&mut v, "-p");
    push_lit(&mut v, "-t");
    push_lit(&mut v, pane);
    proof {
        assert(v.deep_view() =~= seq!["-S"@, socket@, "capture-pane"@, "-p"@, "-t"@, pane@]);
    }
    v
}

/// `list-windows -t <session> -F #{window_name}:#{window_index}`: the
/// listing the resolver reads window indices from.
pub fn list_windows_args(socket: &str, session: &str) -> (r: Vec<String>)
    ensures
        r.deep_view() == seq![
            "-S"@,
            socket@,
            "list-windows"@,
            "-t"@,
            session@,
            "-F"@,
            "#{window_name}:#{window_index}"@,
        ],
{
    let mut v: Vec<String> = Vec::new();
    push_lit(&mut v, "-S");
    push_lit(&mut v, socket);
    push_lit(&mut v, "list-windows");
    push_lit(&mut v, "-t");
    push_lit(&mut v, session);
    push_lit(&mut v, "-F");
    push_lit(&mut v, "#{window_name}:#{window_index}");
    proof {
        assert(v.deep_view() =~= seq![
            "-S"@,
            socket@,
            "list-windows"@,
            "-t"@,
            session@,
            "-F"@,
            "#{window_name}:#{window_index}"@,
        ]);
    }
    v
}

} // verus!
