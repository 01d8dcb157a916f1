//! The pane driver: plan one command invocation against a multiplexer
//! pane, decide each poll step, and spell out the exact control-socket
//! calls the surrounding process must make.

use vstd::prelude::*;
use crate::sentinel::{
    capture_code, cd_line_pat, cd_pattern, clean_output, exit_marker, find_sentinel,
    lemma_output_free_of_sentinel, lemma_output_preserves_absence, opt_str_view, output_spec,
    sentinel_found, wrap_command, wrapped_spec,
};
use crate::text::{contains_str, dec_spec};

verus! {

/// Deadline for one command execution, in milliseconds.
pub const EXEC_TIMEOUT_MS: u64 = 300000;

/// Delay between two captures of the pane buffer, in milliseconds.
pub const POLL_INTERVAL_MS: u64 = 200;

/// Delay after the interrupt, before the command is injected, so the
/// prompt is redrawn first, in milliseconds.
pub const SETTLE_DELAY_MS: u64 = 300;

/// Result of a command execution in the sandbox: the captured pane text
/// with the sentinel lines removed, and the exit code the sentinel carried.
#[derive(Debug, Clone)]
pub struct CommandResult {
    /// Combined stdout and stderr
    pub output: String,
    /// Unix exit code
    pub exit_code: i32,
}

/// The execution driver: it owns the address of the multiplexer control
/// socket and the name of the default session, and nothing else; all
/// state lives in the multiplexer outside the process.
pub struct PocketCoderDriver {
    pub socket_path: String,
    pub session_name: String,
    /// Whether a missing default session may be created on demand.
    /// Registry-addressed panes are owned by another lifecycle and must
    /// already exist, so their path keeps this off.
    pub auto_create: bool,
}

impl PocketCoderDriver {
    pub fn new(socket: &str, session: &str) -> (r: Self)
        ensures
            r.socket_path@ == socket@,
            r.session_name@ == session@,
            !r.auto_create,
    {
        Self { socket_path: String::from_str(socket), session_name: String::from_str(session), auto_create: false }
    }
}

/// A character the random identifier may hold: a lower-case hex digit or
/// a hyphen.
pub open spec fn is_id_char(c: char) -> bool {
    ('0' as int <= c as int && c as int <= '9' as int) || ('a' as int <= c as int && c as int
        <= 'f' as int) || c == '-'
}

/// A well-formed random invocation identifier: the 36-character hyphenated
/// form, which in particular holds no newline and no quote.
pub open spec fn valid_id(id: Seq<char>) -> bool {
    id.len() == 36 && forall|i: int| 0 <= i < id.len() ==> is_id_char(#[trigger] id[i])
}

/// An identifier holds no newline, so the output-cleaning laws apply to it.
pub proof fn lemma_valid_id_no_newline(id: Seq<char>)
    requires
        valid_id(id),
    ensures
        !id.contains('\n'),
        id.len() > 0,
{
    if id.contains('\n') {
        let i = choose|i: int| 0 <= i < id.len() && id[i] == '\n';
        assert(is_id_char(id[i]));
    }
}

/// Relies on `uuid::Uuid::new_v4` and the hyphenated lower-case form its
/// `Display` writes: 36 characters, hex digits and hyphens. The value is
/// random, so nothing more is promised of it.
#[verifier::external_body]
fn random_uuid_string() -> (r: String)
    ensures
        valid_id(r@),
{
    uuid::Uuid::new_v4().to_string()
}

/// A fresh random identifier, for an event stream that named none.
pub fn fresh_invocation_id() -> (r: String)
    ensures
        valid_id(r@),
{
    random_uuid_string()
}

/// The pane target `<session>:<window>.0`, the form the multiplexer's
/// `-t` flag takes.
pub open spec fn pane_target_spec(session: Seq<char>, window: nat) -> Seq<char> {
    session + ":"@ + dec_spec(window) + ".0"@
}

/// Build the pane target for a session and a window index.
pub fn pane_target(session: &str, window: u32) -> (r: String)
    ensures
        r@ == pane_target_spec(session@, window as nat),
{
    let mut r = String::from_str(session);
    r.append(":");
    let w = crate::text::u64_to_dec(window as u64);
    r.append(w.as_str());
    r.append(".0");
    proof {
        assert(r@ =~= pane_target_spec(session@, window as nat));
    }
    r
}

/// One planned invocation: the fresh random identifier, the wrapped
/// command to inject, and the `cd`-preamble filter pattern when a working
/// directory was given.
pub struct ExecPlan {
    pub sentinel_id: String,
    pub wrapped_cmd: String,
    pub cd_pat: Option<String>,
}

impl ExecPlan {
    /// Whether this plan is well formed for `cmd` and `cwd`.
    pub open spec fn wf(self, cmd: Seq<char>, cwd: Option<Seq<char>>) -> bool {
        &&& valid_id(self.sentinel_id@)
        &&& self.wrapped_cmd@ == wrapped_spec(cmd, cwd, self.sentinel_id@)
        &&& match (self.cd_pat, cwd) {
            (Some(p), Some(d)) => p@ == cd_line_pat(d),
            (None, None) => true,
            _ => false,
        }
    }

    /// Plan one invocation: draw a fresh identifier and wrap the command.
    pub fn new(cmd: &str, cwd: Option<&str>) -> (r: Self)
        ensures
            r.wf(cmd@, opt_str_view(cwd)),
    {
        let sentinel_id = random_uuid_string();
        let wrapped_cmd = wrap_command(cmd, cwd, sentinel_id.as_str());
        let cd_pat = match cwd {
            Some(d) => Some(cd_pattern(d)),
            None => None,
        };
        Self { sentinel_id, wrapped_cmd, cd_pat }
    }
}

/// What one capture of the pane buffer decides.
pub enum PollVerdict {
    /// The sentinel is there: the command finished with this result.
    Done(CommandResult),
    /// The deadline has passed without a sentinel.
    TimedOut,
    /// Neither: capture again after the poll interval.
    Pending,
}

impl ExecPlan {
    /// Decide one poll step from a captured pane buffer and the elapsed
    /// time. The deadline is checked first, as the driver's loop does;
    /// within the deadline, the verdict is `Done` exactly when the buffer
    /// holds a sentinel line of this invocation, and the result then
    /// carries the exit code of the first such line and the cleaned
    /// output of the whole buffer.
    pub fn poll_step(&self, content: &str, elapsed_ms: u64) -> (v: PollVerdict)
        ensures
            (v is TimedOut) <==> elapsed_ms > EXEC_TIMEOUT_MS,
            elapsed_ms <= EXEC_TIMEOUT_MS ==> ((v is Done) <==> sentinel_found(
                content@,
                self.sentinel_id@,
            )),
            v matches PollVerdict::Done(res) ==> res.exit_code == capture_code(
                content@,
                self.sentinel_id@,
            ) && res.output@ == output_spec(content@, self.sentinel_id@, match self.cd_pat {
                Some(p) => Some(p@),
                None => None,
            }),
            v matches PollVerdict::Done(res) ==> (valid_id(self.sentinel_id@) ==> !contains_str(
                res.output@,
                exit_marker(),
            ) && !contains_str(res.output@, self.sentinel_id@)),
    {
        if elapsed_ms > EXEC_TIMEOUT_MS {
            return PollVerdict::TimedOut;
        }
        match find_sentinel(content, self.sentinel_id.as_str()) {
            Some(code) => {
                let output = clean_output(content, self.sentinel_id.as_str(), self.cd_pat.as_ref());
                proof {
                    if valid_id(self.sentinel_id@) {
                        lemma_valid_id_no_newline(self.sentinel_id@);
                        lemma_output_free_of_sentinel(
                            content@,
                            self.sentinel_id@,
                            match &self.cd_pat {
                                Some(p) => Some(p@),
                                None => None,
                            },
                        );
                    }
                }
                PollVerdict::Done(CommandResult { output, exit_code: code })
            },
            None => PollVerdict::Pending,
        }
    }
}

/// Two invocations against distinct panes cannot leak each other's
/// identifier: when neither pane's capture holds the other invocation's
/// random identifier, neither cleaned output does either.
pub proof fn lemma_concurrent_outputs_disjoint(
    content_a: Seq<char>,
    id_a: Seq<char>,
    pat_a: Option<Seq<char>>,
    content_b: Seq<char>,
    id_b: Seq<char>,
    pat_b: Option<Seq<char>>,
)
    requires
        valid_id(id_a),
        valid_id(id_b),
        !contains_str(content_a, id_b),
        !contains_str(content_b, id_a),
    ensures
        !contains_str(output_spec(content_a, id_a, pat_a), id_b),
        !contains_str(output_spec(content_b, id_b, pat_b), id_a),
{
    lemma_valid_id_no_newline(id_a);
    lemma_valid_id_no_newline(id_b);
    lemma_output_preserves_absence(content_a, id_a, pat_a, id_b);
    lemma_output_preserves_absence(content_b, id_b, pat_b, id_a);
}

/// What the driver does about the existence check on the target session.
pub enum PaneCheck {
    /// The session is there: go on.
    Proceed,
    /// The session is missing and may be created on demand.
    CreateFirst,
    /// The session is missing and must not be created here.
    Unavailable,
}

/// Decide the existence step: a present session is used as it is; a
/// missing one is created only in the auto-create mode.
pub fn pane_precheck(exists: bool, auto_create: bool) -> (r: PaneCheck)
    ensures
        (r is Proceed) <==> exists,
        (r is CreateFirst) <==> (!exists && auto_create),
        (r is Unavailable) <==> (!exists && !auto_create),
{
    if exists {
        PaneCheck::Proceed
    } else if auto_create {
        PaneCheck::CreateFirst
    } else {
        PaneCheck::Unavailable
    }
}

} // verus!
