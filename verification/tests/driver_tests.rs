use pocketcoder::driver::{
    pane_precheck, pane_target, CommandResult, ExecPlan, PaneCheck, PocketCoderDriver,
    PollVerdict, EXEC_TIMEOUT_MS, POLL_INTERVAL_MS, SETTLE_DELAY_MS,
};
use pocketcoder::http::{exec_error_response, timeout_error};
use pocketcoder::sentinel::{clean_output, find_sentinel, parse_line_code, wrap_command};

fn plan_with_id(cmd: &str, cwd: Option<&str>, id: &str) -> ExecPlan {
    let wrapped_cmd = wrap_command(cmd, cwd, id);
    let cd_pat = cwd.map(|d| {
        let mut p = String::from("cd \"");
        p.push_str(d);
        p.push('"');
        p
    });
    ExecPlan { sentinel_id: id.to_string(), wrapped_cmd, cd_pat }
}

#[test]
fn wrap_command_without_cwd() {
    // The subshell grouping keeps `exit N` from terminating the pane's
    // own shell, while `$?` still reflects the command.
    let w = wrap_command("false", None, "abc");
    assert_eq!(w, "(false); echo \"---POCKETCODER_EXIT:$?_ID:{abc}---\"");
}

#[test]
fn wrap_command_with_cwd() {
    let w = wrap_command("echo hello", Some("/tmp"), "abc");
    assert_eq!(
        w,
        "(cd \"/tmp\" && echo hello); echo \"---POCKETCODER_EXIT:$?_ID:{abc}---\""
    );
}

#[test]
fn echo_hello_scenario() {
    // A capture of the pane after `echo hello` ran in `/tmp`.
    let plan = plan_with_id("echo hello", Some("/tmp"), "abc");
    let content = "hello\n---POCKETCODER_EXIT:0_ID:{abc}---\n";
    match plan.poll_step(content, 1000) {
        PollVerdict::Done(CommandResult { output, exit_code }) => {
            assert_eq!(output, "hello");
            assert_eq!(exit_code, 0);
        },
        _ => panic!("expected completion"),
    }
}

#[test]
fn false_scenario_exit_code_one() {
    let plan = plan_with_id("false", None, "abc");
    let content = "---POCKETCODER_EXIT:1_ID:{abc}---\n";
    match plan.poll_step(content, 1000) {
        PollVerdict::Done(CommandResult { output, exit_code }) => {
            assert_eq!(output, "");
            assert_eq!(exit_code, 1);
        },
        _ => panic!("expected completion"),
    }
}

#[test]
fn exit_seven_scenario() {
    let plan = plan_with_id("exit 7", None, "abc");
    let content = "---POCKETCODER_EXIT:7_ID:{abc}---\n";
    match plan.poll_step(content, 1000) {
        PollVerdict::Done(CommandResult { output, exit_code }) => {
            assert_eq!(output, "");
            assert_eq!(exit_code, 7);
        },
        _ => panic!("expected completion"),
    }
}

#[test]
fn pane_shell_survives_follow_up() {
    // After `exit 7` the pane's own shell is still alive: a follow-up
    // capture for a fresh invocation still completes normally.
    let plan = plan_with_id("echo alive", None, "def");
    let content = "alive\n---POCKETCODER_EXIT:0_ID:{def}---\n";
    match plan.poll_step(content, 1000) {
        PollVerdict::Done(CommandResult { output, exit_code }) => {
            assert_eq!(output, "alive");
            assert_eq!(exit_code, 0);
        },
        _ => panic!("expected completion"),
    }
}

#[test]
fn timeout_scenario() {
    // `sleep 999` never echoes its sentinel; past the deadline the step
    // reports the timeout whatever the capture holds.
    let plan = plan_with_id("sleep 999", None, "abc");
    let content = "";
    assert!(matches!(
        plan.poll_step(content, EXEC_TIMEOUT_MS + 1),
        PollVerdict::TimedOut
    ));
    let resp = exec_error_response(timeout_error());
    assert_eq!(resp.error.as_deref(), Some("Command execution timed out (Sandbox)."));
    assert_eq!(resp.exit_code, Some(1));
}

#[test]
fn pending_before_sentinel() {
    let plan = plan_with_id("sleep 1", None, "abc");
    assert!(matches!(plan.poll_step("still running\n", 1000), PollVerdict::Pending));
}

#[test]
fn output_filters_sentinel_and_cd_lines() {
    let content = "cd \"/tmp\" && ls; echo wrapped\nfile1\nfile2\n---POCKETCODER_EXIT:0_ID:{abc}---\n";
    let pat = String::from("cd \"/tmp\"");
    let out = clean_output(content, "abc", Some(&pat));
    assert_eq!(out, "file1\nfile2");
    assert!(!out.contains("POCKETCODER_EXIT"));
    assert!(!out.contains("abc"));
}

#[test]
fn output_of_foreign_pane_keeps_nothing_of_this_call() {
    // A capture that never held the other invocation's identifier cannot
    // leak it into this one's output.
    let content = "plain text\n---POCKETCODER_EXIT:0_ID:{abc}---\n";
    let out = clean_output(content, "abc", None);
    assert!(!out.contains("other-id"));
    assert_eq!(out, "plain text");
}

#[test]
fn sentinel_not_found_for_other_id() {
    let content = "---POCKETCODER_EXIT:0_ID:{abc}---\n";
    assert_eq!(find_sentinel(content, "zzz"), None);
    assert_eq!(find_sentinel(content, "abc"), Some(0));
}

#[test]
fn parse_line_code_shapes() {
    assert_eq!(parse_line_code("---POCKETCODER_EXIT:42_ID:{x}---"), 42);
    assert_eq!(parse_line_code("---POCKETCODER_EXIT:$?_ID:{x}---"), 0);
    assert_eq!(parse_line_code("no marker here"), 0);
    assert_eq!(parse_line_code("---POCKETCODER_EXIT:255_ID:{x}---"), 255);
    assert_eq!(parse_line_code("prompt$ ---POCKETCODER_EXIT:7_ID:{x}---"), 7);
}

#[test]
fn plan_draws_a_well_formed_identifier() {
    let a = ExecPlan::new("true", None);
    let b = ExecPlan::new("true", None);
    assert_eq!(a.sentinel_id.len(), 36);
    assert!(a
        .sentinel_id
        .chars()
        .all(|c| c == '-' || c.is_ascii_hexdigit()));
    assert_ne!(a.sentinel_id, b.sentinel_id);
    assert!(a.wrapped_cmd.contains(&a.sentinel_id));
    assert!(a.cd_pat.is_none());
}

#[test]
fn pane_target_format() {
    assert_eq!(pane_target("pc-test123", 5), "pc-test123:5.0");
    assert_eq!(pane_target("main", 0), "main:0.0");
}

#[test]
fn driver_construction() {
    let d = PocketCoderDriver::new("/tmp/test-tmux.sock", "test-session");
    assert_eq!(d.socket_path, "/tmp/test-tmux.sock");
    assert_eq!(d.session_name, "test-session");
    assert!(!d.auto_create);
}

#[test]
fn precheck_policy() {
    assert!(matches!(pane_precheck(true, false), PaneCheck::Proceed));
    assert!(matches!(pane_precheck(true, true), PaneCheck::Proceed));
    assert!(matches!(pane_precheck(false, true), PaneCheck::CreateFirst));
    assert!(matches!(pane_precheck(false, false), PaneCheck::Unavailable));
}

#[test]
fn timing_constants() {
    assert_eq!(EXEC_TIMEOUT_MS, 300_000);
    assert_eq!(POLL_INTERVAL_MS, 200);
    assert_eq!(SETTLE_DELAY_MS, 300);
}
