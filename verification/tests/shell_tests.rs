use pocketcoder::http::ExecResponse;
use pocketcoder::shell::{
    basename, bridge_command, canonical_command, default_proxy_url, exec_url,
    firewall_blocked_message, quote_arg, rejoin_args, shell_verdict, Canonical, ShellVerdict,
};

fn strings(args: &[&str]) -> Vec<String> {
    args.iter().map(|s| s.to_string()).collect()
}

#[test]
fn sacred_string_is_never_requoted() {
    // `sh -c "<cmd>"` carries the command as one shell argument already.
    let args = strings(&["-c", "echo 'it is' \"done\""]);
    match canonical_command(None, &args) {
        Canonical::Command(c) => assert_eq!(c, "echo 'it is' \"done\""),
        _ => panic!("expected a command"),
    }
    // An explicit command wins outright.
    match canonical_command(Some("ls -l".to_string()), &strings(&["ignored"])) {
        Canonical::Command(c) => assert_eq!(c, "ls -l"),
        _ => panic!("expected a command"),
    }
}

#[test]
fn positional_args_are_quoted_and_joined() {
    let args = strings(&["grep", "a b", "it's"]);
    match canonical_command(None, &args) {
        Canonical::Command(c) => assert_eq!(c, "'grep' 'a b' 'it'\\''s'"),
        _ => panic!("expected a command"),
    }
}

#[test]
fn empty_invocation_is_blocked() {
    assert!(matches!(canonical_command(None, &Vec::new()), Canonical::Blocked));
    assert!(firewall_blocked_message().contains("[Firewall Blocked]"));
}

#[test]
fn quoting_escapes_single_quotes() {
    assert_eq!(quote_arg("plain"), "'plain'");
    assert_eq!(quote_arg("it's"), "'it'\\''s'");
    assert_eq!(quote_arg(""), "''");
    assert_eq!(rejoin_args(&strings(&["a", "b"])), "'a' 'b'");
}

#[test]
fn bridge_command_uses_basename() {
    assert_eq!(basename("/usr/bin/glob"), "glob");
    assert_eq!(basename("glob"), "glob");
    let cmd = bridge_command("/usr/bin/glob", &strings(&["src/*.rs", "-n"]));
    assert_eq!(cmd, "glob 'src/*.rs' '-n'");
}

#[test]
fn verdict_propagates_error_before_output() {
    let resp = ExecResponse {
        stdout: Some("ignored".to_string()),
        exit_code: Some(0),
        error: Some("denied".to_string()),
    };
    match shell_verdict(resp) {
        ShellVerdict::Failure(m) => assert_eq!(m, "denied"),
        _ => panic!("expected a failure"),
    }
}

#[test]
fn verdict_defaults_exit_code_to_zero() {
    let resp = ExecResponse { stdout: Some("hi".to_string()), exit_code: None, error: None };
    match shell_verdict(resp) {
        ShellVerdict::Output { stdout, exit_code } => {
            assert_eq!(stdout.as_deref(), Some("hi"));
            assert_eq!(exit_code, 0);
        },
        _ => panic!("expected output"),
    }
    let resp = ExecResponse { stdout: None, exit_code: Some(7), error: None };
    match shell_verdict(resp) {
        ShellVerdict::Output { stdout, exit_code } => {
            assert_eq!(stdout, None);
            assert_eq!(exit_code, 7);
        },
        _ => panic!("expected output"),
    }
}

#[test]
fn proxy_urls() {
    assert_eq!(default_proxy_url(), "http://proxy:3001");
    assert_eq!(exec_url("http://proxy:3001"), "http://proxy:3001/exec");
}
