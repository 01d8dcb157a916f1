//! The shell client: turn a local invocation's argv into the one command
//! string the proxy runs, and turn the proxy's reply into what the local
//! process prints and exits with. The HTTP POST and the process exit are
//! the surrounding process's; every rule is here.

use vstd::prelude::*;
use crate::http::ExecResponse;
use crate::text::{last_char_idx, lemma_last_char_idx, rfind_char, str_eq};

verus! {

/// One character under single-quote escaping: a quote becomes the
/// close-escape-reopen sequence `'\''`, anything else stands as it is.
pub open spec fn esc_quote(c: char) -> Seq<char> {
    if c == '\'' {
        seq!['\'', '\\', '\'', '\'']
    } else {
        seq![c]
    }
}

/// A string under single-quote escaping.
pub open spec fn escaped(s: Seq<char>) -> Seq<char>
    decreases s.len(),
{
    if s.len() == 0 {
        Seq::empty()
    } else {
        escaped(s.drop_last()) + esc_quote(s.last())
    }
}

/// An argument quoted the way the shell client quotes it: wrapped in
/// single quotes, with embedded quotes escaped.
pub open spec fn quoted_spec(s: Seq<char>) -> Seq<char> {
    seq!['\''] + escaped(s) + seq!['\'']
}

/// Quote one argument for the rejoined command line.
pub fn quote_arg(s: &str) -> (r: String)
    ensures
        r@ == quoted_spec(s@),
{
    proof {
        reveal_strlit("'");
        reveal_strlit("'\\''");
    }
    let mut r = String::from_str("'");
    let n = s.unicode_len();
    let mut i: usize = 0;
    proof {
        assert(escaped(s@.subrange(0, 0)) =~= Seq::<char>::empty());
        assert(r@ =~= seq!['\''] + escaped(s@.subrange(0, 0)));
    }
    while i < n
        invariant
            i <= n,
            n == s@.len(),
            r@ =~= seq!['\''] + escaped(s@.subrange(0, i as int)),
        decreases n - i,
    {
        let c = s.get_char(i);
        if c == '\'' {
            r.append("'\\''");
            proof {
                reveal_strlit("'\\''");
                assert("'\\''"@ =~= seq!['\'', '\\', '\'', '\'']);
            }
        } else {
            r.append(s.substring_char(i, i + 1));
        }
        proof {
            assert(s@.subrange(0, i + 1).drop_last() =~= s@.subrange(0, i as int));
            assert(s@.subrange(0, i + 1).last() == s@[i as int]);
            assert(s@.subrange(i as int, i + 1) =~= seq![s@[i as int]]);
            assert(r@ =~= seq!['\''] + escaped(s@.subrange(0, i + 1)));
        }
        i += 1;
    }
    r.append("'");
    proof {
        reveal_strlit("'");
        assert(s@.subrange(0, n as int) =~= s@);
        assert(r@ =~= quoted_spec(s@));
    }
    r
}

/// Each argument quoted, in order.
pub open spec fn quoted_all(args: Seq<Seq<char>>) -> Seq<Seq<char>> {
    args.map_values(|a: Seq<char>| quoted_spec(a))
}

/// The positional arguments rejoined as one command line: each argument
/// quoted, the arguments separated by single spaces.
pub open spec fn rejoined_spec(args: Seq<Seq<char>>) -> Seq<char> {
    crate::text::join_with(quoted_all(args), ' ')
}

/// Rejoin positional arguments into one command line.
pub fn rejoin_args(args: &Vec<String>) -> (r: String)
    ensures
        r@ == rejoined_spec(args.deep_view()),
{
    let mut quoted: Vec<String> = Vec::new();
    let n = args.len();
    let mut i: usize = 0;
    proof {
        assert(quoted.deep_view() =~= quoted_all(args.deep_view().subrange(0, 0)));
    }
    while i < n
        invariant
            i <= n,
            n == args.len(),
            quoted.deep_view() =~= quoted_all(args.deep_view().subrange(0, i as int)),
        decreases n - i,
    {
        let q = quote_arg(args[i].as_str());
        let ghost pre_v = quoted@;
        let ghost pre_dv = quoted.deep_view();
        quoted.push(q);
        proof {
            let av = args.deep_view();
            assert(pre_dv == Seq::new(pre_v.len(), |k: int| pre_v[k]@));
            assert(pre_dv.len() == pre_v.len());
            assert(quoted.deep_view().len() == quoted@.len());
            assert(quoted@.len() == i + 1);
            assert(av.subrange(0, i + 1) =~= av.subrange(0, i as int).push(av[i as int]));
            assert(av[i as int] == args@[i as int]@);
            assert forall|j: int| 0 <= j < i + 1 implies quoted.deep_view()[j] == quoted_all(
                av.subrange(0, i + 1),
            )[j] by {
                assert(quoted_all(av.subrange(0, i + 1))[j] == quoted_spec(
                    av.subrange(0, i + 1)[j],
                ));
                assert(quoted.deep_view()[j] == quoted@[j]@);
                if j < i {
                    assert(quoted@[j] == pre_v[j]);
                    assert(pre_dv[j] == pre_v[j]@);
                    assert(pre_dv[j] == quoted_all(av.subrange(0, i as int))[j]);
                } else {
                    assert(quoted@[j] == q);
                }
            }
            assert(quoted.deep_view() =~= quoted_all(av.subrange(0, i + 1)));
        }
        i += 1;
    }
    proof {
        assert(args.deep_view().subrange(0, n as int) =~= args.deep_view());
        reveal_strlit(" ");
    }
    let sep = " ";
    crate::text::join_with_str(&quoted, sep)
}

/// What the shell client makes of argv: the command string to POST, or
/// the firewall refusal of an interactive invocation.
pub enum Canonical {
    /// The one command string.
    Command(String),
    /// Nothing may be run: an interactive or raw invocation.
    Blocked,
}

/// Canonicalise a `shell` invocation, the way the proxy's `shell`
/// subcommand does. A `-c` pair carries the sacred string, taken exactly
/// as passed; other non-empty argv is rejoined under quoting; an empty
/// invocation is blocked.
pub fn canonical_command(command: Option<String>, args: &Vec<String>) -> (r: Canonical)
    ensures
        command matches Some(c) ==> (r matches Canonical::Command(s) && s@ == c@),
        command is None && args@.len() == 0 ==> r is Blocked,
        command is None && args@.len() >= 2 && args.deep_view()[0] == "-c"@ ==> (r matches
            Canonical::Command(s) && s@ == args.deep_view()[1]),
        command is None && args@.len() == 1 ==> (r matches Canonical::Command(s) && s@
            == rejoined_spec(args.deep_view())),
        command is None && args@.len() >= 2 && args.deep_view()[0] != "-c"@ ==> (r matches
            Canonical::Command(s) && s@ == rejoined_spec(args.deep_view())),
{
    if let Some(c) = command {
        return Canonical::Command(c);
    }
    if args.len() == 0 {
        return Canonical::Blocked;
    }
    if args.len() >= 2 && str_eq(args[0].as_str(), "-c") {
        proof {
            assert(args.deep_view()[0] == args@[0]@);
            assert(args.deep_view()[1] == args@[1]@);
        }
        return Canonical::Command(args[1].clone());
    }
    proof {
        assert(args.deep_view()[0] == args@[0]@);
    }
    Canonical::Command(rejoin_args(args))
}

/// The final path component: everything after the last `/`.
pub open spec fn basename_spec(s: Seq<char>) -> Seq<char> {
    s.subrange(last_char_idx(s, '/') + 1, s.len() as int)
}

/// The final path component of the invoked program, used when a tool is
/// called by its absolute path.
pub fn basename(s: &str) -> (r: String)
    ensures
        r@ == basename_spec(s@),
{
    let n = s.unicode_len();
    match rfind_char(s, '/') {
        Some(k) => String::from_str(s.substring_char(k + 1, n)),
        None => {
            proof {
                assert(s@.subrange(0, n as int) =~= s@);
            }
            String::from_str(s)
        },
    }
}

/// The direct-tool command line of the bridge binary: the program's
/// basename, then each argument quoted, space-separated.
pub open spec fn bridge_cmd_spec(prog: Seq<char>, args: Seq<Seq<char>>) -> Seq<char>
    decreases args.len(),
{
    if args.len() == 0 {
        basename_spec(prog)
    } else {
        bridge_cmd_spec(prog, args.drop_last()) + seq![' '] + quoted_spec(args.last())
    }
}

/// Build the direct-tool command line from the program path and its
/// arguments.
pub fn bridge_command(prog: &str, args: &Vec<String>) -> (r: String)
    ensures
        r@ == bridge_cmd_spec(prog@, args.deep_view()),
{
    proof {
        reveal_strlit(" ");
    }
    let mut r = basename(prog);
    let n = args.len();
    let mut i: usize = 0;
    proof {
        assert(args.deep_view().subrange(0, 0) =~= Seq::<Seq<char>>::empty());
        assert(r@ =~= bridge_cmd_spec(prog@, args.deep_view().subrange(0, 0)));
    }
    while i < n
        invariant
            i <= n,
            n == args.len(),
            r@ =~= bridge_cmd_spec(prog@, args.deep_view().subrange(0, i as int)),
        decreases n - i,
    {
        r.append(" ");
        let q = quote_arg(args[i].as_str());
        r.append(q.as_str());
        proof {
            reveal_strlit(" ");
            let av = args.deep_view();
            assert(av.subrange(0, i + 1).drop_last() =~= av.subrange(0, i as int));
            assert(av.subrange(0, i + 1).last() == av[i as int]);
            assert(av[i as int] == args@[i as int]@);
            assert(r@ =~= bridge_cmd_spec(prog@, av.subrange(0, i + 1)));
        }
        i += 1;
    }
    proof {
        assert(args.deep_view().subrange(0, n as int) =~= args.deep_view());
    }
    r
}

/// What the local process does with the proxy's reply.
pub enum ShellVerdict {
    /// The proxy reported an in-band error: print it as the firewall
    /// notice and exit non-zero.
    Failure(String),
    /// Print the stdout, when there is one, and exit with the code,
    /// 0 when none was given.
    Output { stdout: Option<String>, exit_code: i32 },
}

/// Decide the local outcome from a proxy reply: an error wins; else the
/// stdout passes through and the exit code defaults to 0.
pub fn shell_verdict(resp: ExecResponse) -> (v: ShellVerdict)
    ensures
        resp.error matches Some(e) ==> (v matches ShellVerdict::Failure(m) && m@ == e@),
        resp.error is None ==> (v matches ShellVerdict::Output { stdout, exit_code } && (match (
            resp.stdout,
            stdout,
        ) {
            (Some(a), Some(b)) => a@ == b@,
            (None, None) => true,
            _ => false,
        }) && exit_code == (match resp.exit_code {
            Some(c) => c,
            None => 0,
        })),
{
    if let Some(e) = resp.error {
        return ShellVerdict::Failure(e);
    }
    let exit_code = match resp.exit_code {
        Some(c) => c,
        None => 0,
    };
    ShellVerdict::Output { stdout: resp.stdout, exit_code }
}

/// The firewall notice for an interactive or raw invocation.
pub fn firewall_blocked_message() -> (r: String)
    ensures
        r@
            == "[Firewall Blocked]: Interactive or raw shell invocation is restricted for security. Always execute commands via 'bash -c \"command\"'."@,
{
    String::from_str(
        "[Firewall Blocked]: Interactive or raw shell invocation is restricted for security. Always execute commands via 'bash -c \"command\"'.",
    )
}

/// The proxy's base URL when the environment names none.
pub fn default_proxy_url() -> (r: &'static str)
    ensures
        r@ == "http://proxy:3001"@,
{
    "http://proxy:3001"
}

/// The execution endpoint under a proxy base URL.
pub fn exec_url(base: &str) -> (r: String)
    ensures
        r@ == base@ + "/exec"@,
{
    let mut r = String::from_str(base);
    r.append("/exec");
    proof {
        assert(r@ =~= base@ + "/exec"@);
    }
    r
}

} // verus!
