//! The sentinel protocol of the pane driver: wrapping a command so that
//! the pane echoes a completion marker carrying the exit status, finding
//! that marker in a captured pane buffer, and rebuilding the clean output.

use vstd::prelude::*;
use crate::text::{
    all_digits, contains_str, dec_spec, dec_val, find_char_from, find_str_from,
    first_char_from, first_occurrence_from, is_digit_char, join_lines, join_with,
    lemma_dec_spec_roundtrip, lemma_first_char_from, lemma_first_occurrence_from,
    lemma_join_no_needle, lemma_line_contains, lemma_trim_contains, lines_spec, occurs_at,
    parse_code_digits, split_lines, str_contains, trim_spec, trim_str,
};

verus! {

/// The fixed completion-marker prefix every sentinel line carries.
pub open spec fn exit_marker() -> Seq<char> {
    "POCKETCODER_EXIT"@
}

/// The marker prefix as an executable slice.
pub fn exit_marker_str() -> (r: &'static str)
    ensures
        r@ == exit_marker(),
{
    "POCKETCODER_EXIT"
}

/// The view of an optional slice.
pub open spec fn opt_str_view(o: Option<&str>) -> Option<Seq<char>> {
    match o {
        Some(s) => Some(s@),
        None => None,
    }
}

/// The command with the working-directory preamble, when one is asked for:
/// `cd "<cwd>" && <cmd>`.
pub open spec fn cd_prefixed(cmd: Seq<char>, cwd: Option<Seq<char>>) -> Seq<char> {
    match cwd {
        Some(d) => "cd \""@ + d + "\" && "@ + cmd,
        None => cmd,
    }
}

/// The full wrapped command injected into the pane: the (possibly
/// `cd`-prefixed) command grouped in a subshell, then an `echo` of the
/// sentinel carrying `$?`. The grouping keeps a command such as `exit 7`
/// from terminating the pane's own interactive shell, while `$?` in the
/// sentinel still reflects the command, not the subshell.
pub open spec fn wrapped_spec(cmd: Seq<char>, cwd: Option<Seq<char>>, id: Seq<char>) -> Seq<char> {
    "("@ + cd_prefixed(cmd, cwd) + "); echo \"---POCKETCODER_EXIT:$?_ID:{"@ + id + "}---\""@
}

/// Build the wrapped command for one invocation.
pub fn wrap_command(cmd: &str, cwd: Option<&str>, id: &str) -> (r: String)
    ensures
        r@ == wrapped_spec(cmd@, opt_str_view(cwd), id@),
{
    let mut r = String::from_str("(");
    match cwd {
        Some(d) => {
            r.append("cd \"");
            r.append(d);
            r.append("\" && ");
            r.append(cmd);
        },
        None => {
            r.append(cmd);
        },
    };
    r.append("); echo \"---POCKETCODER_EXIT:$?_ID:{");
    r.append(id);
    r.append("}---\"");
    proof {
        assert(r@ =~= wrapped_spec(cmd@, opt_str_view(cwd), id@));
    }
    r
}

/// The line filtered from the output when a working directory was used:
/// any line holding the literal `cd "<cwd>"`.
pub open spec fn cd_line_pat(cwd: Seq<char>) -> Seq<char> {
    "cd \""@ + cwd + "\""@
}

/// Build the `cd "<cwd>"` filter pattern.
pub fn cd_pattern(cwd: &str) -> (r: String)
    ensures
        r@ == cd_line_pat(cwd@),
{
    let mut r = String::from_str("cd \"");
    r.append(cwd);
    r.append("\"");
    proof {
        assert(r@ =~= cd_line_pat(cwd@));
    }
    r
}

/// Index of the first character at or after `i` that ends the code field:
/// an underscore or a colon; `s.len()` if there is none.
pub open spec fn first_code_end(s: Seq<char>, i: int) -> int
    decreases s.len() - i,
{
    if !(0 <= i < s.len()) {
        s.len() as int
    } else if s[i] == '_' || s[i] == ':' {
        i
    } else {
        first_code_end(s, i + 1)
    }
}

pub proof fn lemma_first_code_end(s: Seq<char>, i: int)
    requires
        0 <= i <= s.len(),
    ensures
        i <= first_code_end(s, i) <= s.len(),
        first_code_end(s, i) < s.len() ==> (s[first_code_end(s, i)] == '_' || s[first_code_end(
            s,
            i,
        )] == ':'),
        forall|j: int| i <= j < first_code_end(s, i) ==> s[j] != '_' && s[j] != ':',
    decreases s.len() - i,
{
    if i < s.len() && !(s[i] == '_' || s[i] == ':') {
        lemma_first_code_end(s, i + 1);
    }
}

proof fn lemma_first_code_end_unique(s: Seq<char>, from: int, i: int)
    requires
        0 <= from <= i <= s.len(),
        i < s.len() ==> (s[i] == '_' || s[i] == ':'),
        forall|j: int| from <= j < i ==> s[j] != '_' && s[j] != ':',
    ensures
        first_code_end(s, from) == i,
{
    lemma_first_code_end(s, from);
    let f = first_code_end(s, from);
    if f < i {
        assert(s[f] != '_' && s[f] != ':');
    }
    if i < f {
        assert(s[i] != '_' && s[i] != ':');
    }
}

/// First index at or after `from` holding `'_'` or `':'`, or `s.len()`.
pub fn find_code_end(s: &str, from: usize) -> (r: usize)
    requires
        from <= s@.len(),
    ensures
        r == first_code_end(s@, from as int),
        from <= r <= s@.len(),
{
    proof {
        lemma_first_code_end(s@, from as int);
    }
    let n = s.unicode_len();
    let mut i: usize = from;
    while i < n
        invariant
            from <= i <= n,
            n == s@.len(),
            forall|j: int| from <= j < i ==> s@[j] != '_' && s@[j] != ':',
        decreases n - i,
    {
        let c = s.get_char(i);
        if c == '_' || c == ':' {
            proof {
                lemma_first_code_end_unique(s@, from as int, i as int);
            }
            return i;
        }
        i += 1;
    }
    proof {
        lemma_first_code_end_unique(s@, from as int, n as int);
    }
    n
}

proof fn lemma_first_occurrence_unique(s: Seq<char>, pat: Seq<char>, from: int, i: int)
    requires
        0 <= from <= i,
        occurs_at(s, pat, i),
        forall|j: int| from <= j < i ==> !occurs_at(s, pat, j),
    ensures
        first_occurrence_from(s, pat, from) == i,
{
    lemma_first_occurrence_from(s, pat, from);
    let f = first_occurrence_from(s, pat, from);
    if f < i {
        assert(!occurs_at(s, pat, f));
    }
    if i < f {
        assert(!occurs_at(s, pat, i));
    }
}

/// The exit code read from one line, as the driver reads it: find the
/// marker, then the first colon at or after it, take the field up to the
/// next underscore or colon, and read it as a decimal number; anything
/// malformed gives 0.
pub open spec fn code_of_line(l: Seq<char>) -> int {
    let p = first_occurrence_from(l, exit_marker(), 0);
    let c = first_char_from(l, ':', p);
    if c >= l.len() {
        0
    } else {
        let e = first_code_end(l, c + 1);
        let field = l.subrange(c + 1, e);
        if field.len() > 0 && all_digits(field) && dec_val(field) <= i32::MAX {
            dec_val(field)
        } else {
            0
        }
    }
}

/// Read the exit code out of one captured line.
pub fn parse_line_code(l: &str) -> (r: i32)
    ensures
        r == code_of_line(l@),
{
    let n = l.unicode_len();
    let marker = exit_marker_str();
    let p: usize = match find_str_from(l, marker, 0) {
        Some(p) => {
            proof {
                lemma_first_occurrence_unique(l@, exit_marker(), 0, p as int);
            }
            p
        },
        None => {
            proof {
                lemma_first_occurrence_from(l@, exit_marker(), 0);
                let f = first_occurrence_from(l@, exit_marker(), 0);
                if f < l@.len() {
                    assert(occurs_at(l@, exit_marker(), f));
                }
                lemma_first_char_from(l@, ':', l@.len() as int);
            }
            return 0;
        },
    };
    proof {
        assert(p + exit_marker().len() <= l@.len());
    }
    let c = find_char_from(l, ':', p);
    if c == n {
        return 0;
    }
    proof {
        lemma_first_char_from(l@, ':', p as int);
    }
    let e = find_code_end(l, c + 1);
    let field = l.substring_char(c + 1, e);
    parse_code_digits(field)
}

/// A captured line that signals completion: it holds both the marker
/// prefix and the invocation's random identifier.
pub open spec fn is_sentinel_line(l: Seq<char>, id: Seq<char>) -> bool {
    contains_str(l, exit_marker()) && contains_str(l, id)
}

/// Index of the first sentinel line at or after `i`, or `ls.len()`.
pub open spec fn first_sentinel_from(ls: Seq<Seq<char>>, id: Seq<char>, i: int) -> int
    decreases ls.len() - i,
{
    if !(0 <= i < ls.len()) {
        ls.len() as int
    } else if is_sentinel_line(ls[i], id) {
        i
    } else {
        first_sentinel_from(ls, id, i + 1)
    }
}

pub proof fn lemma_first_sentinel_from(ls: Seq<Seq<char>>, id: Seq<char>, i: int)
    requires
        0 <= i <= ls.len(),
    ensures
        i <= first_sentinel_from(ls, id, i) <= ls.len(),
        first_sentinel_from(ls, id, i) < ls.len() ==> is_sentinel_line(
            ls[first_sentinel_from(ls, id, i)],
            id,
        ),
        forall|j: int| i <= j < first_sentinel_from(ls, id, i) ==> !is_sentinel_line(ls[j], id),
    decreases ls.len() - i,
{
    if i < ls.len() && !is_sentinel_line(ls[i], id) {
        lemma_first_sentinel_from(ls, id, i + 1);
    }
}

proof fn lemma_first_sentinel_unique(ls: Seq<Seq<char>>, id: Seq<char>, i: int)
    requires
        0 <= i <= ls.len(),
        i < ls.len() ==> is_sentinel_line(ls[i], id),
        forall|j: int| 0 <= j < i ==> !is_sentinel_line(ls[j], id),
    ensures
        first_sentinel_from(ls, id, 0) == i,
{
    lemma_first_sentinel_from(ls, id, 0);
    let f = first_sentinel_from(ls, id, 0);
    if f < i {
        assert(!is_sentinel_line(ls[f], id));
    }
    if i < f && i < ls.len() {
        assert(!is_sentinel_line(ls[i], id));
    }
}

/// Whether the captured buffer holds a sentinel line for `id`.
pub open spec fn sentinel_found(content: Seq<char>, id: Seq<char>) -> bool {
    first_sentinel_from(lines_spec(content), id, 0) < lines_spec(content).len()
}

/// The exit code the capture reports: the code of its first sentinel line.
pub open spec fn capture_code(content: Seq<char>, id: Seq<char>) -> int {
    code_of_line(lines_spec(content)[first_sentinel_from(lines_spec(content), id, 0)])
}

/// Search the captured pane buffer for the sentinel of this invocation;
/// when it is there, return the exit code it carries.
pub fn find_sentinel(content: &str, id: &str) -> (r: Option<i32>)
    ensures
        r is Some <==> sentinel_found(content@, id@),
        r is Some ==> r->0 == capture_code(content@, id@),
{
    let lines = split_lines(content);
    let marker = exit_marker_str();
    let n = lines.len();
    let mut i: usize = 0;
    while i < n
        invariant
            i <= n,
            n == lines.deep_view().len(),
            lines.deep_view() == lines_spec(content@),
            marker@ == exit_marker(),
            forall|j: int| 0 <= j < i ==> !is_sentinel_line(lines_spec(content@)[j], id@),
        decreases n - i,
    {
        let line = &lines[i];
        proof {
            assert(lines.deep_view()[i as int] == lines@[i as int]@);
        }
        if str_contains(line.as_str(), marker) && str_contains(line.as_str(), id) {
            let code = parse_line_code(line.as_str());
            proof {
                lemma_first_sentinel_unique(lines_spec(content@), id@, i as int);
            }
            return Some(code);
        }
        i += 1;
    }
    proof {
        lemma_first_sentinel_unique(lines_spec(content@), id@, n as int);
    }
    None
}

/// A line kept in the cleaned output: free of the marker, of the random
/// identifier, and of the `cd` preamble when one was used.
pub open spec fn keep_line(l: Seq<char>, id: Seq<char>, pat: Option<Seq<char>>) -> bool {
    &&& !contains_str(l, exit_marker())
    &&& !contains_str(l, id)
    &&& match pat {
        Some(p) => !contains_str(l, p),
        None => true,
    }
}

/// The line filter of a given invocation, as a predicate on lines.
pub open spec fn keep_pred(id: Seq<char>, pat: Option<Seq<char>>) -> spec_fn(Seq<char>) -> bool {
    |l: Seq<char>| keep_line(l, id, pat)
}

/// The cleaned output of a capture: drop every marker, identifier and
/// `cd`-preamble line, join the rest with newlines, and trim the ends.
pub open spec fn output_spec(content: Seq<char>, id: Seq<char>, pat: Option<Seq<char>>) -> Seq<
    char,
> {
    trim_spec(join_with(lines_spec(content).filter(keep_pred(id, pat)), '\n'))
}

/// Rebuild the clean output from a captured buffer.
pub fn clean_output(content: &str, id: &str, cd_pat: Option<&String>) -> (r: String)
    ensures
        r@ == output_spec(content@, id@, match cd_pat {
            Some(p) => Some(p@),
            None => None,
        }),
{
    let ghost pat: Option<Seq<char>> = match cd_pat {
        Some(p) => Some(p@),
        None => None,
    };
    let marker = exit_marker_str();
    let lines = split_lines(content);
    let mut kept: Vec<String> = Vec::new();
    let n = lines.len();
    let mut i: usize = 0;
    proof {
        reveal(Seq::filter);
        assert(lines.deep_view().subrange(0, 0) =~= Seq::<Seq<char>>::empty());
        assert(kept.deep_view() =~= Seq::<Seq<char>>::empty());
    }
    while i < n
        invariant
            i <= n,
            n == lines.deep_view().len(),
            lines.deep_view() == lines_spec(content@),
            marker@ == exit_marker(),
            pat == (match cd_pat {
                Some(p) => Some(p@),
                None => None,
            }),
            kept.deep_view() == lines.deep_view().subrange(0, i as int).filter(
                keep_pred(id@, pat),
            ),
        decreases n - i,
    {
        let line = &lines[i];
        proof {
            assert(lines.deep_view()[i as int] == lines@[i as int]@);
        }
        let mut keep = !str_contains(line.as_str(), marker) && !str_contains(line.as_str(), id);
        if keep {
            if let Some(p) = cd_pat {
                keep = !str_contains(line.as_str(), p.as_str());
            }
        }
        let ghost pre = lines.deep_view().subrange(0, i as int);
        if keep {
            kept.push(line.clone());
        }
        proof {
            reveal(Seq::filter);
            let lv = lines.deep_view();
            assert(keep == keep_line(lv[i as int], id@, pat));
            assert(lv.subrange(0, i + 1).drop_last() =~= pre);
            assert(lv.subrange(0, i + 1).last() == lv[i as int]);
            if keep {
                assert(kept.deep_view() =~= pre.filter(keep_pred(id@, pat)).push(lv[i as int]));
            }
        }
        i += 1;
    }
    proof {
        assert(lines.deep_view().subrange(0, n as int) =~= lines.deep_view());
    }
    let joined = join_lines(&kept);
    trim_str(joined.as_str())
}

/// The marker prefix holds no newline, so a multi-line join cannot form
/// it across a line boundary.
proof fn lemma_marker_shape()
    ensures
        exit_marker().len() == 16,
        !exit_marker().contains('\n'),
{
    reveal_strlit("POCKETCODER_EXIT");
    assert forall|i: int| 0 <= i < exit_marker().len() implies exit_marker()[i] != '\n' by {}
}

/// The cleaned output never holds the sentinel marker, nor the random
/// identifier of its own invocation, whatever the captured buffer was.
pub proof fn lemma_output_free_of_sentinel(
    content: Seq<char>,
    id: Seq<char>,
    pat: Option<Seq<char>>,
)
    requires
        id.len() > 0,
        !id.contains('\n'),
    ensures
        !contains_str(output_spec(content, id, pat), exit_marker()),
        !contains_str(output_spec(content, id, pat), id),
{
    lemma_marker_shape();
    let pred = keep_pred(id, pat);
    let ls = lines_spec(content);
    let kept = ls.filter(pred);
    let joined = join_with(kept, '\n');
    assert forall|i: int| 0 <= i < kept.len() implies !contains_str(#[trigger] kept[i], exit_marker())
        && !contains_str(kept[i], id) by {
        ls.lemma_filter_pred(pred, i);
        assert(keep_line(kept[i], id, pat));
    }
    lemma_join_no_needle(kept, '\n', exit_marker());
    lemma_join_no_needle(kept, '\n', id);
    if contains_str(output_spec(content, id, pat), exit_marker()) {
        lemma_trim_contains(joined, exit_marker());
    }
    if contains_str(output_spec(content, id, pat), id) {
        lemma_trim_contains(joined, id);
    }
}

/// A newline-free needle that a captured buffer does not hold — another
/// invocation's identifier, say — does not appear in the cleaned output
/// built from that buffer.
pub proof fn lemma_output_preserves_absence(
    content: Seq<char>,
    id: Seq<char>,
    pat: Option<Seq<char>>,
    x: Seq<char>,
)
    requires
        !contains_str(content, x),
        !x.contains('\n'),
        x.len() > 0,
    ensures
        !contains_str(output_spec(content, id, pat), x),
{
    let pred = keep_pred(id, pat);
    let ls = lines_spec(content);
    let kept = ls.filter(pred);
    let joined = join_with(kept, '\n');
    assert forall|i: int| 0 <= i < kept.len() implies !contains_str(#[trigger] kept[i], x) by {
        crate::text::lemma_filter_elems(ls, pred, i);
        let j = choose|j: int| 0 <= j < ls.len() && ls[j] == kept[i];
        if contains_str(kept[i], x) {
            lemma_line_contains(content, j, x);
        }
    }
    lemma_join_no_needle(kept, '\n', x);
    if contains_str(output_spec(content, id, pat), x) {
        lemma_trim_contains(joined, x);
    }
}

/// The exact sentinel line the wrapped command echoes once the command
/// exits with status `e`.
pub open spec fn sentinel_line_spec(e: nat, id: Seq<char>) -> Seq<char> {
    "---POCKETCODER_EXIT:"@ + dec_spec(e) + "_ID:{"@ + id + "}---"@
}

/// Reading the code field of a well-formed sentinel line gives back the
/// exit status it was made from.
pub proof fn lemma_sentinel_line_code(e: nat, id: Seq<char>)
    requires
        e <= 255,
    ensures
        code_of_line(sentinel_line_spec(e, id)) == e,
        is_sentinel_line(sentinel_line_spec(e, id), id),
{
    reveal_strlit("---POCKETCODER_EXIT:");
    reveal_strlit("POCKETCODER_EXIT");
    reveal_strlit("_ID:{");
    reveal_strlit("}---");
    let a = "---POCKETCODER_EXIT:"@;
    let b = "_ID:{"@;
    let c = "}---"@;
    let d = dec_spec(e);
    let l = sentinel_line_spec(e, id);
    lemma_dec_spec_roundtrip(e);
    assert(a.len() == 20);
    assert(b.len() == 5);
    assert(l.len() == 29 + d.len() + id.len());
    // The marker occurs first at index 3.
    assert(l.subrange(3, 19) =~= exit_marker());
    assert(occurs_at(l, exit_marker(), 3));
    assert forall|j: int| 0 <= j < 3 implies !occurs_at(l, exit_marker(), j) by {
        if occurs_at(l, exit_marker(), j) {
            assert(l.subrange(j, j + 16)[0] == l[j]);
            assert(l[j] == '-');
            assert(exit_marker()[0] == 'P');
        }
    }
    lemma_first_occurrence_unique(l, exit_marker(), 0, 3);
    // The first colon at or after the marker is the one right behind it.
    assert(l[19] == ':');
    assert forall|j: int| 3 <= j < 19 implies l[j] != ':' by {
        assert(l[j] == a[j]);
    }
    crate::text::lemma_first_char_unique(l, ':', 3, 19);
    // The code field runs to the underscore behind the digits.
    assert forall|j: int| 20 <= j < 20 + d.len() implies l[j] != '_' && l[j] != ':' by {
        assert(l[j] == d[j - 20]);
        assert(is_digit_char(d[j - 20]));
    }
    assert(l[20 + d.len() as int] == b[0]);
    assert(l[20 + d.len() as int] == '_');
    lemma_first_code_end_unique(l, 20, 20 + d.len() as int);
    assert(l.subrange(20, 20 + d.len() as int) =~= d);
    assert(dec_val(d) == e);
    // And the line carries the identifier itself.
    assert(l.subrange(25 + d.len() as int, 25 + d.len() + id.len() as int) =~= id);
    assert(occurs_at(l, id, 25 + d.len() as int));
}

/// When a capture's first sentinel line is the well-formed sentinel of an
/// invocation whose command exited with status `e`, the driver reports
/// exactly `e`.
pub proof fn lemma_exit_status_recovered(content: Seq<char>, id: Seq<char>, e: nat, p: int)
    requires
        e <= 255,
        0 <= p < lines_spec(content).len(),
        lines_spec(content)[p] == sentinel_line_spec(e, id),
        forall|j: int| 0 <= j < p ==> !is_sentinel_line(lines_spec(content)[j], id),
    ensures
        sentinel_found(content, id),
        capture_code(content, id) == e,
{
    lemma_sentinel_line_code(e, id);
    lemma_first_sentinel_unique(lines_spec(content), id, p);
}

} // verus!
