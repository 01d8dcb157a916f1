//! The session resolver: map a caller-supplied session identifier to a
//! concrete multiplexer session and window. The registry lookup itself is
//! one HTTP GET made by the surrounding process; everything the response
//! decides is interpreted here.

use vstd::prelude::*;
use crate::text::{
    all_digits, dec_spec, dec_val, find_char_from, first_char_from, last_char_idx,
    lemma_first_char_from, lemma_last_char_idx, lines_spec, parse_u32_digits, rfind_char,
    split_lines, str_eq,
};

verus! {

/// What the registry reports for one terminal: the multiplexer session
/// name, and at most two forms of the window designator. The surrounding
/// process fills this from the JSON body field by field.
pub struct TerminalRecord {
    /// The `tmux_session` field, when present.
    pub tmux_session: Option<String>,
    /// The numeric `tmux_window_id` field, when present.
    pub tmux_window_id: Option<u32>,
    /// The `tmux_window` field, when present: a window name, possibly of
    /// the form `<name>@<id>`.
    pub tmux_window: Option<String>,
}

/// What a registry record resolves to.
pub enum Resolution {
    /// Session and window index are settled.
    Resolved { session: String, window: u32 },
    /// The record names the window only by name: the multiplexer's
    /// window listing must be consulted for the index.
    NeedsWindowLookup { session: String, window_name: String },
    /// The record has no `tmux_session` field.
    MissingSession,
    /// The record has neither window field.
    MissingWindow,
}

/// The window id a `<name>@<id>` designator carries: the digits after
/// the last `@`, read as `str::parse::<u32>` with a default of 0.
pub open spec fn at_suffix_window(w: Seq<char>) -> int {
    let k = last_char_idx(w, '@');
    let suffix = w.subrange(k + 1, w.len() as int);
    if suffix.len() > 0 && all_digits(suffix) && dec_val(suffix) <= u32::MAX {
        dec_val(suffix)
    } else {
        0
    }
}

/// Resolve a registry record, in the order the registry contract fixes:
/// a present `tmux_window_id` wins; else a `tmux_window` holding `@` is
/// read as `<name>@<id>`; else a bare `tmux_window` defers to the window
/// listing; else the record is incomplete.
pub fn resolve_terminal(rec: &TerminalRecord) -> (r: Resolution)
    ensures
        rec.tmux_session is None ==> r is MissingSession,
        rec.tmux_session matches Some(s) ==> match r {
            Resolution::Resolved { session, window } => s@ == session@ && match rec.tmux_window_id {
                Some(w) => window == w,
                None => rec.tmux_window matches Some(wn) && wn@.contains('@') && window
                    == at_suffix_window(wn@),
            },
            Resolution::NeedsWindowLookup { session, window_name } => s@ == session@
                && rec.tmux_window_id is None && (rec.tmux_window matches Some(wn) && wn@
                == window_name@ && !wn@.contains('@')),
            Resolution::MissingSession => false,
            Resolution::MissingWindow => rec.tmux_window_id is None && rec.tmux_window is None,
        },
{
    let session = match &rec.tmux_session {
        Some(s) => s.clone(),
        None => {
            return Resolution::MissingSession;
        },
    };
    if let Some(w) = &rec.tmux_window_id {
        return Resolution::Resolved { session, window: *w };
    }
    let window_name = match &rec.tmux_window {
        Some(w) => w.clone(),
        None => {
            return Resolution::MissingWindow;
        },
    };
    match rfind_char(window_name.as_str(), '@') {
        Some(at_pos) => {
            proof {
                lemma_last_char_idx(window_name@, '@');
                assert(window_name@[at_pos as int] == '@');
                assert(window_name@.contains('@'));
            }
            let n = window_name.as_str().unicode_len();
            let suffix = window_name.as_str().substring_char(at_pos + 1, n);
            let window = parse_u32_digits(suffix);
            Resolution::Resolved { session, window }
        },
        None => {
            proof {
                if window_name@.contains('@') {
                    let i = choose|i: int|
                        0 <= i < window_name@.len() && window_name@[i] == '@';
                    lemma_last_char_idx(window_name@, '@');
                }
            }
            Resolution::NeedsWindowLookup { session, window_name }
        },
    }
}

/// Whether a listing line `<name>:<index>` names this window: it has a
/// colon, and everything before the first colon is the name.
pub open spec fn window_line_matches(l: Seq<char>, name: Seq<char>) -> bool {
    let k = first_char_from(l, ':', 0);
    k < l.len() && l.subrange(0, k) == name
}

/// Index of the first listing line naming the window, or `ls.len()`.
pub open spec fn first_window_match(ls: Seq<Seq<char>>, name: Seq<char>, i: int) -> int
    decreases ls.len() - i,
{
    if !(0 <= i < ls.len()) {
        ls.len() as int
    } else if window_line_matches(ls[i], name) {
        i
    } else {
        first_window_match(ls, name, i + 1)
    }
}

proof fn lemma_first_window_match(ls: Seq<Seq<char>>, name: Seq<char>, i: int)
    requires
        0 <= i <= ls.len(),
    ensures
        i <= first_window_match(ls, name, i) <= ls.len(),
        first_window_match(ls, name, i) < ls.len() ==> window_line_matches(
            ls[first_window_match(ls, name, i)],
            name,
        ),
        forall|j: int| i <= j < first_window_match(ls, name, i) ==> !window_line_matches(
            ls[j],
            name,
        ),
    decreases ls.len() - i,
{
    if i < ls.len() && !window_line_matches(ls[i], name) {
        lemma_first_window_match(ls, name, i + 1);
    }
}

proof fn lemma_first_window_match_unique(ls: Seq<Seq<char>>, name: Seq<char>, i: int)
    requires
        0 <= i <= ls.len(),
        i < ls.len() ==> window_line_matches(ls[i], name),
        forall|j: int| 0 <= j < i ==> !window_line_matches(ls[j], name),
    ensures
        first_window_match(ls, name, 0) == i,
{
    lemma_first_window_match(ls, name, 0);
    let f = first_window_match(ls, name, 0);
    if f < i {
        assert(!window_line_matches(ls[f], name));
    }
    if i < f && i < ls.len() {
        assert(!window_line_matches(ls[i], name));
    }
}

/// The index the listing gives the named window: on the first line whose
/// name part matches, the digits after the colon read as `parse::<u32>`
/// with a default of 0; 0 when no line matches.
pub open spec fn window_index_spec(listing: Seq<char>, name: Seq<char>) -> int {
    let ls = lines_spec(listing);
    let m = first_window_match(ls, name, 0);
    if m == ls.len() {
        0
    } else {
        let l = ls[m];
        let k = first_char_from(l, ':', 0);
        let idx = l.subrange(k + 1, l.len() as int);
        if idx.len() > 0 && all_digits(idx) && dec_val(idx) <= u32::MAX {
            dec_val(idx)
        } else {
            0
        }
    }
}

/// Read the window index for `name` out of the multiplexer's
/// `list-windows` output.
pub fn find_window_index(listing: &str, name: &str) -> (r: u32)
    ensures
        r == window_index_spec(listing@, name@),
{
    let lines = split_lines(listing);
    let n = lines.len();
    let mut i: usize = 0;
    while i < n
        invariant
            i <= n,
            n == lines.deep_view().len(),
            lines.deep_view() == lines_spec(listing@),
            forall|j: int| 0 <= j < i ==> !window_line_matches(lines_spec(listing@)[j], name@),
        decreases n - i,
    {
        let line = &lines[i];
        proof {
            assert(lines.deep_view()[i as int] == lines@[i as int]@);
        }
        let llen = line.as_str().unicode_len();
        let k = find_char_from(line.as_str(), ':', 0);
        if k < llen {
            let line_name = line.as_str().substring_char(0, k);
            if str_eq(line_name, name) {
                let idx_str = line.as_str().substring_char(k + 1, llen);
                let r = parse_u32_digits(idx_str);
                proof {
                    lemma_first_window_match_unique(lines_spec(listing@), name@, i as int);
                }
                return r;
            }
        }
        proof {
            assert(!window_line_matches(lines_spec(listing@)[i as int], name@));
        }
        i += 1;
    }
    proof {
        lemma_first_window_match_unique(lines_spec(listing@), name@, n as int);
    }
    0
}

/// The registry endpoint for a delegating agent:
/// `<base>/terminals/by-delegating-agent/<id>`.
pub fn endpoint_url(base: &str, session_id: &str) -> (r: String)
    ensures
        r@ == base@ + "/terminals/by-delegating-agent/"@ + session_id@,
{
    let mut r = String::from_str(base);
    r.append("/terminals/by-delegating-agent/");
    r.append(session_id);
    proof {
        assert(r@ =~= base@ + "/terminals/by-delegating-agent/"@ + session_id@);
    }
    r
}

/// The registry's base URL.
pub fn cao_base_url() -> (r: &'static str)
    ensures
        r@ == "http://sandbox:9889"@,
{
    "http://sandbox:9889"
}

/// The in-band error for a registry answer with a non-success status.
pub fn resolver_status_error(session_id: &str, status: u16) -> (r: String)
    ensures
        r@ == "CAO lookup failed for delegating_agent_id '"@ + session_id@ + "' with status "@
            + dec_spec(status as nat),
{
    let mut r = String::from_str("CAO lookup failed for delegating_agent_id '");
    r.append(session_id);
    r.append("' with status ");
    let s = crate::text::u64_to_dec(status as u64);
    r.append(s.as_str());
    proof {
        assert(r@ =~= "CAO lookup failed for delegating_agent_id '"@ + session_id@
            + "' with status "@ + dec_spec(status as nat));
    }
    r
}

/// The in-band error for a registry that could not be reached at all.
pub fn resolver_transport_error(detail: &str) -> (r: String)
    ensures
        r@ == "CAO request failed: "@ + detail@,
{
    let mut r = String::from_str("CAO request failed: ");
    r.append(detail);
    proof {
        assert(r@ =~= "CAO request failed: "@ + detail@);
    }
    r
}

/// The in-band error for a record with no session field.
pub fn missing_session_error() -> (r: String)
    ensures
        r@ == "Missing tmux_session in CAO response"@,
{
    String::from_str("Missing tmux_session in CAO response")
}

/// The in-band error for a record with no window field.
pub fn missing_window_error() -> (r: String)
    ensures
        r@ == "Missing tmux_window_id and tmux_window in CAO response"@,
{
    String::from_str("Missing tmux_window_id and tmux_window in CAO response")
}

} // verus!
