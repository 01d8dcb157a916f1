//! The SSE relay: frame an upstream byte stream into lines without
//! buffering the body, and rewrite each advertised endpoint URL into the
//! local namespace, chunk by chunk. The network legs live in the
//! surrounding process; every transform is here.

use vstd::prelude::*;
use crate::text::{
    contains_str, find_char_from, find_str_from, first_char_from, first_occurrence_from,
    lemma_first_char_from, occurs_at, trim_spec, trim_str,
};

verus! {

/// The concatenation of complete lines, each closed by a newline.
pub open spec fn concat_lines(ls: Seq<Seq<char>>) -> Seq<char>
    decreases ls.len(),
{
    if ls.len() == 0 {
        Seq::empty()
    } else {
        concat_lines(ls.drop_last()) + ls.last() + seq!['\n']
    }
}

/// The residual buffer of a line-framed stream: it holds what arrived
/// after the last newline.
pub struct LineBuffer {
    pub buf: String,
}

impl LineBuffer {
    /// A buffer holding nothing.
    pub fn new() -> (r: Self)
        ensures
            r.buf@ == Seq::<char>::empty(),
    {
        LineBuffer { buf: String::new() }
    }

    /// Take in one chunk and give out every line it completes, in order.
    /// Nothing is lost and nothing is invented: the lines, each with its
    /// newline restored, followed by the new residue, spell exactly the
    /// old residue followed by the chunk; and no line nor the residue
    /// holds a newline.
    pub fn push_chunk(&mut self, chunk: &str) -> (lines: Vec<String>)
        requires
            !old(self).buf@.contains('\n'),
        ensures
            concat_lines(lines.deep_view()) + final(self).buf@ == old(self).buf@ + chunk@,
            forall|i: int| 0 <= i < lines.deep_view().len() ==> !lines.deep_view()[i].contains(
                '\n',
            ),
            !final(self).buf@.contains('\n'),
    {
        self.buf.append(chunk);
        let mut lines: Vec<String> = Vec::new();
        proof {
            assert(concat_lines(lines.deep_view()) =~= Seq::<char>::empty());
            assert(concat_lines(lines.deep_view()) + self.buf@ =~= old(self).buf@ + chunk@);
        }
        loop
            invariant
                concat_lines(lines.deep_view()) + self.buf@ =~= old(self).buf@ + chunk@,
                forall|i: int| 0 <= i < lines.deep_view().len() ==> !lines.deep_view()[
                    i
                ].contains('\n'),
            decreases self.buf@.len(),
        {
            let n = self.buf.as_str().unicode_len();
            let k = find_char_from(self.buf.as_str(), '\n', 0);
            if k == n {
                proof {
                    lemma_first_char_from(self.buf@, '\n', 0);
                    if self.buf@.contains('\n') {
                        let i = choose|i: int|
                            0 <= i < self.buf@.len() && self.buf@[i] == '\n';
                    }
                }
                return lines;
            }
            proof {
                lemma_first_char_from(self.buf@, '\n', 0);
            }
            let line = String::from_str(self.buf.as_str().substring_char(0, k));
            let rest = String::from_str(self.buf.as_str().substring_char(k + 1, n));
            let ghost prev = self.buf@;
            let ghost plines = lines.deep_view();
            proof {
                if line@.contains('\n') {
                    let i = choose|i: int| 0 <= i < line@.len() && line@[i] == '\n';
                    assert(prev[i] == '\n');
                }
            }
            lines.push(line);
            self.buf = rest;
            proof {
                assert(lines.deep_view() =~= plines.push(prev.subrange(0, k as int)));
                assert(lines.deep_view().drop_last() =~= plines);
                assert(concat_lines(lines.deep_view()) + self.buf@ =~= concat_lines(plines)
                    + prev);
            }
        }
    }
}

/// What one upstream line becomes downstream.
#[derive(Debug)]
pub enum SseOut {
    /// An advertised endpoint URL, rewritten into the local namespace:
    /// emitted as a complete downstream event of type `endpoint`.
    Endpoint(String),
    /// Any other `data` line, passed on unchanged.
    Data(String),
    /// Any other `event` line, passed on unchanged.
    Event(String),
    /// A line of no interest: nothing is emitted. The upstream's bare
    /// `event: endpoint` marker line is dropped here too: the rewritten
    /// URL line already carries the event type, and passing the marker
    /// on as well would emit a second `endpoint` event for the same
    /// upstream one.
    Skip,
}

/// The rewritten endpoint payload: the upstream path moved under
/// `<base>/mcp`, with the `session_id` value given the `ses_` prefix the
/// downstream consumer expects.
pub open spec fn endpoint_rewrite_spec(base: Seq<char>, payload: Seq<char>) -> Seq<char> {
    let marker = "session_id="@;
    let k = first_occurrence_from(payload, marker, 0);
    if k + marker.len() <= payload.len() && occurs_at(payload, marker, k) {
        base + "/mcp"@ + payload.subrange(0, k + marker.len()) + "ses_"@ + payload.subrange(
            k + marker.len(),
            payload.len() as int,
        )
    } else {
        base + "/mcp"@ + payload
    }
}

/// Rewrite one endpoint payload (the part after `data: `, starting with
/// `/messages/`) into the local namespace.
pub fn rewrite_endpoint(base: &str, payload: &str) -> (r: String)
    ensures
        r@ == endpoint_rewrite_spec(base@, payload@),
{
    let mut r = String::from_str(base);
    r.append("/mcp");
    let n = payload.unicode_len();
    match find_str_from(payload, "session_id=", 0) {
        Some(k) => {
            proof {
                crate::text::lemma_first_occurrence_from(payload@, "session_id="@, 0);
                let f = first_occurrence_from(payload@, "session_id="@, 0);
                if f < k {
                    assert(!occurs_at(payload@, "session_id="@, f));
                }
                if k < f {
                    assert(!occurs_at(payload@, "session_id="@, k as int));
                }
                reveal_strlit("session_id=");
            }
            let m = "session_id=".unicode_len();
            r.append(payload.substring_char(0, k + m));
            r.append("ses_");
            r.append(payload.substring_char(k + m, n));
            proof {
                assert(r@ =~= endpoint_rewrite_spec(base@, payload@));
            }
            r
        },
        None => {
            proof {
                crate::text::lemma_first_occurrence_from(payload@, "session_id="@, 0);
                let f = first_occurrence_from(payload@, "session_id="@, 0);
                if f + "session_id="@.len() <= payload@.len() && occurs_at(
                    payload@,
                    "session_id="@,
                    f,
                ) {
                }
            }
            r.append(payload);
            proof {
                assert(r@ =~= endpoint_rewrite_spec(base@, payload@));
            }
            r
        },
    }
}

/// Whether `t` starts with `p`.
pub open spec fn starts_with_spec(t: Seq<char>, p: Seq<char>) -> bool {
    occurs_at(t, p, 0)
}

/// An upstream line that advertises the post-back endpoint URL: a
/// `data: /messages/…` line, after trimming.
pub open spec fn advertises_endpoint(line: Seq<char>) -> bool {
    starts_with_spec(trim_spec(line), "data: /messages/"@)
}

/// An upstream line that declares the type of the event it belongs to
/// as `endpoint`: the `event: endpoint` field line, after trimming. An
/// upstream event of type `endpoint` carries exactly one such line, so
/// over a whole stream these lines count the upstream's endpoint events.
pub open spec fn declares_endpoint(line: Seq<char>) -> bool {
    starts_with_spec(trim_spec(line), "event: endpoint"@)
}

/// Transform one upstream line, after trimming: an endpoint `data` line
/// is rewritten into the local namespace and marked with event type
/// `endpoint`; the bare endpoint `event` marker is dropped, its type
/// having moved onto the rewritten line; other `data:` and `event:`
/// lines pass through with their payloads unchanged; the rest is
/// dropped.
pub fn relay_line(base: &str, line: &str) -> (out: SseOut)
    ensures
        ({
            let t = trim_spec(line@);
            &&& (out is Endpoint) <==> advertises_endpoint(line@)
            &&& out matches SseOut::Endpoint(d) ==> d@ == endpoint_rewrite_spec(
                base@,
                t.subrange(6, t.len() as int),
            )
            &&& out matches SseOut::Data(d) ==> d@ == t.subrange(6, t.len() as int)
            &&& (out is Data) <==> (!advertises_endpoint(line@) && !declares_endpoint(line@)
                && starts_with_spec(t, "data: "@))
            &&& out matches SseOut::Event(e) ==> e@ == t.subrange(7, t.len() as int)
            &&& (out is Event) <==> (!advertises_endpoint(line@) && !declares_endpoint(line@)
                && !starts_with_spec(t, "data: "@) && starts_with_spec(t, "event: "@))
            &&& is_endpoint_out(out) <==> advertises_endpoint(line@)
        }),
{
    let t = trim_str(line);
    let ts = t.as_str();
    let n = ts.unicode_len();
    if crate::text::starts_with_str(ts, "data: /messages/") {
        proof {
            reveal_strlit("data: /messages/");
        }
        let payload = ts.substring_char(6, n);
        SseOut::Endpoint(rewrite_endpoint(base, payload))
    } else if crate::text::starts_with_str(ts, "event: endpoint") {
        SseOut::Skip
    } else if crate::text::starts_with_str(ts, "data: ") {
        proof {
            reveal_strlit("data: ");
        }
        SseOut::Data(String::from_str(ts.substring_char(6, n)))
    } else if crate::text::starts_with_str(ts, "event: ") {
        proof {
            reveal_strlit("event: ");
        }
        SseOut::Event(String::from_str(ts.substring_char(7, n)))
    } else {
        SseOut::Skip
    }
}

/// A downstream emission carrying the event type `endpoint`.
pub open spec fn is_endpoint_out(o: SseOut) -> bool {
    o is Endpoint
}

/// How many downstream emissions carry the event type `endpoint`.
pub open spec fn count_endpoint_outs(outs: Seq<SseOut>) -> int
    decreases outs.len(),
{
    if outs.len() == 0 {
        0
    } else {
        count_endpoint_outs(outs.drop_last()) + if is_endpoint_out(outs.last()) {
            1int
        } else {
            0int
        }
    }
}

/// How many upstream lines advertise the endpoint URL.
pub open spec fn count_endpoint_data(lines: Seq<Seq<char>>) -> int
    decreases lines.len(),
{
    if lines.len() == 0 {
        0
    } else {
        count_endpoint_data(lines.drop_last()) + if advertises_endpoint(lines.last()) {
            1int
        } else {
            0int
        }
    }
}

/// How many upstream lines declare an event of type `endpoint` — the
/// upstream's own count of endpoint events.
pub open spec fn count_endpoint_decls(lines: Seq<Seq<char>>) -> int
    decreases lines.len(),
{
    if lines.len() == 0 {
        0
    } else {
        count_endpoint_decls(lines.drop_last()) + if declares_endpoint(lines.last()) {
            1int
        } else {
            0int
        }
    }
}

proof fn lemma_outs_bounded_by_data(outs: Seq<SseOut>, lines: Seq<Seq<char>>)
    requires
        outs.len() == lines.len(),
        forall|i: int| 0 <= i < outs.len() ==> (is_endpoint_out(#[trigger] outs[i])
            ==> advertises_endpoint(lines[i])),
    ensures
        count_endpoint_outs(outs) <= count_endpoint_data(lines),
    decreases outs.len(),
{
    if outs.len() > 0 {
        assert(forall|i: int|
            0 <= i < outs.drop_last().len() ==> (is_endpoint_out(
                #[trigger] outs.drop_last()[i],
            ) ==> advertises_endpoint(lines.drop_last()[i])));
        lemma_outs_bounded_by_data(outs.drop_last(), lines.drop_last());
        assert(is_endpoint_out(outs.last()) ==> advertises_endpoint(lines.last()));
    }
}

/// The relay never emits more `endpoint` events than the upstream did:
/// over any run of upstream lines and the emissions made for them line
/// by line, the downstream `endpoint` count is bounded by the number of
/// endpoint events the upstream declared. The first premise is exactly
/// what `relay_line` ensures of each emission; the second is the
/// upstream's own framing — it advertises at most one endpoint URL line
/// per event it declares as `endpoint`, so a URL line never stands in an
/// event of another type.
pub proof fn lemma_relay_endpoint_bound(outs: Seq<SseOut>, lines: Seq<Seq<char>>)
    requires
        outs.len() == lines.len(),
        forall|i: int| 0 <= i < outs.len() ==> (is_endpoint_out(#[trigger] outs[i])
            ==> advertises_endpoint(lines[i])),
        count_endpoint_data(lines) <= count_endpoint_decls(lines),
    ensures
        count_endpoint_outs(outs) <= count_endpoint_decls(lines),
{
    lemma_outs_bounded_by_data(outs, lines);
}

/// The upstream SSE stream of the tunnel's message service for one
/// session: `http://sandbox:9888/sse?session_id=<sid>`.
pub fn sse_upstream_url(session_id: &str) -> (r: String)
    ensures
        r@ == "http://sandbox:9888/sse?session_id="@ + session_id@,
{
    let mut r = String::from_str("http://sandbox:9888/sse?session_id=");
    r.append(session_id);
    proof {
        assert(r@ =~= "http://sandbox:9888/sse?session_id="@ + session_id@);
    }
    r
}

/// The upstream JSON-RPC post-back endpoint for one session:
/// `http://sandbox:9888/messages/?session_id=<sid>`.
pub fn messages_upstream_url(session_id: &str) -> (r: String)
    ensures
        r@ == "http://sandbox:9888/messages/?session_id="@ + session_id@,
{
    let mut r = String::from_str("http://sandbox:9888/messages/?session_id=");
    r.append(session_id);
    proof {
        assert(r@ =~= "http://sandbox:9888/messages/?session_id="@ + session_id@);
    }
    r
}

} // verus!
