//! Character-sequence utilities shared by the driver, relay and shell
//! modules: substring search, line splitting, joining, trimming, and
//! decimal conversion, each with an exact specification.

use vstd::prelude::*;

verus! {

/// `needle` occurs in `hay` starting at index `i`.
pub open spec fn occurs_at(hay: Seq<char>, needle: Seq<char>, i: int) -> bool {
    0 <= i && i + needle.len() <= hay.len() && hay.subrange(i, i + needle.len()) == needle
}

/// `needle` occurs somewhere in `hay`.
pub open spec fn contains_str(hay: Seq<char>, needle: Seq<char>) -> bool {
    exists|i: int| occurs_at(hay, needle, i)
}

/// An occurrence inside a subrange is an occurrence in the whole.
pub proof fn lemma_occurs_in_subrange(hay: Seq<char>, lo: int, hi: int, needle: Seq<char>)
    requires
        0 <= lo <= hi <= hay.len(),
        contains_str(hay.subrange(lo, hi), needle),
    ensures
        contains_str(hay, needle),
{
    let sub = hay.subrange(lo, hi);
    let i = choose|i: int| occurs_at(sub, needle, i);
    assert(sub.subrange(i, i + needle.len()) =~= hay.subrange(lo + i, lo + i + needle.len()));
    assert(occurs_at(hay, needle, lo + i));
}

/// A needle that avoids both sides and does not hold the separator
/// cannot occur in `a + [sep] + b`.
pub proof fn lemma_concat_sep_no_needle(a: Seq<char>, sep: char, b: Seq<char>, needle: Seq<char>)
    requires
        !contains_str(a, needle),
        !contains_str(b, needle),
        !needle.contains(sep),
    ensures
        !contains_str(a + seq![sep] + b, needle),
{
    let s = a + seq![sep] + b;
    assert forall|i: int| !occurs_at(s, needle, i) by {
        if occurs_at(s, needle, i) {
            if i + needle.len() <= a.len() {
                assert(s.subrange(i, i + needle.len()) =~= a.subrange(i, i + needle.len()));
                assert(occurs_at(a, needle, i));
            } else if i > a.len() {
                let j = i - a.len() - 1;
                assert(s.subrange(i, i + needle.len()) =~= b.subrange(j, j + needle.len()));
                assert(occurs_at(b, needle, j));
            } else {
                // The occurrence covers index a.len(), which holds sep.
                assert(needle.len() > 0);
                let k = a.len() - i;
                assert(0 <= k < needle.len());
                assert(needle[k] == s[a.len() as int]);
                assert(s[a.len() as int] == sep);
                assert(needle.contains(sep));
            }
        }
    }
}

/// Whether `pat` occurs in `s` at position `i` (executable check).
pub fn match_at(s: &str, pat: &str, i: usize) -> (b: bool)
    requires
        i <= s@.len(),
    ensures
        b == occurs_at(s@, pat@, i as int),
{
    let n = s.unicode_len();
    let m = pat.unicode_len();
    if m > n - i {
        assert(!occurs_at(s@, pat@, i as int));
        return false;
    }
    let mut j: usize = 0;
    while j < m
        invariant
            i + m <= n,
            n == s@.len(),
            m == pat@.len(),
            j <= m,
            forall|k: int| 0 <= k < j ==> s@[i + k] == pat@[k],
        decreases m - j,
    {
        if s.get_char(i + j) != pat.get_char(j) {
            assert(s@.subrange(i as int, i + m) != pat@) by {
                assert(s@.subrange(i as int, i + m)[j as int] == s@[i + j]);
            }
            return false;
        }
        j += 1;
    }
    assert(s@.subrange(i as int, i + m) =~= pat@);
    true
}

/// Index of the first occurrence of `pat` in `s` at or after `from`,
/// or `s@.len()` if there is none.
pub open spec fn first_occurrence_from(s: Seq<char>, pat: Seq<char>, i: int) -> int
    decreases s.len() - i,
{
    if !(0 <= i && i <= s.len()) {
        s.len() as int
    } else if occurs_at(s, pat, i) {
        i
    } else if i == s.len() {
        s.len() as int
    } else {
        first_occurrence_from(s, pat, i + 1)
    }
}

pub proof fn lemma_first_occurrence_from(s: Seq<char>, pat: Seq<char>, i: int)
    requires
        0 <= i <= s.len(),
    ensures
        i <= first_occurrence_from(s, pat, i) <= s.len(),
        forall|j: int| i <= j < first_occurrence_from(s, pat, i) ==> !occurs_at(s, pat, j),
        first_occurrence_from(s, pat, i) == s.len() || occurs_at(
            s,
            pat,
            first_occurrence_from(s, pat, i),
        ),
    decreases s.len() - i,
{
    if occurs_at(s, pat, i) {
    } else if i == s.len() {
    } else {
        lemma_first_occurrence_from(s, pat, i + 1);
    }
}

/// First occurrence of `pat` in `s` at or after `from`; `None` when there
/// is none.
pub fn find_str_from(s: &str, pat: &str, from: usize) -> (r: Option<usize>)
    requires
        from <= s@.len(),
    ensures
        match r {
            Some(i) => from <= i && occurs_at(s@, pat@, i as int) && forall|j: int|
                from <= j < i ==> !occurs_at(s@, pat@, j),
            None => forall|j: int| from <= j ==> !occurs_at(s@, pat@, j),
        },
{
    let n = s.unicode_len();
    let mut i: usize = from;
    while i < n
        invariant
            from <= i <= n,
            n == s@.len(),
            forall|j: int| from <= j < i ==> !occurs_at(s@, pat@, j),
        decreases n - i,
    {
        if match_at(s, pat, i) {
            return Some(i);
        }
        i += 1;
    }
    if match_at(s, pat, n) {
        return Some(n);
    }
    assert forall|j: int| from <= j implies !occurs_at(s@, pat@, j) by {
        if occurs_at(s@, pat@, j) {
            assert(j + pat@.len() <= s@.len());
        }
    }
    None
}

/// Whether the two slices hold the same characters.
pub fn str_eq(a: &str, b: &str) -> (r: bool)
    ensures
        r == (a@ == b@),
{
    let na = a.unicode_len();
    let nb = b.unicode_len();
    if na != nb {
        return false;
    }
    let m = match_at(a, b, 0);
    assert(a@.subrange(0, a@.len() as int) =~= a@);
    m
}

/// Whether `p` is a prefix of `s`.
pub fn starts_with_str(s: &str, p: &str) -> (r: bool)
    ensures
        r == occurs_at(s@, p@, 0),
{
    match_at(s, p, 0)
}

/// Whether `pat` occurs anywhere in `s`.
pub fn str_contains(s: &str, pat: &str) -> (b: bool)
    ensures
        b == contains_str(s@, pat@),
{
    match find_str_from(s, pat, 0) {
        Some(_) => true,
        None => {
            assert forall|j: int| !occurs_at(s@, pat@, j) by {
                if occurs_at(s@, pat@, j) {
                    assert(j >= 0);
                }
            }
            false
        },
    }
}

/// Index of the first occurrence of the character `c` in `s` at or after
/// `i`, or `s.len()` if there is none.
pub open spec fn first_char_from(s: Seq<char>, c: char, i: int) -> int
    decreases s.len() - i,
{
    if !(0 <= i < s.len()) {
        s.len() as int
    } else if s[i] == c {
        i
    } else {
        first_char_from(s, c, i + 1)
    }
}

pub proof fn lemma_first_char_from(s: Seq<char>, c: char, i: int)
    requires
        0 <= i <= s.len(),
    ensures
        i <= first_char_from(s, c, i) <= s.len(),
        first_char_from(s, c, i) < s.len() ==> s[first_char_from(s, c, i)] == c,
        forall|j: int| i <= j < first_char_from(s, c, i) ==> s[j] != c,
    decreases s.len() - i,
{
    if i < s.len() && s[i] != c {
        lemma_first_char_from(s, c, i + 1);
    }
}

/// First index at or after `from` holding `c`, or `s.len()` if none does.
pub fn find_char_from(s: &str, c: char, from: usize) -> (r: usize)
    requires
        from <= s@.len(),
    ensures
        r == first_char_from(s@, c, from as int),
        r <= s@.len(),
{
    proof {
        lemma_first_char_from(s@, c, from as int);
    }
    let n = s.unicode_len();
    let mut i: usize = from;
    while i < n
        invariant
            from <= i <= n,
            n == s@.len(),
            forall|j: int| from <= j < i ==> s@[j] != c,
        decreases n - i,
    {
        if s.get_char(i) == c {
            proof {
                lemma_first_char_unique(s@, c, from as int, i as int);
            }
            return i;
        }
        i += 1;
    }
    proof {
        if first_char_from(s@, c, from as int) < s@.len() {
            assert(s@[first_char_from(s@, c, from as int)] == c);
        }
    }
    n
}

pub proof fn lemma_first_char_unique(s: Seq<char>, c: char, from: int, i: int)
    requires
        0 <= from <= i < s.len(),
        s[i] == c,
        forall|j: int| from <= j < i ==> s[j] != c,
    ensures
        first_char_from(s, c, from) == i,
{
    lemma_first_char_from(s, c, from);
    let f = first_char_from(s, c, from);
    if f < i {
        assert(s[f] != c);
    }
}

/// Split `s` at every occurrence of `sep`; the separators themselves are
/// dropped, and `n` separators yield `n + 1` parts.
pub open spec fn split_full(s: Seq<char>, sep: char) -> Seq<Seq<char>>
    decreases s.len(),
{
    let k = first_char_from(s, sep, 0);
    if 0 <= k < s.len() {
        seq![s.subrange(0, k)] + split_full(s.subrange(k + 1, s.len() as int), sep)
    } else {
        seq![s]
    }
}

/// Every part of a split is a contiguous subrange of the whole, so a
/// needle found in a part is found in the whole.
pub proof fn lemma_split_part_contains(s: Seq<char>, sep: char, p: int, needle: Seq<char>)
    requires
        0 <= p < split_full(s, sep).len(),
        contains_str(split_full(s, sep)[p], needle),
    ensures
        contains_str(s, needle),
    decreases s.len(),
{
    lemma_first_char_from(s, sep, 0);
    let k = first_char_from(s, sep, 0);
    if k == s.len() {
    } else {
        if p == 0 {
            lemma_occurs_in_subrange(s, 0, k, needle);
        } else {
            let rest = s.subrange(k + 1, s.len() as int);
            lemma_split_part_contains(rest, sep, p - 1, needle);
            lemma_occurs_in_subrange(s, k + 1, s.len() as int, needle);
        }
    }
}

/// The lines of `s`: split at `'\n'`, except that a trailing newline does
/// not open a final empty line, and the empty text has no lines.
pub open spec fn lines_spec(s: Seq<char>) -> Seq<Seq<char>> {
    if s.len() == 0 {
        Seq::empty()
    } else if s.last() == '\n' {
        split_full(s.drop_last(), '\n')
    } else {
        split_full(s, '\n')
    }
}

/// A needle found in a line of `s` is found in `s`.
pub proof fn lemma_line_contains(s: Seq<char>, p: int, needle: Seq<char>)
    requires
        0 <= p < lines_spec(s).len(),
        contains_str(lines_spec(s)[p], needle),
    ensures
        contains_str(s, needle),
{
    if s.len() != 0 && s.last() == '\n' {
        lemma_split_part_contains(s.drop_last(), '\n', p, needle);
        assert(s.drop_last() =~= s.subrange(0, s.len() - 1));
        lemma_occurs_in_subrange(s, 0, s.len() - 1, needle);
    } else if s.len() != 0 {
        lemma_split_part_contains(s, '\n', p, needle);
    }
}

/// Split `s` at every occurrence of `sep`.
pub fn split_str(s: &str, sep: char) -> (parts: Vec<String>)
    ensures
        parts.deep_view() == split_full(s@, sep),
{
    let n = s.unicode_len();
    let mut parts: Vec<String> = Vec::new();
    let mut start: usize = 0;
    proof {
        assert(s@.subrange(0, n as int) =~= s@);
        assert(parts.deep_view() =~= Seq::<Seq<char>>::empty());
    }
    loop
        invariant
            start <= n,
            n == s@.len(),
            parts.deep_view() + split_full(s@.subrange(start as int, n as int), sep)
                =~= split_full(s@, sep),
        decreases n - start,
    {
        let tail_ghost = Ghost(s@.subrange(start as int, n as int));
        let k = find_char_from(s, sep, start);
        proof {
            lemma_first_char_from(s@, sep, start as int);
            lemma_split_suffix_agrees(s@, sep, start as int);
        }
        if k == n {
            let part = String::from_str(s.substring_char(start, n));
            parts.push(part);
            proof {
                assert(first_char_from(tail_ghost@, sep, 0) == tail_ghost@.len());
                assert(split_full(tail_ghost@, sep) =~= seq![tail_ghost@]);
                assert(parts.deep_view() =~= split_full(s@, sep));
            }
            return parts;
        } else {
            let part = String::from_str(s.substring_char(start, k));
            parts.push(part);
            proof {
                let t = tail_ghost@;
                let kk = (k - start) as int;
                assert(first_char_from(t, sep, 0) == kk);
                assert(t.subrange(0, kk) =~= s@.subrange(start as int, k as int));
                assert(t.subrange(kk + 1, t.len() as int) =~= s@.subrange(
                    k + 1,
                    n as int,
                ));
                assert(split_full(t, sep) =~= seq![t.subrange(0, kk)] + split_full(
                    t.subrange(kk + 1, t.len() as int),
                    sep,
                ));
                assert(parts.deep_view() + split_full(
                    s@.subrange(k + 1 as int, n as int),
                    sep,
                ) =~= split_full(s@, sep));
            }
            start = k + 1;
        }
    }
}

/// The first separator search in a suffix mirrors the search in the whole:
/// `first_char_from` over `s.subrange(start, len)` equals the absolute
/// search shifted by `start`.
proof fn lemma_split_suffix_agrees(s: Seq<char>, sep: char, start: int)
    requires
        0 <= start <= s.len(),
    ensures
        first_char_from(s.subrange(start, s.len() as int), sep, 0) == first_char_from(
            s,
            sep,
            start,
        ) - start,
{
    let t = s.subrange(start, s.len() as int);
    lemma_first_char_from(s, sep, start);
    lemma_first_char_from(t, sep, 0);
    let f = first_char_from(s, sep, start);
    let g = first_char_from(t, sep, 0);
    if g < t.len() {
        assert(s[start + g] == sep);
    }
    if f < s.len() {
        assert(t[f - start] == sep);
    }
    if g + start < f {
        assert(s[g + start] != sep);
    }
    if f - start < g {
        assert(t[f - start] != sep);
    }
}

/// The lines of `s`, as `lines_spec` gives them.
pub fn split_lines(s: &str) -> (lines: Vec<String>)
    ensures
        lines.deep_view() == lines_spec(s@),
{
    let n = s.unicode_len();
    if n == 0 {
        let lines: Vec<String> = Vec::new();
        assert(lines.deep_view() =~= lines_spec(s@));
        lines
    } else if s.get_char(n - 1) == '\n' {
        let body = s.substring_char(0, n - 1);
        assert(body@ =~= s@.drop_last());
        split_str(body, '\n')
    } else {
        split_str(s, '\n')
    }
}

/// The parts joined with `sep` between each adjacent pair.
pub open spec fn join_with(parts: Seq<Seq<char>>, sep: char) -> Seq<char>
    decreases parts.len(),
{
    if parts.len() == 0 {
        Seq::empty()
    } else if parts.len() == 1 {
        parts[0]
    } else {
        parts[0] + seq![sep] + join_with(parts.drop_first(), sep)
    }
}

pub proof fn lemma_join_push(parts: Seq<Seq<char>>, sep: char, x: Seq<char>)
    ensures
        parts.len() == 0 ==> join_with(parts.push(x), sep) == x,
        parts.len() > 0 ==> join_with(parts.push(x), sep) =~= join_with(parts, sep) + seq![sep]
            + x,
    decreases parts.len(),
{
    if parts.len() == 0 {
        assert(parts.push(x)[0] =~= x);
    } else if parts.len() == 1 {
        assert(parts.push(x).drop_first() =~= seq![x]);
        assert(join_with(seq![x], sep) =~= x);
        assert(parts.push(x)[0] == parts[0]);
        assert(join_with(parts.push(x), sep) =~= parts[0] + seq![sep] + x);
    } else {
        lemma_join_push(parts.drop_first(), sep, x);
        assert(parts.push(x).drop_first() =~= parts.drop_first().push(x));
        assert(join_with(parts.push(x), sep) =~= parts[0] + seq![sep] + join_with(
            parts.drop_first().push(x),
            sep,
        ));
        assert(join_with(parts, sep) + seq![sep] + x =~= parts[0] + seq![sep] + (join_with(
            parts.drop_first(),
            sep,
        ) + seq![sep] + x));
    }
}

/// A needle that no part holds, and that does not hold the separator,
/// does not occur in the join.
pub proof fn lemma_join_no_needle(parts: Seq<Seq<char>>, sep: char, needle: Seq<char>)
    requires
        forall|i: int| 0 <= i < parts.len() ==> !contains_str(#[trigger] parts[i], needle),
        !needle.contains(sep),
        needle.len() > 0,
    ensures
        !contains_str(join_with(parts, sep), needle),
    decreases parts.len(),
{
    if parts.len() == 0 {
        if contains_str(Seq::<char>::empty(), needle) {
            let i = choose|i: int| occurs_at(Seq::<char>::empty(), needle, i);
        }
    } else if parts.len() == 1 {
        assert(!contains_str(parts[0], needle));
    } else {
        assert(forall|i: int|
            0 <= i < parts.drop_first().len() ==> !contains_str(
                #[trigger] parts.drop_first()[i],
                needle,
            ));
        lemma_join_no_needle(parts.drop_first(), sep, needle);
        assert(!contains_str(parts[0], needle));
        lemma_concat_sep_no_needle(parts[0], sep, join_with(parts.drop_first(), sep), needle);
        assert(join_with(parts, sep) =~= parts[0] + seq![sep] + join_with(
            parts.drop_first(),
            sep,
        ));
    }
}

/// Join the parts with the one-character separator between each adjacent
/// pair.
pub fn join_with_str(parts: &Vec<String>, sep: &str) -> (r: String)
    requires
        sep@.len() == 1,
    ensures
        r@ == join_with(parts.deep_view(), sep@[0]),
{
    let mut r = String::new();
    let mut i: usize = 0;
    while i < parts.len()
        invariant
            i <= parts.len(),
            sep@.len() == 1,
            r@ =~= join_with(parts.deep_view().subrange(0, i as int), sep@[0]),
        decreases parts.len() - i,
    {
        if i > 0 {
            r.append(sep);
            proof {
                assert(sep@ =~= seq![sep@[0]]);
            }
        }
        r.append(parts[i].as_str());
        proof {
            let pv = parts.deep_view();
            lemma_join_push(pv.subrange(0, i as int), sep@[0], pv[i as int]);
            assert(pv.subrange(0, i as int).push(pv[i as int]) =~= pv.subrange(0, i + 1));
            assert(pv[i as int] == parts@[i as int]@);
        }
        i += 1;
    }
    proof {
        assert(parts.deep_view().subrange(0, parts.len() as int) =~= parts.deep_view());
    }
    r
}

/// Join the parts with a newline between each adjacent pair.
pub fn join_lines(parts: &Vec<String>) -> (r: String)
    ensures
        r@ == join_with(parts.deep_view(), '\n'),
{
    let sep = "\n";
    proof {
        reveal_strlit("\n");
    }
    join_with_str(parts, sep)
}

/// Every element of a filtered sequence is an element of the original.
pub proof fn lemma_filter_elems<A>(s: Seq<A>, pred: spec_fn(A) -> bool, i: int)
    requires
        0 <= i < s.filter(pred).len(),
    ensures
        exists|j: int| 0 <= j < s.len() && s[j] == s.filter(pred)[i],
    decreases s.len(),
{
    reveal(Seq::filter);
    if s.len() > 0 {
        let sub = s.drop_last().filter(pred);
        if i < sub.len() {
            lemma_filter_elems(s.drop_last(), pred, i);
            let j = choose|j: int|
                0 <= j < s.drop_last().len() && s.drop_last()[j] == s.drop_last().filter(pred)[i];
            assert(s[j] == s.drop_last()[j]);
        } else {
            assert(pred(s.last()));
            assert(s.filter(pred)[i] == s.last());
            assert(s[s.len() - 1] == s.last());
        }
    }
}

/// The characters that Unicode marks as white space, the set `str::trim`
/// removes.
pub open spec fn is_space_char(c: char) -> bool {
    c == ' ' || c == '\t' || c == '\n' || c == '\r' || c == '\u{b}' || c == '\u{c}' || c
        == '\u{85}' || c == '\u{a0}' || c == '\u{1680}' || ('\u{2000}' <= c && c <= '\u{200a}')
        || c == '\u{2028}' || c == '\u{2029}' || c == '\u{202f}' || c == '\u{205f}' || c
        == '\u{3000}'
}

/// Executable check for `is_space_char`.
pub fn is_space(c: char) -> (r: bool)
    ensures
        r == is_space_char(c),
{
    c == ' ' || c == '\t' || c == '\n' || c == '\r' || c == '\u{b}' || c == '\u{c}' || c
        == '\u{85}' || c == '\u{a0}' || c == '\u{1680}' || ('\u{2000}' <= c && c <= '\u{200a}')
        || c == '\u{2028}' || c == '\u{2029}' || c == '\u{202f}' || c == '\u{205f}' || c
        == '\u{3000}'
}

pub open spec fn trim_front(s: Seq<char>) -> Seq<char>
    decreases s.len(),
{
    if s.len() == 0 {
        s
    } else if is_space_char(s[0]) {
        trim_front(s.drop_first())
    } else {
        s
    }
}

pub open spec fn trim_back(s: Seq<char>) -> Seq<char>
    decreases s.len(),
{
    if s.len() == 0 {
        s
    } else if is_space_char(s.last()) {
        trim_back(s.drop_last())
    } else {
        s
    }
}

/// `s` with leading and trailing white space removed.
pub open spec fn trim_spec(s: Seq<char>) -> Seq<char> {
    trim_back(trim_front(s))
}

/// If the first `a` characters are spaces and `s[a]` is not (or `a` is the
/// length), the front trim is exactly the suffix from `a`.
proof fn lemma_trim_front_at(s: Seq<char>, a: int)
    requires
        0 <= a <= s.len(),
        forall|k: int| 0 <= k < a ==> is_space_char(s[k]),
        a < s.len() ==> !is_space_char(s[a]),
    ensures
        trim_front(s) =~= s.subrange(a, s.len() as int),
    decreases s.len(),
{
    if s.len() == 0 {
    } else if a == 0 {
        assert(s.subrange(0, s.len() as int) =~= s);
    } else {
        assert(is_space_char(s[0]));
        let t = s.drop_first();
        assert(forall|k: int| 0 <= k < a - 1 ==> is_space_char(#[trigger] t[k]));
        lemma_trim_front_at(t, a - 1);
        assert(t.subrange(a - 1, t.len() as int) =~= s.subrange(a, s.len() as int));
    }
}

/// The symmetric statement for the back trim.
proof fn lemma_trim_back_at(s: Seq<char>, b: int)
    requires
        0 <= b <= s.len(),
        forall|k: int| b <= k < s.len() ==> is_space_char(s[k]),
        b > 0 ==> !is_space_char(s[b - 1]),
    ensures
        trim_back(s) =~= s.subrange(0, b),
    decreases s.len(),
{
    if s.len() == 0 {
    } else if b == s.len() {
        assert(!is_space_char(s.last()));
        assert(s.subrange(0, s.len() as int) =~= s);
    } else {
        assert(is_space_char(s.last()));
        let t = s.drop_last();
        assert(forall|k: int| b <= k < t.len() ==> is_space_char(#[trigger] t[k]));
        lemma_trim_back_at(t, b);
        assert(t.subrange(0, b) =~= s.subrange(0, b));
    }
}

/// A needle found in the trimmed text is found in the original.
pub proof fn lemma_trim_contains(s: Seq<char>, needle: Seq<char>)
    requires
        contains_str(trim_spec(s), needle),
    ensures
        contains_str(s, needle),
{
    lemma_trim_back_contains(trim_front(s), needle);
    lemma_trim_front_contains(s, needle);
}

proof fn lemma_trim_front_contains(s: Seq<char>, needle: Seq<char>)
    requires
        contains_str(trim_front(s), needle),
    ensures
        contains_str(s, needle),
    decreases s.len(),
{
    if s.len() == 0 {
    } else if is_space_char(s[0]) {
        lemma_trim_front_contains(s.drop_first(), needle);
        assert(s.drop_first() =~= s.subrange(1, s.len() as int));
        lemma_occurs_in_subrange(s, 1, s.len() as int, needle);
    }
}

proof fn lemma_trim_back_contains(s: Seq<char>, needle: Seq<char>)
    requires
        contains_str(trim_back(s), needle),
    ensures
        contains_str(s, needle),
    decreases s.len(),
{
    if s.len() == 0 {
    } else if is_space_char(s.last()) {
        lemma_trim_back_contains(s.drop_last(), needle);
        assert(s.drop_last() =~= s.subrange(0, s.len() - 1));
        lemma_occurs_in_subrange(s, 0, s.len() - 1, needle);
    }
}

/// `s` with surrounding white space removed, as `trim_spec` gives it.
pub fn trim_str(s: &str) -> (r: String)
    ensures
        r@ == trim_spec(s@),
{
    let n = s.unicode_len();
    let mut a: usize = 0;
    while a < n && is_space(s.get_char(a))
        invariant
            a <= n,
            n == s@.len(),
            forall|k: int| 0 <= k < a ==> is_space_char(s@[k]),
        decreases n - a,
    {
        a += 1;
    }
    proof {
        lemma_trim_front_at(s@, a as int);
    }
    if a == n {
        let r = String::new();
        proof {
            assert(s@.subrange(a as int, n as int) =~= Seq::<char>::empty());
            assert(trim_back(Seq::<char>::empty()) =~= Seq::<char>::empty());
        }
        return r;
    }
    let mut b: usize = n;
    while b > a && is_space(s.get_char(b - 1))
        invariant
            a <= b <= n,
            n == s@.len(),
            forall|k: int| b <= k < n ==> is_space_char(s@[k]),
        decreases b,
    {
        b -= 1;
    }
    proof {
        let front = s@.subrange(a as int, n as int);
        assert(!is_space_char(s@[a as int]));
        assert(b > a) by {
            if b == a {
                assert(is_space_char(s@[a as int]));
            }
        }
        assert(forall|k: int| b - a <= k < front.len() ==> is_space_char(#[trigger] front[k]));
        assert(!is_space_char(front[b - a - 1]));
        lemma_trim_back_at(front, b - a as int);
        assert(front.subrange(0, b - a as int) =~= s@.subrange(a as int, b as int));
    }
    String::from_str(s.substring_char(a, b))
}

/// The decimal digit character for `d` in `0 .. 10`.
pub open spec fn digit_char(d: int) -> char {
    if d == 0 {
        '0'
    } else if d == 1 {
        '1'
    } else if d == 2 {
        '2'
    } else if d == 3 {
        '3'
    } else if d == 4 {
        '4'
    } else if d == 5 {
        '5'
    } else if d == 6 {
        '6'
    } else if d == 7 {
        '7'
    } else if d == 8 {
        '8'
    } else {
        '9'
    }
}

/// The decimal digit string of `n`, without sign or leading zeros.
pub open spec fn dec_spec(n: nat) -> Seq<char>
    decreases n,
{
    if n < 10 {
        seq![digit_char(n as int)]
    } else {
        dec_spec(n / 10) + seq![digit_char((n % 10) as int)]
    }
}

fn digit_literal(d: u64) -> (r: &'static str)
    requires
        d < 10,
    ensures
        r@ == seq![digit_char(d as int)],
{
    proof {
        reveal_strlit("0");
        reveal_strlit("1");
        reveal_strlit("2");
        reveal_strlit("3");
        reveal_strlit("4");
        reveal_strlit("5");
        reveal_strlit("6");
        reveal_strlit("7");
        reveal_strlit("8");
        reveal_strlit("9");
    }
    let r = if d == 0 {
        "0"
    } else if d == 1 {
        "1"
    } else if d == 2 {
        "2"
    } else if d == 3 {
        "3"
    } else if d == 4 {
        "4"
    } else if d == 5 {
        "5"
    } else if d == 6 {
        "6"
    } else if d == 7 {
        "7"
    } else if d == 8 {
        "8"
    } else {
        "9"
    };
    proof {
        assert(r@ =~= seq![digit_char(d as int)]);
    }
    r
}

/// The decimal digit string of `n`.
pub fn u64_to_dec(n: u64) -> (r: String)
    ensures
        r@ == dec_spec(n as nat),
    decreases n,
{
    if n < 10 {
        String::from_str(digit_literal(n))
    } else {
        let high = u64_to_dec(n / 10);
        let r = high.concat(digit_literal(n % 10));
        proof {
            assert(r@ =~= dec_spec(n as nat));
        }
        r
    }
}

pub open spec fn is_digit_char(c: char) -> bool {
    '0' as int <= c as int && c as int <= '9' as int
}

pub open spec fn digit_val(c: char) -> int {
    c as int - '0' as int
}

pub open spec fn all_digits(s: Seq<char>) -> bool {
    forall|i: int| 0 <= i < s.len() ==> is_digit_char(#[trigger] s[i])
}

/// The numeric value of a digit string, most significant first.
pub open spec fn dec_val(s: Seq<char>) -> int
    decreases s.len(),
{
    if s.len() == 0 {
        0
    } else {
        dec_val(s.drop_last()) * 10 + digit_val(s.last())
    }
}

pub proof fn lemma_dec_val_nonneg(s: Seq<char>)
    requires
        all_digits(s),
    ensures
        dec_val(s) >= 0,
    decreases s.len(),
{
    if s.len() > 0 {
        assert(all_digits(s.drop_last())) by {
            assert(forall|i: int|
                0 <= i < s.len() - 1 ==> is_digit_char(#[trigger] s.drop_last()[i]));
        }
        lemma_dec_val_nonneg(s.drop_last());
    }
}

/// Extending a digit string on the right does not shrink its value.
proof fn lemma_dec_val_prefix(s: Seq<char>, k: int)
    requires
        all_digits(s),
        0 <= k <= s.len(),
    ensures
        dec_val(s) >= dec_val(s.subrange(0, k)),
    decreases s.len() - k,
{
    if k == s.len() {
        assert(s.subrange(0, k) =~= s);
    } else {
        lemma_dec_val_prefix(s, k + 1);
        let p = s.subrange(0, k + 1);
        assert(all_digits(p)) by {
            assert(forall|i: int| 0 <= i < p.len() ==> is_digit_char(#[trigger] p[i]));
        }
        assert(p.drop_last() =~= s.subrange(0, k));
        lemma_dec_val_nonneg(p.drop_last());
        assert(dec_val(p) == dec_val(s.subrange(0, k)) * 10 + digit_val(s[k]));
        assert(digit_val(s[k]) >= 0);
        assert(dec_val(s.subrange(0, k)) * 10 >= dec_val(s.subrange(0, k))) by (nonlinear_arith)
            requires
                dec_val(s.subrange(0, k)) >= 0,
        ;
    }
}

/// Parse a run of decimal digits as `str::parse::<i32>` followed by
/// `unwrap_or(0)` does on unsigned input: the value when `s` is a
/// non-empty digit run whose value fits in `i32`, and 0 on anything
/// else.
pub fn parse_code_digits(s: &str) -> (r: i32)
    ensures
        r == (if s@.len() > 0 && all_digits(s@) && dec_val(s@) <= i32::MAX {
            dec_val(s@)
        } else {
            0
        }),
{
    let n = s.unicode_len();
    if n == 0 {
        return 0;
    }
    let mut acc: u64 = 0;
    let mut i: usize = 0;
    while i < n
        invariant
            i <= n,
            n == s@.len(),
            n > 0,
            all_digits(s@.subrange(0, i as int)),
            acc == dec_val(s@.subrange(0, i as int)),
            acc <= i32::MAX,
        decreases n - i,
    {
        let c = s.get_char(i);
        if c < '0' || c > '9' {
            assert(!is_digit_char(s@[i as int]));
            assert(!all_digits(s@));
            return 0;
        }
        let d: u64 = (c as u32 as u64) - ('0' as u32 as u64);
        proof {
            assert(is_digit_char(s@[i as int]));
            assert(d == digit_val(s@[i as int]));
            assert(s@.subrange(0, i + 1).drop_last() =~= s@.subrange(0, i as int));
            assert(all_digits(s@.subrange(0, i + 1))) by {
                let p = s@.subrange(0, i + 1);
                assert(forall|j: int| 0 <= j < p.len() ==> is_digit_char(#[trigger] p[j]));
            }
        }
        let next = acc * 10 + d;
        if next > i32::MAX as u64 {
            proof {
                if all_digits(s@) {
                    lemma_dec_val_prefix(s@, i + 1);
                }
            }
            return 0;
        }
        acc = next;
        i += 1;
    }
    proof {
        assert(s@.subrange(0, n as int) =~= s@);
        lemma_dec_val_nonneg(s@);
    }
    acc as i32
}

/// Parse a run of decimal digits as `str::parse::<u32>` followed by
/// `unwrap_or(0)` does: the value when `s` is a non-empty digit run whose
/// value fits in `u32`, and 0 on anything else.
pub fn parse_u32_digits(s: &str) -> (r: u32)
    ensures
        r == (if s@.len() > 0 && all_digits(s@) && dec_val(s@) <= u32::MAX {
            dec_val(s@)
        } else {
            0
        }),
{
    let n = s.unicode_len();
    if n == 0 {
        return 0;
    }
    let mut acc: u64 = 0;
    let mut i: usize = 0;
    while i < n
        invariant
            i <= n,
            n == s@.len(),
            n > 0,
            all_digits(s@.subrange(0, i as int)),
            acc == dec_val(s@.subrange(0, i as int)),
            acc <= u32::MAX,
        decreases n - i,
    {
        let c = s.get_char(i);
        if c < '0' || c > '9' {
            assert(!is_digit_char(s@[i as int]));
            assert(!all_digits(s@));
            return 0;
        }
        let d: u64 = (c as u32 as u64) - ('0' as u32 as u64);
        proof {
            assert(is_digit_char(s@[i as int]));
            assert(d == digit_val(s@[i as int]));
            assert(s@.subrange(0, i + 1).drop_last() =~= s@.subrange(0, i as int));
            assert(all_digits(s@.subrange(0, i + 1))) by {
                let p = s@.subrange(0, i + 1);
                assert(forall|j: int| 0 <= j < p.len() ==> is_digit_char(#[trigger] p[j]));
            }
        }
        let next = acc * 10 + d;
        if next > u32::MAX as u64 {
            proof {
                if all_digits(s@) {
                    lemma_dec_val_prefix(s@, i + 1);
                }
            }
            return 0;
        }
        acc = next;
        i += 1;
    }
    proof {
        assert(s@.subrange(0, n as int) =~= s@);
        lemma_dec_val_nonneg(s@);
    }
    acc as u32
}

/// Index of the last occurrence of `c` in `s`, or `-1` if there is none.
pub open spec fn last_char_idx(s: Seq<char>, c: char) -> int
    decreases s.len(),
{
    if s.len() == 0 {
        -1
    } else if s.last() == c {
        s.len() - 1
    } else {
        last_char_idx(s.drop_last(), c)
    }
}

pub proof fn lemma_last_char_idx(s: Seq<char>, c: char)
    ensures
        -1 <= last_char_idx(s, c) < s.len(),
        last_char_idx(s, c) >= 0 ==> s[last_char_idx(s, c)] == c,
        forall|j: int| last_char_idx(s, c) < j < s.len() ==> s[j] != c,
    decreases s.len(),
{
    if s.len() > 0 && s.last() != c {
        lemma_last_char_idx(s.drop_last(), c);
        let f = last_char_idx(s.drop_last(), c);
        if f >= 0 {
            assert(s[f] == s.drop_last()[f]);
        }
        assert(forall|j: int| f < j < s.len() - 1 ==> s.drop_last()[j] == s[j]);
    }
}

proof fn lemma_last_char_unique(s: Seq<char>, c: char, i: int)
    requires
        -1 <= i < s.len(),
        i >= 0 ==> s[i] == c,
        forall|j: int| i < j < s.len() ==> s[j] != c,
    ensures
        last_char_idx(s, c) == i,
{
    lemma_last_char_idx(s, c);
    let f = last_char_idx(s, c);
    if f < i {
        assert(s[i] != c);
    }
    if i < f {
        assert(s[f] != c);
    }
}

/// Index of the last occurrence of `c` in `s`, as `str::rfind` gives it.
pub fn rfind_char(s: &str, c: char) -> (r: Option<usize>)
    ensures
        match r {
            Some(i) => i == last_char_idx(s@, c) && i < s@.len(),
            None => last_char_idx(s@, c) == -1,
        },
{
    let n = s.unicode_len();
    let mut i: usize = n;
    while i > 0
        invariant
            i <= n,
            n == s@.len(),
            forall|j: int| i <= j < n ==> s@[j] != c,
        decreases i,
    {
        i -= 1;
        if s.get_char(i) == c {
            proof {
                lemma_last_char_unique(s@, c, i as int);
            }
            return Some(i);
        }
    }
    proof {
        lemma_last_char_unique(s@, c, -1);
    }
    None
}

/// Digit strings carry only digit characters, and reading one back gives
/// the number it was made from.
pub proof fn lemma_dec_spec_roundtrip(n: nat)
    ensures
        dec_spec(n).len() >= 1,
        all_digits(dec_spec(n)),
        dec_val(dec_spec(n)) == n,
    decreases n,
{
    if n < 10 {
        assert(dec_spec(n) =~= seq![digit_char(n as int)]);
        assert(is_digit_char(digit_char(n as int)));
        assert(digit_val(digit_char(n as int)) == n);
        assert(dec_spec(n).drop_last() =~= Seq::<char>::empty());
        assert(dec_val(dec_spec(n)) == dec_val(Seq::<char>::empty()) * 10 + digit_val(
            dec_spec(n).last(),
        ));
        assert(dec_val(Seq::<char>::empty()) == 0);
        assert(dec_spec(n).last() == digit_char(n as int));
    } else {
        lemma_dec_spec_roundtrip(n / 10);
        let s = dec_spec(n);
        assert(s =~= dec_spec(n / 10) + seq![digit_char((n % 10) as int)]);
        assert(s.drop_last() =~= dec_spec(n / 10));
        assert(is_digit_char(digit_char((n % 10) as int)));
        assert(digit_val(digit_char((n % 10) as int)) == n % 10);
        assert(all_digits(s)) by {
            assert(forall|i: int| 0 <= i < s.len() - 1 ==> #[trigger] s[i] == dec_spec(n / 10)[i]);
        }
        assert(dec_val(s) == (n / 10) * 10 + n % 10);
        assert((n / 10) * 10 + n % 10 == n) by (nonlinear_arith);
    }
}

} // verus!
