//! The request parser: a raw request string falls into target, query and
//! fragment, and the target gets its kind.

use crate::kind::{classify, kind_of, PathKind};
use crate::smol::{smol_new, smol_text};
use crate::text::{chars_of, slice_of, text_of};
use smol_str::SmolStr;
use vstd::prelude::*;

verus! {

/// A parsed request.
pub struct Request {
    /// The module specifier proper.
    pub target: SmolStr,
    /// Empty, or the part that begins with the first unescaped `?`.
    pub query: String,
    /// Empty, or the part that begins with the first unescaped `#`.
    pub fragment: String,
    /// The kind of `target`, fixed when the request is made.
    pub kind: PathKind,
}

/// A request as plain text.
pub ghost struct RequestView {
    pub target: Seq<char>,
    pub query: Seq<char>,
    pub fragment: Seq<char>,
    pub kind: PathKind,
}

impl View for Request {
    type V = RequestView;

    open spec fn view(&self) -> RequestView {
        RequestView {
            target: smol_text(self.target),
            query: self.query@,
            fragment: self.fragment@,
            kind: self.kind,
        }
    }
}

/// The first index at or after `i` at which `s` holds an unescaped `c`; the
/// length of `s` where there is none. A backslash that is not itself escaped
/// escapes the character after it; `escaped` says whether the character at
/// `i` is escaped.
pub open spec fn mark_index(s: Seq<char>, c: char, i: int, escaped: bool) -> int
    decreases s.len() - i,
{
    if i < 0 || i >= s.len() {
        s.len() as int
    } else if escaped {
        mark_index(s, c, i + 1, false)
    } else if s[i] == '\\' {
        mark_index(s, c, i + 1, true)
    } else if s[i] == c {
        i
    } else {
        mark_index(s, c, i + 1, false)
    }
}

/// Where the fragment begins: at the first unescaped `#` that is not the
/// request's first character (a leading `#` marks an internal specifier and
/// belongs to the target).
pub open spec fn fragment_start(raw: Seq<char>) -> int {
    if raw.len() > 0 && raw[0] == '#' {
        mark_index(raw, '#', 1, false)
    } else {
        mark_index(raw, '#', 0, false)
    }
}

/// Where the query begins: at the first unescaped `?` before the fragment.
pub open spec fn query_start(raw: Seq<char>) -> int {
    mark_index(raw.subrange(0, fragment_start(raw)), '?', 0, false)
}

/// What `parse` makes of a raw request.
pub open spec fn parse_spec(raw: Seq<char>) -> RequestView {
    let f = fragment_start(raw);
    let q = query_start(raw);
    RequestView {
        target: raw.subrange(0, q),
        query: raw.subrange(q, f),
        fragment: raw.subrange(f, raw.len() as int),
        kind: kind_of(raw.subrange(0, q)),
    }
}

/// The request that has `target` with its kind, and the query and fragment
/// of `r`.
pub open spec fn retarget(r: RequestView, target: Seq<char>) -> RequestView {
    RequestView { target, kind: kind_of(target), ..r }
}

/// `mark_index` stays between its start and the length.
pub proof fn lemma_mark_index_bounds(s: Seq<char>, c: char, i: int, escaped: bool)
    requires
        0 <= i <= s.len(),
    ensures
        i <= mark_index(s, c, i, escaped) <= s.len(),
    decreases s.len() - i,
{
    if i < s.len() {
        if escaped {
            lemma_mark_index_bounds(s, c, i + 1, false);
        } else if s[i] == '\\' {
            lemma_mark_index_bounds(s, c, i + 1, true);
        } else if s[i] != c {
            lemma_mark_index_bounds(s, c, i + 1, false);
        }
    }
}

/// The query begins at or before the fragment, and both inside the request.
pub proof fn lemma_parse_bounds(raw: Seq<char>)
    ensures
        0 <= query_start(raw) <= fragment_start(raw) <= raw.len(),
{
    if raw.len() > 0 && raw[0] == '#' {
        lemma_mark_index_bounds(raw, '#', 1, false);
    } else {
        lemma_mark_index_bounds(raw, '#', 0, false);
    }
    lemma_mark_index_bounds(raw.subrange(0, fragment_start(raw)), '?', 0, false);
}

/// Parsing loses nothing: target, query and fragment, put together in this
/// order, are the raw request.
pub proof fn lemma_parse_round_trip(raw: Seq<char>)
    ensures
        parse_spec(raw).target + parse_spec(raw).query + parse_spec(raw).fragment == raw,
{
    lemma_parse_bounds(raw);
    assert(parse_spec(raw).target + parse_spec(raw).query + parse_spec(raw).fragment =~= raw);
}

/// A query is empty or begins with `?`, a fragment is empty or begins with
/// `#`.
pub proof fn lemma_parse_marks(raw: Seq<char>)
    ensures
        parse_spec(raw).query.len() > 0 ==> parse_spec(raw).query[0] == '?',
        parse_spec(raw).fragment.len() > 0 ==> parse_spec(raw).fragment[0] == '#',
{
    lemma_parse_bounds(raw);
    let f = fragment_start(raw);
    let head = raw.subrange(0, f);
    if raw.len() > 0 && raw[0] == '#' {
        lemma_mark_found(raw, '#', 1, false);
    } else {
        lemma_mark_found(raw, '#', 0, false);
    }
    lemma_mark_found(head, '?', 0, false);
}

/// Where `mark_index` is an index, the character there is `c`.
pub proof fn lemma_mark_found(s: Seq<char>, c: char, i: int, escaped: bool)
    requires
        0 <= i <= s.len(),
    ensures
        mark_index(s, c, i, escaped) < s.len() ==> s[mark_index(s, c, i, escaped)] == c,
    decreases s.len() - i,
{
    if i < s.len() {
        if escaped {
            lemma_mark_found(s, c, i + 1, false);
        } else if s[i] == '\\' {
            lemma_mark_found(s, c, i + 1, true);
        } else if s[i] != c {
            lemma_mark_found(s, c, i + 1, false);
        }
    }
}

fn find_mark(s: &Vec<char>, c: char, from: usize) -> (r: usize)
    requires
        from <= s.len(),
    ensures
        r == mark_index(s@, c, from as int, false),
        from <= r <= s.len(),
{
    let mut i: usize = from;
    let mut escaped: bool = false;
    while i < s.len()
        invariant
            from <= i <= s.len(),
            mark_index(s@, c, from as int, false) == mark_index(s@, c, i as int, escaped),
        decreases s.len() - i,
    {
        if escaped {
            escaped = false;
        } else if s[i] == '\\' {
            escaped = true;
        } else if s[i] == c {
            return i;
        }
        i += 1;
    }
    i
}

/// Parses a raw request. Never fails.
pub fn parse(raw: &str) -> (r: Request)
    ensures
        r@ == parse_spec(raw@),
        r@.target + r@.query + r@.fragment == raw@,
{
    let chars = chars_of(raw);
    let f: usize = if chars.len() > 0 && chars[0] == '#' {
        find_mark(&chars, '#', 1)
    } else {
        find_mark(&chars, '#', 0)
    };
    let head = slice_of(&chars, 0, f);
    let q: usize = find_mark(&head, '?', 0);
    let target = slice_of(&chars, 0, q);
    let query = slice_of(&chars, q, f);
    let fragment = slice_of(&chars, f, chars.len());
    let kind = classify(&target);
    proof {
        lemma_parse_round_trip(raw@);
    }
    Request {
        target: smol_new(text_of(&target).as_str()),
        query: text_of(&query),
        fragment: text_of(&fragment),
        kind,
    }
}

impl Request {
    /// The request with another target, whose kind is taken anew; query and
    /// fragment stay.
    pub fn with_target(self, target: &str) -> (r: Request)
        ensures
            r@ == retarget(self@, target@),
    {
        let chars = chars_of(target);
        let kind = classify(&chars);
        Request { target: smol_new(target), query: self.query, fragment: self.fragment, kind }
    }

    /// A copy of the request.
    pub fn duplicate(&self) -> (r: Request)
        ensures
            r@ == self@,
    {
        Request {
            target: self.target.clone(),
            query: self.query.clone(),
            fragment: self.fragment.clone(),
            kind: self.kind,
        }
    }
}

} // verus!
