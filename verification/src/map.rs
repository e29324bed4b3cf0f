//! Subpath patterns: how a key is looked up in the exports or imports map of
//! a manifest, and how the value found there becomes a target.

use crate::description::{member, Value};
use crate::error::ErrorKind;
use crate::text::{
    chars_of, ends_with, find_from, first_index, holds_text, lemma_first_index, push_all,
    same_str, slice_of, starts_with, text_of, texts,
};
use vstd::prelude::*;

verus! {

/// Where the first `*` of a key stands.
pub open spec fn star_at(key: Seq<char>) -> int {
    first_index(key, '*', 0)
}

/// A key is a pattern where it holds exactly one `*`.
pub open spec fn is_pattern(key: Seq<char>) -> bool {
    star_at(key) < key.len() && first_index(key, '*', star_at(key) + 1) == key.len()
}

/// What stands before the `*` of a pattern.
pub open spec fn pattern_prefix(key: Seq<char>) -> Seq<char> {
    key.subrange(0, star_at(key))
}

/// What stands behind the `*` of a pattern.
pub open spec fn pattern_suffix(key: Seq<char>) -> Seq<char> {
    key.subrange(star_at(key) + 1, key.len() as int)
}

/// A pattern fits a subpath that begins with its prefix and ends with its
/// suffix, the two not overlapping.
pub open spec fn pattern_fits(key: Seq<char>, subpath: Seq<char>) -> bool {
    &&& is_pattern(key)
    &&& pattern_prefix(key).is_prefix_of(subpath)
    &&& pattern_suffix(key).is_suffix_of(subpath)
    &&& subpath.len() >= key.len() - 1
}

/// What the `*` of a fitting pattern stands for.
pub open spec fn pattern_middle(key: Seq<char>, subpath: Seq<char>) -> Seq<char> {
    subpath.subrange(star_at(key), subpath.len() - pattern_suffix(key).len())
}

/// Pattern `a` is more specific than pattern `b`: its prefix is longer, or
/// as long and its suffix longer.
pub open spec fn beats(a: Seq<char>, b: Seq<char>) -> bool {
    star_at(a) > star_at(b) || (star_at(a) == star_at(b) && a.len() > b.len())
}

/// The index of the most specific pattern that fits `subpath` among the
/// members from `i` on, `best` being the one found before `i`.
pub open spec fn best_pattern(
    entries: Seq<(String, Value)>,
    subpath: Seq<char>,
    i: int,
    best: Option<int>,
) -> Option<int>
    decreases entries.len() - i,
{
    if i < 0 || i >= entries.len() {
        best
    } else if pattern_fits(entries[i].0@, subpath) && (match best {
        Some(j) => beats(entries[i].0@, entries[j].0@),
        None => true,
    }) {
        best_pattern(entries, subpath, i + 1, Some(i))
    } else {
        best_pattern(entries, subpath, i + 1, best)
    }
}

/// `v` with `middle` in place of every `*`.
pub open spec fn substitute(v: Seq<char>, middle: Seq<char>) -> Seq<char>
    decreases v.len(),
{
    if v.len() == 0 {
        Seq::empty()
    } else if v.last() == '*' {
        substitute(v.drop_last(), middle) + middle
    } else {
        substitute(v.drop_last(), middle).push(v.last())
    }
}

/// Whether a segment `..` of `t` begins at `i`.
pub open spec fn dot_dot_at(t: Seq<char>, i: int) -> bool {
    &&& 0 <= i && i + 2 <= t.len()
    &&& t[i] == '.' && t[i + 1] == '.'
    &&& (i == 0 || t[i - 1] == '/')
    &&& (i + 2 == t.len() || t[i + 2] == '/')
}

/// Whether `t` has a segment `..`.
pub open spec fn climbs(t: Seq<char>) -> bool {
    exists|i: int| dot_dot_at(t, i)
}

/// Whether `t` begins with `./`.
pub open spec fn is_dot_relative(t: Seq<char>) -> bool {
    t.len() >= 2 && t[0] == '.' && t[1] == '/'
}

/// The target that a text value gives. In an exports map it has to begin
/// with `./`; nowhere may it hold a segment `..`.
pub open spec fn check_target(t: Seq<char>, exports: bool) -> Result<Seq<char>, ErrorKind> {
    if exports && !is_dot_relative(t) {
        Err(ErrorKind::PackagePathNotExported)
    } else if climbs(t) {
        Err(ErrorKind::InvalidSpecifier)
    } else {
        Ok(t)
    }
}

/// Whether a condition applies: it is one of the configured ones, or it is
/// `default`.
pub open spec fn condition_applies(name: Seq<char>, conditions: Seq<Seq<char>>) -> bool {
    conditions.contains(name) || name == "default"@
}

/// The target that a value of an exports or imports map gives. A text is
/// the target, with `middle` for its `*`; of an object, the first member
/// whose condition applies decides; of a list, the first item that gives a
/// target.
pub open spec fn eval_value(
    v: Value,
    middle: Option<Seq<char>>,
    conditions: Seq<Seq<char>>,
    exports: bool,
) -> Result<Seq<char>, ErrorKind>
    decreases v, 0nat,
{
    match v {
        Value::Text(s) => check_target(
            match middle {
                Some(m) => substitute(s@, m),
                None => s@,
            },
            exports,
        ),
        Value::Object(entries) => eval_conditions(entries, 0, middle, conditions, exports),
        Value::List(items) => eval_items(items, 0, middle, conditions, exports),
        _ => Err(ErrorKind::PackagePathNotExported),
    }
}

/// The target that the members of an object give from member `i` on: the
/// first whose condition applies decides.
pub open spec fn eval_conditions(
    entries: Vec<(String, Value)>,
    i: int,
    middle: Option<Seq<char>>,
    conditions: Seq<Seq<char>>,
    exports: bool,
) -> Result<Seq<char>, ErrorKind>
    decreases entries, entries.len() - i,
{
    if i < 0 || i >= entries.len() {
        Err(ErrorKind::PackagePathNotExported)
    } else if condition_applies(entries[i].0@, conditions) {
        eval_value(entries[i].1, middle, conditions, exports)
    } else {
        eval_conditions(entries, i + 1, middle, conditions, exports)
    }
}

/// The target that the items of a list give from item `i` on: the first
/// item that gives a target decides.
pub open spec fn eval_items(
    items: Vec<Value>,
    i: int,
    middle: Option<Seq<char>>,
    conditions: Seq<Seq<char>>,
    exports: bool,
) -> Result<Seq<char>, ErrorKind>
    decreases items, items.len() - i,
{
    if i < 0 || i >= items.len() {
        Err(ErrorKind::PackagePathNotExported)
    } else {
        match eval_value(items[i], middle, conditions, exports) {
            Ok(t) => Ok(t),
            Err(_) => eval_items(items, i + 1, middle, conditions, exports),
        }
    }
}

/// The target that the map `entries` gives for `subpath`: the value of the
/// member named `subpath`, else the value of the most specific pattern that
/// fits, with what its `*` stands for.
pub open spec fn lookup_subpath(
    entries: Seq<(String, Value)>,
    subpath: Seq<char>,
    conditions: Seq<Seq<char>>,
    exports: bool,
) -> Result<Seq<char>, ErrorKind> {
    match member(entries, subpath, 0) {
        Some(v) => eval_value(v, None, conditions, exports),
        None => match best_pattern(entries, subpath, 0, None) {
            Some(j) => eval_value(
                entries[j].1,
                Some(pattern_middle(entries[j].0@, subpath)),
                conditions,
                exports,
            ),
            None => Err(ErrorKind::PackagePathNotExported),
        },
    }
}

/// Whether `r` is the text form of `spec`.
pub open spec fn target_matches(r: Result<String, ErrorKind>, spec: Result<Seq<char>, ErrorKind>) -> bool {
    match r {
        Ok(t) => spec == Ok::<Seq<char>, ErrorKind>(t@),
        Err(e) => spec == Err::<Seq<char>, ErrorKind>(e),
    }
}

fn fits(key: &Vec<char>, subpath: &Vec<char>) -> (r: bool)
    ensures
        r == pattern_fits(key@, subpath@),
{
    let star: usize = find_from(key, '*', 0);
    if star >= key.len() {
        return false;
    }
    if find_from(key, '*', star + 1) != key.len() {
        return false;
    }
    let prefix = slice_of(key, 0, star);
    let suffix = slice_of(key, star + 1, key.len());
    starts_with(subpath, &prefix) && ends_with(subpath, &suffix) && subpath.len() >= key.len() - 1
}

fn more_specific(a: &Vec<char>, b: &Vec<char>) -> (r: bool)
    ensures
        r == beats(a@, b@),
{
    let sa: usize = find_from(a, '*', 0);
    let sb: usize = find_from(b, '*', 0);
    sa > sb || (sa == sb && a.len() > b.len())
}

fn select_pattern(entries: &Vec<(String, Value)>, subpath: &Vec<char>) -> (r: Option<usize>)
    ensures
        match r {
            Some(j) => best_pattern(entries@, subpath@, 0, None) == Some(j as int) && j
                < entries.len(),
            None => best_pattern(entries@, subpath@, 0, None) is None,
        },
{
    let mut best: Option<usize> = None;
    let mut i: usize = 0;
    while i < entries.len()
        invariant
            i <= entries.len(),
            match best {
                Some(j) => j < i && best_pattern(entries@, subpath@, 0, None) == best_pattern(
                    entries@,
                    subpath@,
                    i as int,
                    Some(j as int),
                ),
                None => best_pattern(entries@, subpath@, 0, None) == best_pattern(
                    entries@,
                    subpath@,
                    i as int,
                    None,
                ),
            },
        decreases entries.len() - i,
    {
        let key = chars_of(entries[i].0.as_str());
        if fits(&key, subpath) {
            let better = match best {
                Some(j) => {
                    let other = chars_of(entries[j].0.as_str());
                    more_specific(&key, &other)
                },
                None => true,
            };
            if better {
                best = Some(i);
            }
        }
        i += 1;
    }
    best
}

/// What the `*` of `pattern` stands for in `subject`, if the pattern fits.
pub fn match_pattern(pattern: &Vec<char>, subject: &Vec<char>) -> (r: Option<Vec<char>>)
    ensures
        match r {
            Some(m) => pattern_fits(pattern@, subject@) && m@ == pattern_middle(
                pattern@,
                subject@,
            ),
            None => !pattern_fits(pattern@, subject@),
        },
{
    if fits(pattern, subject) {
        let star: usize = find_from(pattern, '*', 0);
        proof {
            lemma_first_index(pattern@, '*', 0);
        }
        Some(slice_of(subject, star, subject.len() - (pattern.len() - star - 1)))
    } else {
        None
    }
}

/// `v` with `middle` in place of every `*`.
pub fn fill_in(v: &Vec<char>, middle: &Vec<char>) -> (r: Vec<char>)
    ensures
        r@ == substitute(v@, middle@),
{
    let mut out: Vec<char> = Vec::new();
    let mut i: usize = 0;
    while i < v.len()
        invariant
            i <= v.len(),
            out@ == substitute(v@.subrange(0, i as int), middle@),
        decreases v.len() - i,
    {
        proof {
            assert(v@.subrange(0, i + 1).drop_last() =~= v@.subrange(0, i as int));
        }
        if v[i] == '*' {
            push_all(&mut out, middle);
        } else {
            out.push(v[i]);
        }
        i += 1;
    }
    proof {
        assert(v@.subrange(0, v.len() as int) =~= v@);
    }
    out
}

fn has_dot_dot(t: &Vec<char>) -> (r: bool)
    ensures
        r == climbs(t@),
{
    let n: usize = t.len();
    let mut i: usize = 0;
    while i < n
        invariant
            n == t.len(),
            i <= n,
            forall|j: int| 0 <= j < i ==> !dot_dot_at(t@, j),
        decreases n - i,
    {
        if n - i >= 2 && t[i] == '.' && t[i + 1] == '.' && (i == 0 || t[i - 1] == '/') && (n - i
            == 2 || t[i + 2] == '/') {
            proof {
                assert(dot_dot_at(t@, i as int));
            }
            return true;
        }
        i += 1;
    }
    false
}

fn checked_target(t: Vec<char>, exports: bool) -> (r: Result<String, ErrorKind>)
    ensures
        target_matches(r, check_target(t@, exports)),
{
    if exports && !(t.len() >= 2 && t[0] == '.' && t[1] == '/') {
        Err(ErrorKind::PackagePathNotExported)
    } else if has_dot_dot(&t) {
        Err(ErrorKind::InvalidSpecifier)
    } else {
        Ok(text_of(&t))
    }
}

/// The target that a value of an exports or imports map gives.
pub fn resolve_value(
    v: &Value,
    middle: Option<&Vec<char>>,
    conditions: &Vec<String>,
    exports: bool,
) -> (r: Result<String, ErrorKind>)
    ensures
        target_matches(
            r,
            eval_value(
                *v,
                match middle {
                    Some(m) => Some(m@),
                    None => None,
                },
                texts(conditions@),
                exports,
            ),
        ),
    decreases v, 0nat,
{
    match v {
        Value::Text(s) => {
            let chars = chars_of(s.as_str());
            match middle {
                Some(m) => checked_target(fill_in(&chars, m), exports),
                None => checked_target(chars, exports),
            }
        },
        Value::Object(entries) => resolve_conditions(entries, 0, middle, conditions, exports),
        Value::List(items) => resolve_items(items, 0, middle, conditions, exports),
        _ => Err(ErrorKind::PackagePathNotExported),
    }
}

fn resolve_conditions(
    entries: &Vec<(String, Value)>,
    i: usize,
    middle: Option<&Vec<char>>,
    conditions: &Vec<String>,
    exports: bool,
) -> (r: Result<String, ErrorKind>)
    ensures
        target_matches(
            r,
            eval_conditions(
                *entries,
                i as int,
                match middle {
                    Some(m) => Some(m@),
                    None => None,
                },
                texts(conditions@),
                exports,
            ),
        ),
    decreases entries, entries.len() - i,
{
    if i >= entries.len() {
        Err(ErrorKind::PackagePathNotExported)
    } else if holds_text(conditions, entries[i].0.as_str()) || same_str(
        entries[i].0.as_str(),
        "default",
    ) {
        resolve_value(&entries[i].1, middle, conditions, exports)
    } else {
        resolve_conditions(entries, i + 1, middle, conditions, exports)
    }
}

fn resolve_items(
    items: &Vec<Value>,
    i: usize,
    middle: Option<&Vec<char>>,
    conditions: &Vec<String>,
    exports: bool,
) -> (r: Result<String, ErrorKind>)
    ensures
        target_matches(
            r,
            eval_items(
                *items,
                i as int,
                match middle {
                    Some(m) => Some(m@),
                    None => None,
                },
                texts(conditions@),
                exports,
            ),
        ),
    decreases items, items.len() - i,
{
    if i >= items.len() {
        Err(ErrorKind::PackagePathNotExported)
    } else {
        match resolve_value(&items[i], middle, conditions, exports) {
            Ok(t) => Ok(t),
            Err(_) => resolve_items(items, i + 1, middle, conditions, exports),
        }
    }
}

/// The target that `map` gives for `subpath`; a value that is no object
/// gives none.
pub open spec fn lookup_in(
    map: Value,
    subpath: Seq<char>,
    conditions: Seq<Seq<char>>,
    exports: bool,
) -> Result<Seq<char>, ErrorKind> {
    match map {
        Value::Object(entries) => lookup_subpath(entries@, subpath, conditions, exports),
        _ => Err(ErrorKind::PackagePathNotExported),
    }
}

/// The target that the object `map` gives for `subpath`.
pub fn resolve_subpath(
    map: &Value,
    subpath: &str,
    conditions: &Vec<String>,
    exports: bool,
) -> (r: Result<String, ErrorKind>)
    ensures
        target_matches(r, lookup_in(*map, subpath@, texts(conditions@), exports)),
{
    match map.get(subpath) {
        Some(v) => resolve_value(v, None, conditions, exports),
        None => match map {
            Value::Object(entries) => {
                let key = chars_of(subpath);
                match select_pattern(entries, &key) {
                    Some(j) => {
                        let pattern = chars_of(entries[j].0.as_str());
                        let star: usize = find_from(&pattern, '*', 0);
                        proof {
                            lemma_best_fits(entries@, subpath@, 0, None);
                            lemma_first_index(pattern@, '*', 0);
                        }
                        let middle = slice_of(&key, star, key.len() - (pattern.len() - star - 1));
                        resolve_value(&entries[j].1, Some(&middle), conditions, exports)
                    },
                    None => Err(ErrorKind::PackagePathNotExported),
                }
            },
            _ => Err(ErrorKind::PackagePathNotExported),
        },
    }
}

/// The pattern that `best_pattern` selects fits the subpath, and so does
/// `best` where it is handed on.
pub proof fn lemma_best_fits(
    entries: Seq<(String, Value)>,
    subpath: Seq<char>,
    i: int,
    best: Option<int>,
)
    requires
        0 <= i,
        match best {
            Some(j) => 0 <= j < entries.len() && pattern_fits(entries[j].0@, subpath),
            None => true,
        },
    ensures
        match best_pattern(entries, subpath, i, best) {
            Some(j) => 0 <= j < entries.len() && pattern_fits(entries[j].0@, subpath),
            None => best is None,
        },
    decreases entries.len() - i,
{
    if i < entries.len() {
        if pattern_fits(entries[i].0@, subpath) && (match best {
            Some(j) => beats(entries[i].0@, entries[j].0@),
            None => true,
        }) {
            lemma_best_fits(entries, subpath, i + 1, Some(i));
        } else {
            lemma_best_fits(entries, subpath, i + 1, best);
        }
    }
}

/// Two patterns that fit one subpath with prefixes of one length and
/// suffixes of one length are one pattern: among the patterns that fit,
/// specificity never leaves a tie to break.
pub proof fn lemma_equal_rank_same_pattern(a: Seq<char>, b: Seq<char>, subpath: Seq<char>)
    requires
        pattern_fits(a, subpath),
        pattern_fits(b, subpath),
        !beats(a, b),
        !beats(b, a),
    ensures
        a == b,
{
    lemma_first_index(a, '*', 0);
    lemma_first_index(b, '*', 0);
    let s = star_at(a);
    assert(a.len() == b.len());
    assert forall|j: int| 0 <= j < a.len() implies a[j] == b[j] by {
        if j < s {
            assert(pattern_prefix(a)[j] == subpath[j]);
            assert(pattern_prefix(b)[j] == subpath[j]);
        } else if j > s {
            let d = subpath.len() - pattern_suffix(a).len();
            assert(pattern_suffix(a)[j - s - 1] == subpath.subrange(d, subpath.len() as int)[j - s
                - 1]);
            assert(pattern_suffix(b)[j - s - 1] == subpath.subrange(d, subpath.len() as int)[j - s
                - 1]);
        }
    }
    assert(a =~= b);
}

/// No fitting pattern is more specific than the one selected, and the one
/// handed on, if any, is not more specific than it either.
pub proof fn lemma_best_is_greatest(
    entries: Seq<(String, Value)>,
    subpath: Seq<char>,
    i: int,
    best: Option<int>,
    k: int,
)
    requires
        0 <= i,
        match best {
            Some(j) => 0 <= j < entries.len(),
            None => true,
        },
        0 <= k < entries.len(),
        pattern_fits(entries[k].0@, subpath),
        k >= i || (best is Some && !beats(entries[k].0@, entries[best->0].0@)),
    ensures
        match best_pattern(entries, subpath, i, best) {
            Some(j) => 0 <= j < entries.len() && !beats(entries[k].0@, entries[j].0@),
            None => false,
        },
    decreases entries.len() - i,
{
    if i < entries.len() {
        if pattern_fits(entries[i].0@, subpath) && (match best {
            Some(j) => beats(entries[i].0@, entries[j].0@),
            None => true,
        }) {
            lemma_best_is_greatest(entries, subpath, i + 1, Some(i), k);
        } else {
            lemma_best_is_greatest(entries, subpath, i + 1, best, k);
        }
    }
}

/// The selection is deterministic: the pattern selected fits, and every
/// other pattern of the map that fits is a less specific one or the same
/// pattern written again. So the order of the members does not decide which
/// pattern is taken.
pub proof fn lemma_selection_deterministic(
    entries: Seq<(String, Value)>,
    subpath: Seq<char>,
    k: int,
)
    requires
        0 <= k < entries.len(),
        pattern_fits(entries[k].0@, subpath),
    ensures
        match best_pattern(entries, subpath, 0, None) {
            Some(j) => {
                &&& 0 <= j < entries.len()
                &&& pattern_fits(entries[j].0@, subpath)
                &&& (beats(entries[j].0@, entries[k].0@) || entries[j].0@ == entries[k].0@)
            },
            None => false,
        },
{
    lemma_best_fits(entries, subpath, 0, None);
    lemma_best_is_greatest(entries, subpath, 0, None, k);
    let j = best_pattern(entries, subpath, 0, None)->0;
    if !beats(entries[j].0@, entries[k].0@) {
        lemma_equal_rank_same_pattern(entries[j].0@, entries[k].0@, subpath);
    }
}

} // verus!
