//! The kinds of request target, told apart by how the target begins.

use vstd::prelude::*;

verus! {

/// What a request's target is, by its first characters.
#[derive(Clone, Copy, Debug, PartialEq, Eq, Structural)]
pub enum PathKind {
    /// No target at all.
    Empty,
    /// Begins with `./` or `../`.
    Relative,
    /// Begins with `/`.
    AbsolutePosix,
    /// Begins with a drive letter, a colon and a slash of either kind, or
    /// with two backslashes.
    AbsoluteWin,
    /// Begins with `#`: an entry of the enclosing manifest's imports.
    Internal,
    /// Begins with the scheme of a URI that the resolver recognises.
    BuildInUri,
    /// Anything else: the name of a module, with or without a path below it.
    Normal,
}

/// A letter of the Latin alphabet, as it names a drive.
pub open spec fn is_drive_letter(c: char) -> bool {
    ('a' <= c && c <= 'z') || ('A' <= c && c <= 'Z')
}

/// The target begins with `./` or `../`.
pub open spec fn is_relative_target(t: Seq<char>) -> bool {
    ||| (t.len() >= 2 && t[0] == '.' && t[1] == '/')
    ||| (t.len() >= 3 && t[0] == '.' && t[1] == '.' && t[2] == '/')
}

/// The target begins with a drive letter, a colon and a slash of either
/// kind, or with two backslashes.
pub open spec fn is_windows_absolute(t: Seq<char>) -> bool {
    ||| (t.len() >= 3 && is_drive_letter(t[0]) && t[1] == ':' && (t[2] == '\\' || t[2] == '/'))
    ||| (t.len() >= 2 && t[0] == '\\' && t[1] == '\\')
}

/// The schemes that mark a target as a URI: `data:`, `http:`, `https:`,
/// `file:` and `node:`.
pub open spec fn is_uri_target(t: Seq<char>) -> bool {
    ||| seq!['d', 'a', 't', 'a', ':'].is_prefix_of(t)
    ||| seq!['h', 't', 't', 'p', ':'].is_prefix_of(t)
    ||| seq!['h', 't', 't', 'p', 's', ':'].is_prefix_of(t)
    ||| seq!['f', 'i', 'l', 'e', ':'].is_prefix_of(t)
    ||| seq!['n', 'o', 'd', 'e', ':'].is_prefix_of(t)
}

/// The kind of a target.
pub open spec fn kind_of(t: Seq<char>) -> PathKind {
    if t.len() == 0 {
        PathKind::Empty
    } else if t[0] == '#' {
        PathKind::Internal
    } else if is_relative_target(t) {
        PathKind::Relative
    } else if t[0] == '/' {
        PathKind::AbsolutePosix
    } else if is_windows_absolute(t) {
        PathKind::AbsoluteWin
    } else if is_uri_target(t) {
        PathKind::BuildInUri
    } else {
        PathKind::Normal
    }
}

fn is_letter(c: char) -> (r: bool)
    ensures
        r == is_drive_letter(c),
{
    ('a' <= c && c <= 'z') || ('A' <= c && c <= 'Z')
}

fn has_uri_scheme(t: &Vec<char>) -> (r: bool)
    ensures
        r == is_uri_target(t@),
{
    let data: Vec<char> = vec!['d', 'a', 't', 'a', ':'];
    let http: Vec<char> = vec!['h', 't', 't', 'p', ':'];
    let https: Vec<char> = vec!['h', 't', 't', 'p', 's', ':'];
    let file: Vec<char> = vec!['f', 'i', 'l', 'e', ':'];
    let node: Vec<char> = vec!['n', 'o', 'd', 'e', ':'];
    crate::text::starts_with(t, &data) || crate::text::starts_with(t, &http)
        || crate::text::starts_with(t, &https) || crate::text::starts_with(t, &file)
        || crate::text::starts_with(t, &node)
}

/// Classifies a target.
pub fn classify(t: &Vec<char>) -> (k: PathKind)
    ensures
        k == kind_of(t@),
{
    let n: usize = t.len();
    if n == 0 {
        PathKind::Empty
    } else if t[0] == '#' {
        PathKind::Internal
    } else if (n >= 2 && t[0] == '.' && t[1] == '/') || (n >= 3 && t[0] == '.' && t[1] == '.'
        && t[2] == '/') {
        PathKind::Relative
    } else if t[0] == '/' {
        PathKind::AbsolutePosix
    } else if (n >= 3 && is_letter(t[0]) && t[1] == ':' && (t[2] == '\\' || t[2] == '/')) || (n
        >= 2 && t[0] == '\\' && t[1] == '\\') {
        PathKind::AbsoluteWin
    } else if has_uri_scheme(t) {
        PathKind::BuildInUri
    } else {
        PathKind::Normal
    }
}

} // verus!
