//! The small-string type that holds a request's target.

use smol_str::SmolStr;
use vstd::prelude::*;

verus! {

/// `smol_str::SmolStr`: an immutable string that is cheap to copy.
#[verifier::external_type_specification]
#[verifier::external_body]
pub struct ExSmolStr(SmolStr);

/// The text that a `SmolStr` holds.
pub uninterp spec fn smol_text(s: SmolStr) -> Seq<char>;

/// `SmolStr::new` stores the text it is given.
#[verifier::external_body]
pub(crate) fn smol_new(text: &str) -> (s: SmolStr)
    ensures
        smol_text(s) == text@,
{
    SmolStr::new(text)
}

/// `SmolStr::as_str` hands out the stored text.
pub assume_specification<'a>[ SmolStr::as_str ](s: &'a SmolStr) -> (text: &'a str)
    ensures
        text@ == smol_text(*s),
;

/// The clone of a `SmolStr` holds the same text.
pub assume_specification[ <SmolStr as Clone>::clone ](s: &SmolStr) -> (r: SmolStr)
    ensures
        smol_text(r) == smol_text(*s),
;

} // verus!
