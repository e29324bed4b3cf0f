//! The name of a module tried as a relative path first.

use crate::info::{ResolverInfo, ResolverStats};
use crate::kind::PathKind;
use crate::path::{is_absolute, is_normal};
use crate::pipeline::prefer_relative_stage;
use crate::resolver::{anchored, carries, settled_paths, sound, Resolver};
use crate::text::{chars_of, push_all, text_of};
use vstd::prelude::*;

verus! {

/// The stage that tries the name of a module as a relative path.
pub struct PreferRelativePlugin;

impl PreferRelativePlugin {
    /// Where the options say so, the name of a module is resolved with `./`
    /// before it; if that finds nothing, the info goes on as it is.
    pub fn apply(&self, resolver: &Resolver, info: ResolverInfo, fuel: usize) -> (r: ResolverStats)
        ensures
            r@ == prefer_relative_stage(resolver.options@, resolver.disk(), info@, fuel as nat),
            sound(r@, resolver.disk()),
            carries(r@, info@),
            is_absolute(info@.path) ==> anchored(r@),
            is_normal(info@.path) ==> settled_paths(r@),
        decreases fuel, 5nat, 0nat,
    {
        if resolver.options.prefer_relative && info.request.kind == PathKind::Normal {
            let mut t: Vec<char> = vec!['.', '/'];
            push_all(&mut t, &chars_of(info.request.target.as_str()));
            let attempt = resolver.reenter(
                info.duplicate().with_target(text_of(&t).as_str()),
                fuel,
            );
            if attempt.is_finished() {
                return attempt;
            }
        }
        ResolverStats::Resolving(info)
    }
}

} // verus!
