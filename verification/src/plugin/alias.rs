//! The alias table of the options.

use crate::info::{ResolverInfo, ResolverResult, ResolverStats};
use crate::options::AliasMap;
use crate::path::{is_absolute, is_normal};
use crate::pipeline::{alias_matches, alias_stage};
use crate::resolver::{anchored, carries, settled_paths, sound, Resolver};
use crate::text::{chars_of, push_all, same, slice_of, starts_with, text_of};
use vstd::prelude::*;

verus! {

/// The stage of the alias table.
pub struct AliasPlugin;

fn key_matches(key: &Vec<char>, target: &Vec<char>) -> (r: bool)
    ensures
        r == alias_matches(key@, target@),
        r ==> key@.len() <= target@.len(),
{
    if same(target, key) {
        return true;
    }
    let mut with_slash: Vec<char> = Vec::new();
    push_all(&mut with_slash, key);
    with_slash.push('/');
    proof {
        assert(with_slash@ =~= key@ + seq!['/']);
    }
    starts_with(target, &with_slash)
}

impl AliasPlugin {
    /// The first entry of the alias table whose key matches the target
    /// decides: an ignore marker ends the resolution, another target is
    /// resolved in place of the one asked for.
    pub fn apply(&self, resolver: &Resolver, info: ResolverInfo, fuel: usize) -> (r: ResolverStats)
        ensures
            r@ == alias_stage(resolver.options@, resolver.disk(), info@, fuel as nat, 0),
            sound(r@, resolver.disk()),
            carries(r@, info@),
            is_absolute(info@.path) ==> anchored(r@),
            is_normal(info@.path) ==> settled_paths(r@),
        decreases fuel, 5nat, 0nat,
    {
        let target = chars_of(info.request.target.as_str());
        let mut i: usize = 0;
        while i < resolver.options.alias.len()
            invariant
                i <= resolver.options.alias.len(),
                target@ == info@.request.target,
                alias_stage(resolver.options@, resolver.disk(), info@, fuel as nat, 0)
                    == alias_stage(resolver.options@, resolver.disk(), info@, fuel as nat, i as int),
            decreases resolver.options.alias.len() - i,
        {
            let key = chars_of(resolver.options.alias[i].0.as_str());
            if key_matches(&key, &target) {
                match &resolver.options.alias[i].1 {
                    AliasMap::Ignored => {
                        return ResolverStats::Success(ResolverResult::Ignored);
                    },
                    AliasMap::Target(v) => {
                        let mut t = chars_of(v.as_str());
                        push_all(&mut t, &slice_of(&target, key.len(), target.len()));
                        let rewritten = info.with_target(text_of(&t).as_str());
                        return resolver.reenter(rewritten, fuel);
                    },
                }
            }
            i += 1;
        }
        ResolverStats::Resolving(info)
    }
}

} // verus!
