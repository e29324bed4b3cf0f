//! The alias fields of the enclosing manifest.

use crate::description::{DescriptionData, Value};
use crate::info::{ResolverInfo, ResolverResult, ResolverStats};
use crate::path::{is_absolute, is_normal};
use crate::pipeline::alias_field_stage;
use crate::plugin::imports_field::{manifest_anchored, manifest_settled};
use crate::resolver::{anchored, carries, settled_paths, sound, Resolver};
use std::sync::Arc;
use vstd::prelude::*;

verus! {

/// The stage of the alias fields of one manifest.
pub struct AliasFieldPlugin<'a> {
    pub pkg_info: &'a Option<Arc<DescriptionData>>,
}

impl<'a> AliasFieldPlugin<'a> {
    pub fn new(pkg_info: &'a Option<Arc<DescriptionData>>) -> (r: Self)
        ensures
            r.pkg_info == pkg_info,
    {
        Self { pkg_info }
    }

    /// In the first alias field that is a map with a member named like the
    /// target, a text is resolved in the target's place from the manifest's
    /// directory, and `false` ends the resolution.
    pub fn apply(&self, resolver: &Resolver, info: ResolverInfo, fuel: usize) -> (r: ResolverStats)
        ensures
            r@ == alias_field_stage(
                resolver.options@,
                resolver.disk(),
                *self.pkg_info,
                info@,
                fuel as nat,
                0,
            ),
            sound(r@, resolver.disk()),
            carries(r@, info@),
            is_absolute(info@.path) && manifest_anchored(*self.pkg_info) ==> anchored(r@),
            is_normal(info@.path) && manifest_settled(*self.pkg_info) ==> settled_paths(r@),
        decreases fuel, 5nat, 0nat,
    {
        match self.pkg_info {
            None => ResolverStats::Resolving(info),
            Some(p) => {
                let mut i: usize = 0;
                while i < resolver.options.alias_fields.len()
                    invariant
                        i <= resolver.options.alias_fields.len(),
                        *self.pkg_info == Some(*p),
                        alias_field_stage(
                            resolver.options@,
                            resolver.disk(),
                            *self.pkg_info,
                            info@,
                            fuel as nat,
                            0,
                        ) == alias_field_stage(
                            resolver.options@,
                            resolver.disk(),
                            *self.pkg_info,
                            info@,
                            fuel as nat,
                            i as int,
                        ),
                    decreases resolver.options.alias_fields.len() - i,
                {
                    match p.json.get(resolver.options.alias_fields[i].as_str()) {
                        Some(map) => match map {
                            Value::Object(_) => match map.get(info.request.target.as_str()) {
                                Some(Value::Text(v)) => {
                                    return resolver.reenter(
                                        ResolverInfo::from(
                                            p.dir.clone(),
                                            info.request.with_target(v.as_str()),
                                        ),
                                        fuel,
                                    );
                                },
                                Some(Value::Bool(b)) => {
                                    if !*b {
                                        return ResolverStats::Success(ResolverResult::Ignored);
                                    }
                                },
                                _ => {},
                            },
                            _ => {},
                        },
                        None => {},
                    }
                    i += 1;
                }
                ResolverStats::Resolving(info)
            },
        }
    }
}

} // verus!
