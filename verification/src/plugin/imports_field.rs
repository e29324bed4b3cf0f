//! The imports map of the enclosing manifest answers internal requests.

use crate::description::{DescriptionData, Value};
use crate::error::Fault;
use crate::info::{ResolverInfo, ResolverStats};
use crate::kind::PathKind;
use crate::map::resolve_subpath;
use crate::path::{is_absolute, is_normal};
use crate::pipeline::imports_stage;
use crate::resolver::{anchored, carries, settled_paths, sound, Resolver};
use std::sync::Arc;
use vstd::prelude::*;

verus! {

/// The stage of the imports map of one manifest.
pub struct ImportsFieldPlugin<'a> {
    pub pkg_info: &'a Option<Arc<DescriptionData>>,
}

/// The directory of the manifest, if there is one, is an absolute path.
pub open spec fn manifest_anchored(pkg_info: Option<Arc<DescriptionData>>) -> bool {
    match pkg_info {
        Some(p) => is_absolute(p.dir@),
        None => true,
    }
}

/// The directory of the manifest, if there is one, is a normal path.
pub open spec fn manifest_settled(pkg_info: Option<Arc<DescriptionData>>) -> bool {
    match pkg_info {
        Some(p) => is_normal(p.dir@),
        None => true,
    }
}

impl<'a> ImportsFieldPlugin<'a> {
    pub fn new(pkg_info: &'a Option<Arc<DescriptionData>>) -> (r: Self)
        ensures
            r.pkg_info == pkg_info,
    {
        Self { pkg_info }
    }

    /// An internal request is looked up in the imports map, and what the
    /// map gives is resolved from the manifest's directory.
    pub fn apply(&self, resolver: &Resolver, info: ResolverInfo, fuel: usize) -> (r: ResolverStats)
        ensures
            r@ == imports_stage(
                resolver.options@,
                resolver.disk(),
                *self.pkg_info,
                info@,
                fuel as nat,
            ),
            sound(r@, resolver.disk()),
            carries(r@, info@),
            is_absolute(info@.path) && manifest_anchored(*self.pkg_info) ==> anchored(r@),
            is_normal(info@.path) && manifest_settled(*self.pkg_info) ==> settled_paths(r@),
        decreases fuel, 5nat, 0nat,
    {
        if !(info.request.kind == PathKind::Internal) {
            return ResolverStats::Resolving(info);
        }
        match self.pkg_info {
            None => ResolverStats::Resolving(info),
            Some(p) => match p.json.get(resolver.options.imports_field.as_str()) {
                Some(map) => match map {
                    Value::Object(_) => match resolve_subpath(
                        map,
                        info.request.target.as_str(),
                        &resolver.options.conditions,
                        false,
                    ) {
                        Ok(t) => resolver.reenter(
                            ResolverInfo::from(
                                p.dir.clone(),
                                info.request.with_target(t.as_str()),
                            ),
                            fuel,
                        ),
                        Err(kind) => ResolverStats::Error(
                            Fault::new(kind, info.request.target.as_str()),
                        ),
                    },
                    _ => ResolverStats::Resolving(info),
                },
                None => ResolverStats::Resolving(info),
            },
        }
    }
}

} // verus!
