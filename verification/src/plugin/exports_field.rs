//! The exports map of a package decides which of its files a request for
//! one of its modules reaches.

use crate::description::{DescriptionData, Value};
use crate::error::Fault;
use crate::info::{ResolverInfo, ResolverStats};
use crate::map::resolve_subpath;
use crate::path::{is_absolute, is_normal};
use crate::pipeline::{exports_stage, module_name_of, subpath_of};
use crate::resolve::get_module_name_from_request;
use crate::resolver::{anchored, carries, settled_paths, sound, Resolver};
use crate::text::{chars_of, push_all, slice_of, text_of};
use vstd::prelude::*;

verus! {

/// The stage of the exports map of one manifest.
pub struct ExportsFieldPlugin<'a> {
    pub pkg_info: &'a DescriptionData,
}

impl<'a> ExportsFieldPlugin<'a> {
    pub fn new(pkg_info: &'a DescriptionData) -> (r: Self)
        ensures
            r.pkg_info == pkg_info,
    {
        Self { pkg_info }
    }

    /// The info with the target that the exports map gives for the subpath
    /// asked for, read from the package's directory.
    pub fn apply(&self, resolver: &Resolver, info: ResolverInfo) -> (r: ResolverStats)
        ensures
            r@ == exports_stage(resolver.options@, *self.pkg_info, info@),
            sound(r@, resolver.disk()),
            carries(r@, info@),
            is_absolute(info@.path) && is_absolute(self.pkg_info.dir@) ==> anchored(r@),
            is_normal(info@.path) && is_normal(self.pkg_info.dir@) ==> settled_paths(r@),
    {
        match self.pkg_info.json.get(resolver.options.exports_field.as_str()) {
            Some(map) => match map {
                Value::Object(_) => {
                    let name = get_module_name_from_request(&info.request.target);
                    let target = chars_of(info.request.target.as_str());
                    let name_len: usize = chars_of(name.as_str()).len();
                    proof {
                        crate::text::lemma_first_index(target@, '/', 0);
                        let first = crate::text::first_index(target@, '/', 0);
                        if first < target@.len() {
                            crate::text::lemma_first_index(target@, '/', first + 1);
                        }
                    }
                    let mut subpath: Vec<char> = vec!['.'];
                    push_all(&mut subpath, &slice_of(&target, name_len, target.len()));
                    let subpath = text_of(&subpath);
                    proof {
                        assert(subpath@ =~= subpath_of(info@.request.target));
                    }
                    match resolve_subpath(
                        map,
                        subpath.as_str(),
                        &resolver.options.conditions,
                        true,
                    ) {
                        Ok(t) => ResolverStats::Resolving(
                            ResolverInfo::from(
                                self.pkg_info.dir.clone(),
                                info.request.with_target(t.as_str()),
                            ),
                        ),
                        Err(kind) => ResolverStats::Error(Fault::new(kind, subpath.as_str())),
                    }
                },
                _ => ResolverStats::Resolving(info),
            },
            None => ResolverStats::Resolving(info),
        }
    }
}

} // verus!
