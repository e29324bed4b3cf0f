//! The main fields of a package's manifest name the package's entry.

use crate::description::DescriptionData;
use crate::info::{normalized_path, ResolverInfo, ResolverStats};
use crate::path::{is_absolute, is_normal, lemma_join_normal};
use crate::pipeline::{main_field_stage, main_target};
use crate::resolver::{anchored, carries, settled_paths, sound, Resolver};
use crate::text::{chars_of, push_all, same_str, text_of};
use vstd::prelude::*;

verus! {

/// The stage of the main fields of one manifest.
pub struct MainFieldPlugin<'a> {
    pub pkg_info: &'a DescriptionData,
}

/// The target that a main field's value stands for, if it may be used.
fn target_of(value: &str) -> (r: Option<String>)
    ensures
        match r {
            Some(t) => main_target(Some(value@)) == Some(t@),
            None => main_target(Some(value@)) is None,
        },
{
    let v = chars_of(value);
    if v.len() == 1 && v[0] == '.' {
        proof {
            assert(v@ =~= seq!['.']);
        }
        None
    } else if v.len() == 2 && v[0] == '.' && v[1] == '/' {
        proof {
            assert(v@ =~= seq!['.', '/']);
        }
        None
    } else if v.len() >= 2 && v[0] == '.' && v[1] == '/' {
        Some(text_of(&v))
    } else {
        let mut t: Vec<char> = vec!['.', '/'];
        push_all(&mut t, &v);
        Some(text_of(&t))
    }
}

impl<'a> MainFieldPlugin<'a> {
    pub fn new(pkg_info: &'a DescriptionData) -> (r: Self)
        ensures
            r.pkg_info == pkg_info,
    {
        Self { pkg_info }
    }

    /// Where the info denotes the directory of the manifest: the first main
    /// field whose value resolves decides.
    pub fn apply(&self, resolver: &Resolver, info: ResolverInfo, fuel: usize) -> (r: ResolverStats)
        ensures
            r@ == main_field_stage(
                resolver.options@,
                resolver.disk(),
                *self.pkg_info,
                info@,
                fuel as nat,
                0,
            ),
            sound(r@, resolver.disk()),
            carries(r@, info@),
            is_absolute(info@.path) ==> anchored(r@),
            is_normal(info@.path) ==> settled_paths(r@),
        decreases fuel, 5nat, 0nat,
    {
        let path = info.get_path();
        proof {
            lemma_join_normal(info@.path, info@.request.target);
        }
        if !same_str(self.pkg_info.dir.as_str(), path.as_str()) {
            return ResolverStats::Resolving(info);
        }
        let mut i: usize = 0;
        while i < resolver.options.main_fields.len()
            invariant
                i <= resolver.options.main_fields.len(),
                path@ == normalized_path(info@),
                self.pkg_info.dir@ == path@,
                is_absolute(info@.path) ==> is_absolute(path@),
                is_normal(info@.path) ==> is_normal(path@),
                main_field_stage(
                    resolver.options@,
                    resolver.disk(),
                    *self.pkg_info,
                    info@,
                    fuel as nat,
                    0,
                ) == main_field_stage(
                    resolver.options@,
                    resolver.disk(),
                    *self.pkg_info,
                    info@,
                    fuel as nat,
                    i as int,
                ),
            decreases resolver.options.main_fields.len() - i,
        {
            match self.pkg_info.json.get_text(resolver.options.main_fields[i].as_str()) {
                Some(value) => match target_of(value.as_str()) {
                    Some(t) => {
                        let attempt = resolver.reenter(
                            ResolverInfo::from(
                                path.clone(),
                                info.request.duplicate().with_target(t.as_str()),
                            ),
                            fuel,
                        );
                        if attempt.is_finished() {
                            return attempt;
                        }
                    },
                    None => {},
                },
                None => {},
            }
            i += 1;
        }
        ResolverStats::Resolving(info)
    }
}

} // verus!
