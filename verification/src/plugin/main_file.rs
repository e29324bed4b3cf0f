//! A directory stands for the main file in it.

use crate::fs::EntryKind;
use crate::info::{normalized_path, ResolverInfo, ResolverStats};
use crate::path::{
    is_absolute, is_normal, join_path, lemma_extension_normal, lemma_join_normal, with_ext,
};
use crate::pipeline::main_file;
use crate::resolve::file_found;
use crate::resolver::{anchored, carries, settled_paths, sound, Resolver};
use vstd::prelude::*;

verus! {

/// The stage of the main files.
pub struct MainFilePlugin;

impl MainFilePlugin {
    /// The first of the main files, with the first of the extensions, that
    /// is a file in the directory that the info denotes.
    pub fn apply(&self, resolver: &Resolver, info: ResolverInfo) -> (r: ResolverStats)
        ensures
            r@ == main_file(resolver.options@, resolver.disk(), info@, 0, 0),
            sound(r@, resolver.disk()),
            carries(r@, info@),
            is_absolute(info@.path) ==> anchored(r@),
            is_normal(info@.path) ==> settled_paths(r@),
    {
        let dir = info.get_path();
        proof {
            lemma_join_normal(info@.path, info@.request.target);
        }
        let mut i: usize = 0;
        while i < resolver.options.main_files.len()
            invariant
                i <= resolver.options.main_files.len(),
                dir@ == normalized_path(info@),
                is_absolute(info@.path) ==> is_absolute(dir@),
                is_normal(info@.path) ==> is_normal(dir@),
                main_file(resolver.options@, resolver.disk(), info@, 0, 0) == main_file(
                    resolver.options@,
                    resolver.disk(),
                    info@,
                    i as int,
                    0,
                ),
            decreases resolver.options.main_files.len() - i,
        {
            let file = join_path(dir.as_str(), resolver.options.main_files[i].as_str());
            proof {
                lemma_join_normal(dir@, resolver.options.main_files[i as int]@);
            }
            let mut j: usize = 0;
            while j < resolver.options.extensions.len()
                invariant
                    i < resolver.options.main_files.len(),
                    j <= resolver.options.extensions.len(),
                    dir@ == normalized_path(info@),
                    file@ == crate::path::join_spec(dir@, resolver.options@.main_files[i as int]),
                    is_absolute(info@.path) ==> is_absolute(file@),
                    is_normal(info@.path) ==> is_normal(file@),
                    main_file(resolver.options@, resolver.disk(), info@, 0, 0) == main_file(
                        resolver.options@,
                        resolver.disk(),
                        info@,
                        i as int,
                        j as int,
                    ),
                decreases resolver.options.extensions.len() - j,
            {
                let candidate = with_ext(
                    file.as_str(),
                    resolver.options.extensions[j].as_str(),
                );
                proof {
                    lemma_extension_normal(file@, resolver.options@.extensions[j as int]);
                }
                match resolver.safe_cache.probe(candidate.as_str()) {
                    Err(fault) => {
                        return ResolverStats::Error(fault);
                    },
                    Ok(kind) => {
                        if kind == EntryKind::File {
                            return file_found(info, candidate);
                        }
                    },
                }
                j += 1;
            }
            i += 1;
        }
        ResolverStats::Failed(info)
    }
}

} // verus!
