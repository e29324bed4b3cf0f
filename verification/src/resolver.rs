//! The resolver: its options and what it knows of the file system.

use crate::description::DescriptionData;
use crate::error::{ErrorKind, ErrorView, Fault, FaultView, ResolverError};
use crate::fs::{
    entry_matches, entry_of, exclusive, known_manifests, load_entry_from, share, slot_fits,
    table_fits, Disk, Entry, EntryKind, ManifestSlot, ResolverSafeCache, ResolverUnsafeCache,
};
use crate::info::{InfoView, ResolverInfo, ResolverResult, ResolverStats, ResultView, StatsView};
use crate::options::{any_empty, settle_config, strip_extensions, EnforceExtension, ResolverOptions};
use crate::parse::{parse, parse_spec};
use crate::path::{
    is_absolute, is_normal, join_path, join_spec, lemma_normalize_normal, normalize,
    normalize_path,
};
use crate::pipeline::resolve_at;
use crate::text::same_str;
use crate::tsconfig::mapped_resolution;
use std::sync::Arc;
use vstd::prelude::*;

verus! {

/// A resolver: its options, the manifests it knows and the paths it knows.
pub struct Resolver {
    pub options: ResolverOptions,
    /// The manifests that the resolver knows; other resolvers may hold
    /// the same cache.
    pub unsafe_cache: Option<Arc<ResolverUnsafeCache>>,
    pub safe_cache: ResolverSafeCache,
    /// The directory of the request at hand; none between resolutions.
    pub input_path: Option<String>,
    /// The request at hand; none between resolutions.
    pub input_request: Option<String>,
}

/// Every info in `s` has the query and the fragment of `info`: no stage
/// changes them.
pub open spec fn carries(s: StatsView, info: InfoView) -> bool {
    match s {
        StatsView::Success(ResultView::Info(i)) => same_marks(i, info),
        StatsView::Resolving(i) => same_marks(i, info),
        StatsView::Failed(i) => same_marks(i, info),
        _ => true,
    }
}

/// The two infos have one query and one fragment.
pub open spec fn same_marks(i: InfoView, info: InfoView) -> bool {
    i.request.query == info.request.query && i.request.fragment == info.request.fragment
}

/// The directory of every info in `s` is an absolute path.
pub open spec fn anchored(s: StatsView) -> bool {
    match s {
        StatsView::Success(ResultView::Info(i)) => is_absolute(i.path),
        StatsView::Resolving(i) => is_absolute(i.path),
        StatsView::Failed(i) => is_absolute(i.path),
        _ => true,
    }
}

/// The directory of every info in `s` is a normal path.
pub open spec fn settled_paths(s: StatsView) -> bool {
    match s {
        StatsView::Success(ResultView::Info(i)) => is_normal(i.path),
        StatsView::Resolving(i) => is_normal(i.path),
        StatsView::Failed(i) => is_normal(i.path),
        _ => true,
    }
}

/// A resolution that ends at a path ends at a file, and no target is left.
pub open spec fn sound(s: StatsView, disk: Disk) -> bool {
    match s {
        StatsView::Success(ResultView::Info(i)) => {
            &&& disk.entries.contains_key(i.path)
            &&& disk.entries[i.path] == EntryKind::File
            &&& i.request.target.len() == 0
        },
        _ => true,
    }
}

impl Default for Resolver {
    fn default() -> (r: Resolver)
        ensures
            r.options@ == settle_config(crate::options::default_config()),
            r.options.unsafe_cache is None,
            r.safe_cache@ == Map::<Seq<char>, EntryKind>::empty(),
            r.unsafe_cache is Some,
            r.disk().manifests == Map::<Seq<char>, ManifestSlot>::empty(),
    {
        Resolver::new(ResolverOptions::default())
    }
}

/// What `resolve` returns: the file that the request denotes, seen from the
/// directory `base`, or that the request is to be left out, or why neither
/// is known.
pub open spec fn resolve_spec(cfg: crate::options::Config, disk: Disk, base: Seq<char>, request: Seq<char>) -> Result<
    ResultView,
    ErrorView,
> {
    let info = InfoView { path: normalize(base), request: parse_spec(request) };
    match (match cfg.tsconfig {
        Some(location) => mapped_resolution(cfg, disk, location, info, cfg.recursion_limit),
        None => resolve_at(cfg, disk, info, cfg.recursion_limit),
    }) {
        StatsView::Success(result) => Ok(result),
        StatsView::Error(f) => Err(
            ErrorView { kind: f.kind, subject: f.subject, request, base },
        ),
        _ => Err(ErrorView { kind: ErrorKind::NotFound, subject: request, request, base }),
    }
}

/// The file that holds the manifest asked for as `subject` by a request
/// from `base`: the typed-configuration manifest is the file itself, the
/// manifest of a directory is the file `package.json` in it.
pub open spec fn manifest_file_spec(
    cfg: crate::options::Config,
    base: Seq<char>,
    subject: Seq<char>,
) -> Seq<char> {
    match cfg.tsconfig {
        Some(named) => if join_spec(normalize(base), named) == subject {
            subject
        } else {
            join_spec(subject, "package.json"@)
        },
        None => join_spec(subject, "package.json"@),
    }
}

/// Whether `r` is the text form of `spec`.
pub open spec fn result_matches(
    r: Result<ResolverResult, ResolverError>,
    spec: Result<ResultView, ErrorView>,
) -> bool {
    match r {
        Ok(v) => spec == Ok::<ResultView, ErrorView>(v@),
        Err(e) => spec == Err::<ResultView, ErrorView>(e@),
    }
}

impl Resolver {
    /// What the resolver knows of the file system.
    pub open spec fn disk(&self) -> Disk {
        Disk { entries: self.safe_cache@, manifests: known_manifests(self.unsafe_cache) }
    }

    /// A resolver with these options, which knows nothing of the file
    /// system but what the manifest cache of the options holds. The
    /// resolver holds the cache of the options, and a cache of its own
    /// where the options name none; of the options, only the extensions
    /// and the enforcement are settled, the rest is kept as it is given.
    pub fn new(options: ResolverOptions) -> (r: Resolver)
        ensures
            r.options@ == settle_config(options@),
            r.options.unsafe_cache == options.unsafe_cache,
            r.options.alias == options.alias,
            r.options.main_fields == options.main_fields,
            r.options.main_files == options.main_files,
            r.options.modules == options.modules,
            r.options.conditions == options.conditions,
            r.options.alias_fields == options.alias_fields,
            r.options.exports_field == options.exports_field,
            r.options.imports_field == options.imports_field,
            r.options.prefer_relative == options.prefer_relative,
            r.options.symlinks == options.symlinks,
            r.options.tsconfig == options.tsconfig,
            r.options.recursion_limit == options.recursion_limit,
            r.input_path is None,
            r.input_request is None,
            r.safe_cache@ == Map::<Seq<char>, EntryKind>::empty(),
            r.unsafe_cache is Some,
            options.unsafe_cache is Some ==> r.unsafe_cache == options.unsafe_cache,
            options.unsafe_cache is None ==> r.disk().manifests == Map::<
                Seq<char>,
                ManifestSlot,
            >::empty(),
    {
        let extensions = strip_extensions(&options.extensions);
        let enforce_extension = match options.enforce_extension {
            EnforceExtension::Auto => if any_empty(&extensions) {
                EnforceExtension::Enabled
            } else {
                EnforceExtension::Disabled
            },
            other => other,
        };
        let (kept, unsafe_cache) = match options.unsafe_cache {
            Some(c) => {
                let mine = share(&c);
                (Some(c), mine)
            },
            None => (None, Arc::new(ResolverUnsafeCache::new())),
        };
        let settled = ResolverOptions {
            extensions,
            enforce_extension,
            alias: options.alias,
            main_fields: options.main_fields,
            main_files: options.main_files,
            modules: options.modules,
            conditions: options.conditions,
            alias_fields: options.alias_fields,
            exports_field: options.exports_field,
            imports_field: options.imports_field,
            prefer_relative: options.prefer_relative,
            symlinks: options.symlinks,
            tsconfig: options.tsconfig,
            unsafe_cache: kept,
            recursion_limit: options.recursion_limit,
        };
        Resolver {
            options: settled,
            unsafe_cache: Some(unsafe_cache),
            safe_cache: ResolverSafeCache::new(),
            input_path: None,
            input_request: None,
        }
    }

    /// Records what a probe found at `path`.
    pub fn record_entry(&mut self, path: &str, kind: EntryKind)
        ensures
            final(self).options == old(self).options,
            final(self).unsafe_cache == old(self).unsafe_cache,
            final(self).input_path == old(self).input_path,
            final(self).input_request == old(self).input_request,
            final(self).safe_cache@ == old(self).safe_cache@.insert(path@, kind),
    {
        self.safe_cache.insert(path, kind);
    }

    /// Records what the manifest loader found in `dir`. A manifest that says
    /// it belongs to another directory is not recorded, and nothing is
    /// recorded while another resolver holds the same cache. The handle of
    /// the options is let go for the while and is a handle to the
    /// resolver's cache afterwards.
    pub fn record_manifest(&mut self, dir: &str, slot: ManifestSlot) -> (ok: bool)
        ensures
            final(self).options@ == old(self).options@,
            final(self).options.unsafe_cache == (if old(self).options.unsafe_cache is Some {
                final(self).unsafe_cache
            } else {
                None
            }),
            final(self).unsafe_cache is Some,
            final(self).safe_cache == old(self).safe_cache,
            final(self).input_path == old(self).input_path,
            final(self).input_request == old(self).input_request,
            ok ==> slot_fits(dir@, slot),
            ok ==> final(self).disk().manifests == old(self).disk().manifests.insert(dir@, slot),
            !ok ==> final(self).disk().manifests == old(self).disk().manifests,
    {
        let had = self.options.unsafe_cache.is_some();
        self.options.unsafe_cache = None;
        if self.unsafe_cache.is_none() {
            self.unsafe_cache = Some(Arc::new(ResolverUnsafeCache::new()));
        }
        let ok = match &mut self.unsafe_cache {
            Some(handle) => match exclusive(handle) {
                Some(cache) => cache.insert(dir, slot),
                None => false,
            },
            None => false,
        };
        if had {
            self.options.unsafe_cache = match &self.unsafe_cache {
                Some(handle) => Some(share(handle)),
                None => None,
            };
        }
        ok
    }

    /// What is recorded for the directory `dir`.
    pub fn manifest_slot(&self, dir: &str) -> (r: Option<ManifestSlot>)
        ensures
            r == (if self.disk().manifests.contains_key(dir@) {
                Some(self.disk().manifests[dir@])
            } else {
                None
            }),
    {
        match &self.unsafe_cache {
            Some(cache) => cache.get(dir),
            None => None,
        }
    }

    /// Every manifest that the resolver knows is recorded under its own
    /// directory.
    pub fn note_manifests(&self)
        ensures
            table_fits(self.disk().manifests),
    {
        match &self.unsafe_cache {
            Some(cache) => cache.note_fits(),
            None => {},
        }
    }

    /// Resolves `request` as seen from the directory `path`, from what the
    /// resolver knows of the file system. Where it needs to know more, the
    /// error says of which path (`EntryUnknown`) or directory
    /// (`ManifestUnknown`).
    pub fn resolve(&self, path: &str, request: &str) -> (r: Result<ResolverResult, ResolverError>)
        ensures
            result_matches(r, resolve_spec(self.options@, self.disk(), path@, request@)),
            match r {
                Ok(ResolverResult::Info(info)) => {
                    &&& self.safe_cache@.contains_key(info@.path)
                    &&& self.safe_cache@[info@.path] == EntryKind::File
                    &&& info@.request.target.len() == 0
                    &&& info@.request.query == parse_spec(request@).query
                    &&& info@.request.fragment == parse_spec(request@).fragment
                    &&& is_absolute(path@) ==> is_absolute(info@.path)
                    &&& is_normal(info@.path)
                },
                _ => true,
            },
    {
        let info = ResolverInfo::from(normalize_path(path), parse(request));
        proof {
            lemma_normalize_normal(path@);
        }
        let stats = match &self.options.tsconfig {
            Some(location) => self._resolve_with_tsconfig(
                info,
                location.as_str(),
                self.options.recursion_limit,
            ),
            None => self._resolve(info, self.options.recursion_limit),
        };
        match stats {
            ResolverStats::Success(result) => Ok(result),
            ResolverStats::Error(fault) => Err(
                ResolverError {
                    kind: fault.kind,
                    subject: fault.subject,
                    request: request.to_owned(),
                    base: path.to_owned(),
                },
            ),
            _ => Err(
                ResolverError {
                    kind: ErrorKind::NotFound,
                    subject: request.to_owned(),
                    request: request.to_owned(),
                    base: path.to_owned(),
                },
            ),
        }
    }

    /// The file to read where a resolution from `base` asks for the
    /// manifest of `subject`.
    pub fn manifest_file(&self, base: &str, subject: &str) -> (r: String)
        ensures
            r@ == manifest_file_spec(self.options@, base@, subject@),
    {
        match &self.options.tsconfig {
            Some(named) => {
                let located = join_path(normalize_path(base).as_str(), named.as_str());
                if same_str(located.as_str(), subject) {
                    subject.to_owned()
                } else {
                    join_path(subject, "package.json")
                }
            },
            None => join_path(subject, "package.json"),
        }
    }

    /// The entry of `path`: what stands there, and the nearest manifest.
    pub fn load_entry(&self, path: &str) -> (r: Result<Entry, Fault>)
        ensures
            entry_matches(r, entry_of(self.disk(), path@)),
    {
        match &self.unsafe_cache {
            Some(cache) => load_entry_from(&self.safe_cache, cache, path),
            None => {
                let none = ResolverUnsafeCache::new();
                load_entry_from(&self.safe_cache, &none, path)
            },
        }
    }
}

} // verus!
