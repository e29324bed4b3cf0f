//! The engine: a request read as a file, as a directory, as a module.

use crate::description::DescriptionData;
use crate::error::{ErrorKind, Fault};
use crate::fs::{lemma_entry_manifest, EntryKind};
use crate::info::{ResolverInfo, ResolverResult, ResolverStats};
use crate::kind::PathKind;
use crate::path::{
    append_ext, is_absolute, is_normal, join_path, lemma_extension_normal, lemma_join_normal,
    lemma_parent, lemma_parent_normal, normalize_path, suffix_of, with_extension, parent,
};
use crate::pipeline::{
    as_dir, as_file, as_modules, descend, file_with_ext, found, module_attempt, module_name_of,
    modules_scan, package_stages, resolve_at,
};
use crate::plugin::alias::AliasPlugin;
use crate::plugin::alias_field::AliasFieldPlugin;
use crate::plugin::exports_field::ExportsFieldPlugin;
use crate::plugin::imports_field::{manifest_anchored, manifest_settled, ImportsFieldPlugin};
use crate::plugin::main_field::MainFieldPlugin;
use crate::plugin::main_file::MainFilePlugin;
use crate::plugin::prefer_relative::PreferRelativePlugin;
use std::sync::Arc;
use crate::resolver::{anchored, carries, settled_paths, sound, Resolver};
use crate::smol::{smol_new, smol_text};
use crate::text::{chars_of, find_from, same_str, slice_of, text_of};
use smol_str::SmolStr;
use vstd::prelude::*;

verus! {

/// The state that ends a resolution at the file `path`.
pub fn file_found(info: ResolverInfo, path: String) -> (r: ResolverStats)
    ensures
        r@ == found(info@, path@),
{
    proof {
        reveal_strlit("");
        assert(""@ =~= Seq::<char>::empty());
    }
    ResolverStats::Success(ResolverResult::Info(info.with_path(path).with_target("")))
}

/// The name of the module that a target asks for.
pub fn get_module_name_from_request(target: &SmolStr) -> (name: SmolStr)
    ensures
        smol_text(name) == module_name_of(smol_text(*target)),
{
    let chars = chars_of(target.as_str());
    let first: usize = find_from(&chars, '/', 0);
    let end: usize = if chars.len() > 0 && chars[0] == '@' {
        if first < chars.len() {
            find_from(&chars, '/', first + 1)
        } else {
            chars.len()
        }
    } else {
        first
    };
    smol_new(text_of(&slice_of(&chars, 0, end)).as_str())
}

/// Whether the package of `pkg_info` is the module `request_module_name`
/// itself.
pub fn is_resolve_self(pkg_info: &DescriptionData, request_module_name: &SmolStr) -> (r: bool)
    ensures
        r == (pkg_info.name_spec() == Some(smol_text(*request_module_name))),
{
    match pkg_info.name() {
        Some(name) => same_str(name.as_str(), request_module_name.as_str()),
        None => false,
    }
}

impl Resolver {
    /// `path` followed by `ext`, as it is written: nothing is put between
    /// them, and what `path` ends with stays.
    pub fn append_ext_for_path(path: &str, ext: &str) -> (r: String)
        ensures
            r@ == path@ + ext@,
    {
        append_ext(path, ext)
    }

    /// The first file among `path` with each extension.
    pub fn resolve_file_with_ext(&self, path: String, info: ResolverInfo) -> (r: ResolverStats)
        ensures
            r@ == file_with_ext(self.options@, self.disk(), path@, info@, 0),
            sound(r@, self.disk()),
            carries(r@, info@),
            is_absolute(info@.path) && is_absolute(path@) ==> anchored(r@),
            is_normal(info@.path) ==> settled_paths(r@),
    {
        let mut i: usize = 0;
        while i < self.options.extensions.len()
            invariant
                i <= self.options.extensions.len(),
                file_with_ext(self.options@, self.disk(), path@, info@, 0) == file_with_ext(
                    self.options@,
                    self.disk(),
                    path@,
                    info@,
                    i as int,
                ),
            decreases self.options.extensions.len() - i,
        {
            let suffix = suffix_of(self.options.extensions[i].as_str());
            let candidate = normalize_path(
                Self::append_ext_for_path(path.as_str(), suffix.as_str()).as_str(),
            );
            proof {
                lemma_extension_normal(path@, self.options@.extensions[i as int]);
            }
            match self.safe_cache.probe(candidate.as_str()) {
                Err(fault) => {
                    return ResolverStats::Error(fault);
                },
                Ok(kind) => {
                    if kind == EntryKind::File {
                        return file_found(info, candidate);
                    }
                },
            }
            i += 1;
        }
        ResolverStats::Resolving(info)
    }

    /// The info read as a file.
    pub fn resolve_as_file(&self, info: ResolverInfo) -> (r: ResolverStats)
        ensures
            r@ == as_file(self.options@, self.disk(), info@),
            sound(r@, self.disk()),
            carries(r@, info@),
            is_absolute(info@.path) ==> anchored(r@),
            is_normal(info@.path) ==> settled_paths(r@),
    {
        let path = info.get_path();
        proof {
            lemma_join_normal(info@.path, info@.request.target);
        }
        if self.options.enforce_extension == crate::options::EnforceExtension::Enabled {
            return self.resolve_file_with_ext(path, info);
        }
        match self.safe_cache.probe(path.as_str()) {
            Err(fault) => ResolverStats::Error(fault),
            Ok(kind) => {
                if kind == EntryKind::File {
                    file_found(info, path)
                } else {
                    self.resolve_file_with_ext(path, info)
                }
            },
        }
    }
}

impl Resolver {
    /// A stage re-enters the resolution, if it still may.
    pub fn reenter(&self, info: ResolverInfo, fuel: usize) -> (r: ResolverStats)
        ensures
            r@ == descend(self.options@, self.disk(), info@, fuel as nat),
            sound(r@, self.disk()),
            carries(r@, info@),
            is_absolute(info@.path) ==> anchored(r@),
            is_normal(info@.path) ==> settled_paths(r@),
        decreases fuel, 0nat, 0nat,
    {
        if fuel == 0 {
            ResolverStats::Error(
                Fault::new(ErrorKind::RecursionLimit, info.request.target.as_str()),
            )
        } else {
            self._resolve(info, fuel - 1)
        }
    }

    /// The resolution of `info`, which may re-enter itself `fuel` times.
    pub fn _resolve(&self, info: ResolverInfo, fuel: usize) -> (r: ResolverStats)
        ensures
            r@ == resolve_at(self.options@, self.disk(), info@, fuel as nat),
            sound(r@, self.disk()),
            carries(r@, info@),
            is_absolute(info@.path) ==> anchored(r@),
            is_normal(info@.path) ==> settled_paths(r@),
        decreases fuel, 20nat, 0nat,
    {
        let info = match AliasPlugin.apply(self, info, fuel) {
            ResolverStats::Resolving(i) => i,
            other => {
                return other;
            },
        };
        let info = match PreferRelativePlugin.apply(self, info, fuel) {
            ResolverStats::Resolving(i) => i,
            other => {
                return other;
            },
        };
        let entry = match self.load_entry(info.path.as_str()) {
            Ok(e) => e,
            Err(fault) => {
                return ResolverStats::Error(fault);
            },
        };
        self.note_manifests();
        proof {
            lemma_entry_manifest(self.disk(), info@.path);
        }
        let info = match ImportsFieldPlugin::new(&entry.pkg_info).apply(self, info, fuel) {
            ResolverStats::Resolving(i) => i,
            other => {
                return other;
            },
        };
        let info = match AliasFieldPlugin::new(&entry.pkg_info).apply(self, info, fuel) {
            ResolverStats::Resolving(i) => i,
            other => {
                return other;
            },
        };
        let stats = if info.request.kind == PathKind::AbsolutePosix || info.request.kind
            == PathKind::AbsoluteWin || info.request.kind == PathKind::Relative {
            match self.resolve_as_file(info) {
                ResolverStats::Resolving(i) => self.resolve_as_dir(i, fuel),
                other => other,
            }
        } else {
            self.resolve_as_modules(info, fuel)
        };
        match stats {
            ResolverStats::Resolving(i) => ResolverStats::Failed(i),
            other => other,
        }
    }

    /// The info read as a directory: the main fields of its own manifest,
    /// then the main files.
    pub fn resolve_as_dir(&self, info: ResolverInfo, fuel: usize) -> (r: ResolverStats)
        ensures
            r@ == as_dir(self.options@, self.disk(), info@, fuel as nat),
            sound(r@, self.disk()),
            carries(r@, info@),
            is_absolute(info@.path) ==> anchored(r@),
            is_normal(info@.path) ==> settled_paths(r@),
        decreases fuel, 9nat, 0nat,
    {
        let dir = info.get_path();
        proof {
            lemma_join_normal(info@.path, info@.request.target);
        }
        let entry = match self.load_entry(dir.as_str()) {
            Ok(e) => e,
            Err(fault) => {
                return ResolverStats::Error(fault);
            },
        };
        if !entry.is_dir() {
            return ResolverStats::Failed(info);
        }
        proof {
            reveal_strlit("");
            assert(""@ =~= Seq::<char>::empty());
        }
        let here = info.with_path(dir).with_target("");
        let stats = match &entry.pkg_info {
            Some(p) => MainFieldPlugin::new(&**p).apply(self, here, fuel),
            None => ResolverStats::Resolving(here),
        };
        match stats {
            ResolverStats::Resolving(i) => MainFilePlugin.apply(self, i),
            other => other,
        }
    }

    /// What the manifest makes of a request for the module that it
    /// encloses: its exports, unless they are to be passed over, its
    /// imports, its main fields and its alias fields.
    fn apply_package(
        &self,
        pkg_info: &Option<Arc<DescriptionData>>,
        skip_exports: bool,
        info: ResolverInfo,
        fuel: usize,
    ) -> (r: ResolverStats)
        requires
            pkg_info is Some,
        ensures
            r@ == package_stages(
                self.options@,
                self.disk(),
                pkg_info->0,
                skip_exports,
                info@,
                fuel as nat,
            ),
            sound(r@, self.disk()),
            carries(r@, info@),
            is_absolute(info@.path) && manifest_anchored(*pkg_info) ==> anchored(r@),
            is_normal(info@.path) && manifest_settled(*pkg_info) ==> settled_paths(r@),
        decreases fuel, 11nat, 0nat,
    {
        let p: &DescriptionData = match pkg_info {
            Some(p) => &**p,
            None => {
                proof {
                    assert(false);
                }
                unreached()
            },
        };
        let stats = if skip_exports {
            ResolverStats::Resolving(info)
        } else {
            ExportsFieldPlugin::new(p).apply(self, info)
        };
        let info = match stats {
            ResolverStats::Resolving(i) => i,
            other => {
                return other;
            },
        };
        let info = match ImportsFieldPlugin::new(pkg_info).apply(self, info, fuel) {
            ResolverStats::Resolving(i) => i,
            other => {
                return other;
            },
        };
        let path = join_path(info.path.as_str(), info.request.target.as_str());
        proof {
            lemma_join_normal(info@.path, info@.request.target);
            reveal_strlit(".");
            assert("."@ =~= seq!['.']);
        }
        let info = info.with_path(path).with_target(".");
        let info = match MainFieldPlugin::new(p).apply(self, info, fuel) {
            ResolverStats::Resolving(i) => i,
            other => {
                return other;
            },
        };
        AliasFieldPlugin::new(pkg_info).apply(self, info, fuel)
    }

    /// The request sought in the dependency directory `name` of the info's
    /// directory.
    pub fn resolve_in_modules_dir(&self, info: ResolverInfo, name: &str, fuel: usize) -> (r:
        ResolverStats)
        ensures
            r@ == module_attempt(self.options@, self.disk(), info@, name@, fuel as nat),
            sound(r@, self.disk()),
            carries(r@, info@),
            is_absolute(info@.path) ==> anchored(r@),
            is_normal(info@.path) ==> settled_paths(r@),
        decreases fuel, 12nat, 0nat,
    {
        let root = join_path(info.path.as_str(), name);
        proof {
            lemma_join_normal(info@.path, name@);
        }
        match self.safe_cache.probe(root.as_str()) {
            Err(fault) => {
                return ResolverStats::Error(fault);
            },
            Ok(kind) => {
                if !(kind == EntryKind::Directory) {
                    return ResolverStats::Resolving(info);
                }
            },
        }
        let module = get_module_name_from_request(&info.request.target);
        let module_dir = join_path(root.as_str(), module.as_str());
        let entry = match self.load_entry(module_dir.as_str()) {
            Ok(e) => e,
            Err(fault) => {
                return ResolverStats::Error(fault);
            },
        };
        self.note_manifests();
        proof {
            lemma_join_normal(root@, smol_text(module));
            lemma_entry_manifest(self.disk(), module_dir@);
        }
        let own = match &entry.pkg_info {
            Some(p) => is_resolve_self(&**p, &module),
            None => false,
        };
        let module_info = info.duplicate().with_path(root);
        if !entry.is_dir() && !own {
            let attempt = self.resolve_as_file(module_info);
            if attempt.is_finished() {
                return attempt;
            } else {
                return ResolverStats::Resolving(info);
            }
        }
        let stats = match &entry.pkg_info {
            Some(p) => {
                let skip = same_str(p.dir.as_str(), info.path.as_str()) && !own;
                self.apply_package(&entry.pkg_info, skip, module_info, fuel)
            },
            None => ResolverStats::Resolving(module_info),
        };
        let stats = match stats {
            ResolverStats::Resolving(i1) => match self.resolve_as_file(i1) {
                ResolverStats::Resolving(i2) => self.resolve_as_dir(i2, fuel),
                other => other,
            },
            other => other,
        };
        match stats {
            ResolverStats::Failed(_) => ResolverStats::Resolving(info),
            ResolverStats::Resolving(_) => ResolverStats::Resolving(info),
            other => other,
        }
    }

    /// The request sought as a module: in the dependency directories of the
    /// info's directory, then from the parent directory.
    pub fn resolve_as_modules(&self, info: ResolverInfo, fuel: usize) -> (r: ResolverStats)
        ensures
            r@ == as_modules(self.options@, self.disk(), info@, fuel as nat),
            sound(r@, self.disk()),
            carries(r@, info@),
            is_absolute(info@.path) ==> anchored(r@),
            is_normal(info@.path) ==> settled_paths(r@),
        decreases fuel, 14nat, 0nat,
    {
        let mut k: usize = 0;
        while k < self.options.modules.len()
            invariant
                k <= self.options.modules.len(),
                modules_scan(self.options@, self.disk(), info@, fuel as nat, 0) == modules_scan(
                    self.options@,
                    self.disk(),
                    info@,
                    fuel as nat,
                    k as int,
                ),
                !modules_scan(self.options@, self.disk(), info@, fuel as nat, k as int).is_finished()
                    ==> !modules_scan(
                    self.options@,
                    self.disk(),
                    info@,
                    fuel as nat,
                    0,
                ).is_finished(),
            decreases self.options.modules.len() - k,
        {
            let attempt = self.resolve_in_modules_dir(
                info.duplicate(),
                self.options.modules[k].as_str(),
                fuel,
            );
            if attempt.is_finished() {
                return attempt;
            }
            k += 1;
        }
        proof {
            lemma_parent(info@.path);
            if is_normal(info@.path) {
                lemma_parent_normal(info@.path);
            }
        }
        match parent(info.path.as_str()) {
            Some(up) => match self.reenter(info.with_path(up), fuel) {
                ResolverStats::Resolving(i) => ResolverStats::Failed(i),
                other => other,
            },
            None => ResolverStats::Failed(info),
        }
    }
}

} // verus!
