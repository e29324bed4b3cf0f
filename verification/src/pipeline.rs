//! The resolution as a mathematical function: what each stage makes of an
//! info, given the options and what is known of the file system.

use crate::description::{member, DescriptionData, Value};
use crate::error::{ErrorKind, FaultView};
use crate::fs::{entry_of, kind_at, Disk, EntryKind};
use crate::info::{normalized_path, reaim, repath, settled, InfoView, ResultView, StatsView};
use crate::kind::PathKind;
use crate::map::{is_dot_relative, lookup_subpath};
use crate::options::{AliasView, Config, EnforceExtension};
use crate::parse::retarget;
use crate::path::{join_spec, parent_of, with_extension};
use crate::text::first_index;
use std::sync::Arc;
use vstd::prelude::*;

verus! {

/// The state that stops a resolution for `kind`.
pub open spec fn fault(kind: ErrorKind, subject: Seq<char>) -> StatsView {
    StatsView::Error(FaultView { kind, subject })
}

/// The state that ends a resolution at the file `path`.
pub open spec fn found(info: InfoView, path: Seq<char>) -> StatsView {
    StatsView::Success(ResultView::Info(settled(info, path)))
}

/// The name of the module that a target asks for: what stands before the
/// first `/`, or before the second where the target begins with `@`.
pub open spec fn module_name_of(target: Seq<char>) -> Seq<char> {
    let first = first_index(target, '/', 0);
    if target.len() > 0 && target[0] == '@' {
        target.subrange(0, first_index(target, '/', first + 1))
    } else {
        target.subrange(0, first)
    }
}

/// Whether the package of `pkg` is the module `name` itself.
pub open spec fn is_self_reference(pkg: Option<Arc<DescriptionData>>, name: Seq<char>) -> bool {
    match pkg {
        Some(p) => p.name_spec() == Some(name),
        None => false,
    }
}

/// The subpath that a target asks of its module: `.` and what stands behind
/// the module's name.
pub open spec fn subpath_of(target: Seq<char>) -> Seq<char> {
    seq!['.'] + target.subrange(module_name_of(target).len() as int, target.len() as int)
}

/// An alias key matches a target that is the key, or that begins with the
/// key and a `/`.
pub open spec fn alias_matches(key: Seq<char>, target: Seq<char>) -> bool {
    target == key || (key + seq!['/']).is_prefix_of(target)
}

/// The target that an alias gives: the alias value, and what stood behind
/// the key.
pub open spec fn alias_target(key: Seq<char>, value: Seq<char>, target: Seq<char>) -> Seq<char> {
    value + target.subrange(key.len() as int, target.len() as int)
}

/// The first path that is a file among `path` with the extensions from `i`
/// on.
pub open spec fn file_with_ext(cfg: Config, disk: Disk, path: Seq<char>, info: InfoView, i: int) -> StatsView
    decreases cfg.extensions.len() - i,
{
    if i < 0 || i >= cfg.extensions.len() {
        StatsView::Resolving(info)
    } else {
        let candidate = with_extension(path, cfg.extensions[i]);
        match kind_at(disk.entries, candidate) {
            Err(f) => StatsView::Error(f),
            Ok(kind) => if kind == EntryKind::File {
                found(info, candidate)
            } else {
                file_with_ext(cfg, disk, path, info, i + 1)
            },
        }
    }
}

/// The info read as a file: the denoted path itself, unless an extension is
/// enforced, then the path with each extension.
pub open spec fn as_file(cfg: Config, disk: Disk, info: InfoView) -> StatsView {
    let path = normalized_path(info);
    if cfg.enforce_extension == EnforceExtension::Enabled {
        file_with_ext(cfg, disk, path, info, 0)
    } else {
        match kind_at(disk.entries, path) {
            Err(f) => StatsView::Error(f),
            Ok(kind) => if kind == EntryKind::File {
                found(info, path)
            } else {
                file_with_ext(cfg, disk, path, info, 0)
            },
        }
    }
}

/// The first file among the main files from `i` on, each with the
/// extensions (for the file `i`, from `j` on), in the directory that the
/// info denotes.
pub open spec fn main_file(cfg: Config, disk: Disk, info: InfoView, i: int, j: int) -> StatsView
    decreases cfg.main_files.len() - i, cfg.extensions.len() - j,
{
    if i < 0 || i >= cfg.main_files.len() {
        StatsView::Failed(info)
    } else if j < 0 || j >= cfg.extensions.len() {
        main_file(cfg, disk, info, i + 1, 0)
    } else {
        let candidate = with_extension(
            join_spec(normalized_path(info), cfg.main_files[i]),
            cfg.extensions[j],
        );
        match kind_at(disk.entries, candidate) {
            Err(f) => StatsView::Error(f),
            Ok(kind) => if kind == EntryKind::File {
                found(info, candidate)
            } else {
                main_file(cfg, disk, info, i, j + 1)
            },
        }
    }
}

/// What the exports map of `pkg` makes of a request for one of its modules:
/// the target that the map gives for the subpath, read from the package's
/// directory. A package without an exports map leaves the info as it is.
pub open spec fn exports_stage(cfg: Config, pkg: DescriptionData, info: InfoView) -> StatsView {
    match pkg.json.field(cfg.exports_field) {
        Some(Value::Object(entries)) => {
            let subpath = subpath_of(info.request.target);
            match lookup_subpath(entries@, subpath, cfg.conditions, true) {
                Ok(t) => StatsView::Resolving(
                    InfoView { path: pkg.dir@, request: retarget(info.request, t) },
                ),
                Err(kind) => fault(kind, subpath),
            }
        },
        _ => StatsView::Resolving(info),
    }
}

/// A state that is still resolving has found nothing.
pub open spec fn close(s: StatsView) -> StatsView {
    match s {
        StatsView::Resolving(info) => StatsView::Failed(info),
        other => other,
    }
}

/// A state that has found nothing may still resolve elsewhere.
pub open spec fn reopen(s: StatsView, info: InfoView) -> StatsView {
    match s {
        StatsView::Failed(_) => StatsView::Resolving(info),
        StatsView::Resolving(_) => StatsView::Resolving(info),
        other => other,
    }
}

/// The resolution of `info`, which may re-enter itself `fuel` times.
pub open spec fn resolve_at(cfg: Config, disk: Disk, info: InfoView, fuel: nat) -> StatsView
    decreases fuel, 20nat, 0nat,
{
    close(
        match alias_stage(cfg, disk, info, fuel, 0) {
            StatsView::Resolving(i1) => match prefer_relative_stage(cfg, disk, i1, fuel) {
                StatsView::Resolving(i2) => match entry_of(disk, i2.path) {
                    Err(f) => StatsView::Error(f),
                    Ok(entry) => match imports_stage(cfg, disk, entry.pkg_info, i2, fuel) {
                        StatsView::Resolving(i3) => match alias_field_stage(
                            cfg,
                            disk,
                            entry.pkg_info,
                            i3,
                            fuel,
                            0,
                        ) {
                            StatsView::Resolving(i4) => dispatch(cfg, disk, i4, fuel),
                            other => other,
                        },
                        other => other,
                    },
                },
                other => other,
            },
            other => other,
        },
    )
}

/// A stage re-enters the resolution, if it still may.
pub open spec fn descend(cfg: Config, disk: Disk, info: InfoView, fuel: nat) -> StatsView
    decreases fuel, 0nat, 0nat,
{
    if fuel == 0 {
        fault(ErrorKind::RecursionLimit, info.request.target)
    } else {
        resolve_at(cfg, disk, info, (fuel - 1) as nat)
    }
}

/// The alias table from entry `i` on: the first entry whose key matches the
/// target decides. An ignore marker ends the resolution; another target is
/// resolved in place of the one asked for.
pub open spec fn alias_stage(cfg: Config, disk: Disk, info: InfoView, fuel: nat, i: int) -> StatsView
    decreases fuel, 5nat, cfg.alias.len() - i,
{
    if i < 0 || i >= cfg.alias.len() {
        StatsView::Resolving(info)
    } else if alias_matches(cfg.alias[i].0, info.request.target) {
        match cfg.alias[i].1 {
            AliasView::Ignored => StatsView::Success(ResultView::Ignored),
            AliasView::Target(v) => descend(
                cfg,
                disk,
                reaim(info, alias_target(cfg.alias[i].0, v, info.request.target)),
                fuel,
            ),
        }
    } else {
        alias_stage(cfg, disk, info, fuel, i + 1)
    }
}

/// The name of a module is first tried as a relative path, where the
/// options say so.
pub open spec fn prefer_relative_stage(cfg: Config, disk: Disk, info: InfoView, fuel: nat) -> StatsView
    decreases fuel, 5nat, 0nat,
{
    if cfg.prefer_relative && info.request.kind == PathKind::Normal {
        let attempt = descend(
            cfg,
            disk,
            reaim(info, seq!['.', '/'] + info.request.target),
            fuel,
        );
        if attempt.is_finished() {
            attempt
        } else {
            StatsView::Resolving(info)
        }
    } else {
        StatsView::Resolving(info)
    }
}

/// An internal request is looked up in the imports map of the enclosing
/// manifest, and what the map gives is resolved from the manifest's
/// directory.
pub open spec fn imports_stage(
    cfg: Config,
    disk: Disk,
    pkg: Option<Arc<DescriptionData>>,
    info: InfoView,
    fuel: nat,
) -> StatsView
    decreases fuel, 5nat, 0nat,
{
    if info.request.kind != PathKind::Internal {
        StatsView::Resolving(info)
    } else {
        match pkg {
            None => StatsView::Resolving(info),
            Some(p) => match p.json.field(cfg.imports_field) {
                Some(Value::Object(entries)) => match lookup_subpath(
                    entries@,
                    info.request.target,
                    cfg.conditions,
                    false,
                ) {
                    Ok(t) => descend(
                        cfg,
                        disk,
                        InfoView { path: p.dir@, request: retarget(info.request, t) },
                        fuel,
                    ),
                    Err(kind) => fault(kind, info.request.target),
                },
                _ => StatsView::Resolving(info),
            },
        }
    }
}

/// The alias fields of the enclosing manifest from field `i` on: in the
/// first that is a map with a member named like the target, a text is
/// resolved in the target's place from the manifest's directory, and
/// `false` ends the resolution.
pub open spec fn alias_field_stage(
    cfg: Config,
    disk: Disk,
    pkg: Option<Arc<DescriptionData>>,
    info: InfoView,
    fuel: nat,
    i: int,
) -> StatsView
    decreases fuel, 5nat, cfg.alias_fields.len() - i,
{
    match pkg {
        None => StatsView::Resolving(info),
        Some(p) => if i < 0 || i >= cfg.alias_fields.len() {
            StatsView::Resolving(info)
        } else {
            match p.json.field(cfg.alias_fields[i]) {
                Some(Value::Object(entries)) => match member(entries@, info.request.target, 0) {
                    Some(Value::Text(v)) => descend(
                        cfg,
                        disk,
                        InfoView { path: p.dir@, request: retarget(info.request, v@) },
                        fuel,
                    ),
                    Some(Value::Bool(false)) => StatsView::Success(ResultView::Ignored),
                    _ => alias_field_stage(cfg, disk, pkg, info, fuel, i + 1),
                },
                _ => alias_field_stage(cfg, disk, pkg, info, fuel, i + 1),
            }
        },
    }
}

/// The target that a main field's value stands for, if it may be used:
/// `.` and `./` point back at the directory and are passed over.
pub open spec fn main_target(value: Option<Seq<char>>) -> Option<Seq<char>> {
    match value {
        Some(v) => if v == seq!['.'] || v == seq!['.', '/'] {
            None
        } else if is_dot_relative(v) {
            Some(v)
        } else {
            Some(seq!['.', '/'] + v)
        },
        None => None,
    }
}

/// The main fields of the manifest of the directory that the info denotes,
/// from field `i` on: the first whose value resolves decides.
pub open spec fn main_field_stage(
    cfg: Config,
    disk: Disk,
    pkg: DescriptionData,
    info: InfoView,
    fuel: nat,
    i: int,
) -> StatsView
    decreases fuel, 5nat, cfg.main_fields.len() - i,
{
    if pkg.dir@ != normalized_path(info) {
        StatsView::Resolving(info)
    } else if i < 0 || i >= cfg.main_fields.len() {
        StatsView::Resolving(info)
    } else {
        match main_target(pkg.json.text_field(cfg.main_fields[i])) {
            Some(t) => {
                let attempt = descend(
                    cfg,
                    disk,
                    InfoView { path: normalized_path(info), request: retarget(info.request, t) },
                    fuel,
                );
                if attempt.is_finished() {
                    attempt
                } else {
                    main_field_stage(cfg, disk, pkg, info, fuel, i + 1)
                }
            },
            None => main_field_stage(cfg, disk, pkg, info, fuel, i + 1),
        }
    }
}

/// The info read as a directory: the main fields of its own manifest, then
/// the main files.
pub open spec fn as_dir(cfg: Config, disk: Disk, info: InfoView, fuel: nat) -> StatsView
    decreases fuel, 9nat, 0nat,
{
    let path = normalized_path(info);
    match entry_of(disk, path) {
        Err(f) => StatsView::Error(f),
        Ok(entry) => if entry.kind != EntryKind::Directory {
            StatsView::Failed(info)
        } else {
            let here = settled(info, path);
            match (match entry.pkg_info {
                Some(p) => main_field_stage(cfg, disk, *p, here, fuel, 0),
                None => StatsView::Resolving(here),
            }) {
                StatsView::Resolving(i) => main_file(cfg, disk, i, 0, 0),
                other => other,
            }
        },
    }
}

/// What the manifest `pkg` makes of a request for the module that it
/// encloses: its exports (not where the request comes from the package's own
/// directory and does not name the package), its imports, its main fields
/// and its alias fields.
pub open spec fn package_stages(
    cfg: Config,
    disk: Disk,
    pkg: Arc<DescriptionData>,
    skip_exports: bool,
    info: InfoView,
    fuel: nat,
) -> StatsView
    decreases fuel, 11nat, 0nat,
{
    match (if skip_exports {
        StatsView::Resolving(info)
    } else {
        exports_stage(cfg, *pkg, info)
    }) {
        StatsView::Resolving(i1) => match imports_stage(cfg, disk, Some(pkg), i1, fuel) {
            StatsView::Resolving(i2) => match main_field_stage(
                cfg,
                disk,
                *pkg,
                reaim(repath(i2, join_spec(i2.path, i2.request.target)), seq!['.']),
                fuel,
                0,
            ) {
                StatsView::Resolving(i3) => alias_field_stage(cfg, disk, Some(pkg), i3, fuel, 0),
                other => other,
            },
            other => other,
        },
        other => other,
    }
}

/// The request sought in the dependency directory `name` of the info's
/// directory.
pub open spec fn module_attempt(cfg: Config, disk: Disk, info: InfoView, name: Seq<char>, fuel: nat) -> StatsView
    decreases fuel, 12nat, 0nat,
{
    let root = join_spec(info.path, name);
    match kind_at(disk.entries, root) {
        Err(f) => StatsView::Error(f),
        Ok(kind) => if kind != EntryKind::Directory {
            StatsView::Resolving(info)
        } else {
            let module = module_name_of(info.request.target);
            match entry_of(disk, join_spec(root, module)) {
                Err(f) => StatsView::Error(f),
                Ok(entry) => {
                    let own = is_self_reference(entry.pkg_info, module);
                    let module_info = repath(info, root);
                    if entry.kind != EntryKind::Directory && !own {
                        let attempt = as_file(cfg, disk, module_info);
                        if attempt.is_finished() {
                            attempt
                        } else {
                            StatsView::Resolving(info)
                        }
                    } else {
                        match (match entry.pkg_info {
                            Some(p) => package_stages(
                                cfg,
                                disk,
                                p,
                                p.dir@ == info.path && !own,
                                module_info,
                                fuel,
                            ),
                            None => StatsView::Resolving(module_info),
                        }) {
                            StatsView::Resolving(i1) => match as_file(cfg, disk, i1) {
                                StatsView::Resolving(i2) => reopen(as_dir(cfg, disk, i2, fuel), info),
                                other => reopen(other, info),
                            },
                            other => reopen(other, info),
                        }
                    }
                },
            }
        },
    }
}

/// The request sought in the dependency directories from name `k` on.
pub open spec fn modules_scan(cfg: Config, disk: Disk, info: InfoView, fuel: nat, k: int) -> StatsView
    decreases fuel, 13nat, cfg.modules.len() - k,
{
    if k < 0 || k >= cfg.modules.len() {
        StatsView::Resolving(info)
    } else {
        let attempt = module_attempt(cfg, disk, info, cfg.modules[k], fuel);
        if attempt.is_finished() {
            attempt
        } else {
            modules_scan(cfg, disk, info, fuel, k + 1)
        }
    }
}

/// The request sought as a module: in the dependency directories of the
/// info's directory, then from the parent directory.
pub open spec fn as_modules(cfg: Config, disk: Disk, info: InfoView, fuel: nat) -> StatsView
    decreases fuel, 14nat, 0nat,
{
    let here = modules_scan(cfg, disk, info, fuel, 0);
    if here.is_finished() {
        here
    } else {
        match parent_of(info.path) {
            Some(up) => close(descend(cfg, disk, repath(info, up), fuel)),
            None => StatsView::Failed(info),
        }
    }
}

/// A path is read as a file and then as a directory; anything else is
/// sought as a module.
pub open spec fn dispatch(cfg: Config, disk: Disk, info: InfoView, fuel: nat) -> StatsView
    decreases fuel, 15nat, 0nat,
{
    if info.request.kind == PathKind::AbsolutePosix || info.request.kind == PathKind::AbsoluteWin
        || info.request.kind == PathKind::Relative {
        match as_file(cfg, disk, info) {
            StatsView::Resolving(i) => as_dir(cfg, disk, i, fuel),
            other => other,
        }
    } else {
        as_modules(cfg, disk, info, fuel)
    }
}

} // verus!
