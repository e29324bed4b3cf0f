//! An answer stands: what a resolution says without asking for more does not
//! change when the resolver learns more of the file system, and what it says
//! without hitting the limit does not change when it may re-enter itself
//! more often.

use crate::description::{shared_manifest, DescriptionData, Value};
use crate::error::{ErrorKind, ErrorView, FaultView};
use crate::fs::{entry_of, kind_at, nearest_manifest, Disk, EntryKind, ManifestSlot};
use crate::info::{normalized_path, reaim, repath, settled, InfoView, StatsView};
use crate::kind::PathKind;
use crate::map::lookup_subpath;
use crate::options::{AliasView, Config, EnforceExtension};
use crate::parse::{parse_spec, retarget};
use crate::path::{join_spec, normalize, parent_of, with_extension};
use crate::pipeline::{
    alias_field_stage, alias_matches, alias_stage, alias_target, as_dir, as_file, as_modules,
    descend, dispatch, exports_stage, file_with_ext, imports_stage, is_self_reference, main_field_stage,
    main_file, main_target, module_attempt, module_name_of, modules_scan, package_stages,
    prefer_relative_stage, resolve_at,
};
use crate::description::member;
use crate::resolver::resolve_spec;
use crate::tsconfig::{
    base_url_of, config_dir, mapped_resolution, mapped_target, mapping_matches, paths_scan,
    paths_table, replacements_scan,
};
use std::sync::Arc;
use vstd::prelude::*;

verus! {

/// `more` knows all that `less` knows, and the same of it.
pub open spec fn extends(less: Disk, more: Disk) -> bool {
    &&& forall|p: Seq<char>| #[trigger]
        less.entries.contains_key(p) ==> more.entries.contains_key(p) && more.entries[p]
            == less.entries[p]
    &&& forall|dir: Seq<char>| #[trigger]
        less.manifests.contains_key(dir) ==> more.manifests.contains_key(dir)
            && more.manifests[dir] == less.manifests[dir]
}

/// The fault asks for more knowledge of the file system.
pub open spec fn fault_asks(f: FaultView) -> bool {
    f.kind == ErrorKind::EntryUnknown || f.kind == ErrorKind::ManifestUnknown
}

/// The state stops the resolution to ask for more knowledge.
pub open spec fn asks(s: StatsView) -> bool {
    match s {
        StatsView::Error(f) => fault_asks(f),
        _ => false,
    }
}

/// The state stops the resolution because it re-entered itself too often.
pub open spec fn limits(s: StatsView) -> bool {
    match s {
        StatsView::Error(f) => f.kind == ErrorKind::RecursionLimit,
        _ => false,
    }
}

/// The state is no answer yet: it asks, where more could be known, or it
/// hit the limit, where more re-entries could be had.
pub open spec fn halts(s: StatsView, grown: bool, strict: bool) -> bool {
    (grown && asks(s)) || (strict && limits(s))
}

proof fn lemma_kind_stands(d: Disk, e: Disk, p: Seq<char>)
    requires
        extends(d, e),
        d == e || (match kind_at(d.entries, p) {
            Err(f) => !fault_asks(f),
            Ok(_) => true,
        }),
    ensures
        kind_at(e.entries, p) == kind_at(d.entries, p),
{
    if d != e {
        assert(d.entries.contains_key(p));
    }
}

proof fn lemma_manifest_stands(d: Disk, e: Disk, dir: Seq<char>)
    requires
        extends(d, e),
        d == e || (match nearest_manifest(d.manifests, dir) {
            Err(f) => !fault_asks(f),
            Ok(_) => true,
        }),
    ensures
        nearest_manifest(e.manifests, dir) == nearest_manifest(d.manifests, dir),
    decreases dir.len(),
{
    if d != e {
        assert(d.manifests.contains_key(dir));
        match d.manifests[dir] {
            ManifestSlot::Absent => match parent_of(dir) {
                Some(up) => {
                    if up.len() < dir.len() {
                        lemma_manifest_stands(d, e, up);
                    }
                },
                None => {},
            },
            _ => {},
        }
    }
}

proof fn lemma_entry_stands(d: Disk, e: Disk, p: Seq<char>)
    requires
        extends(d, e),
        d == e || (match entry_of(d, p) {
            Err(f) => !fault_asks(f),
            Ok(_) => true,
        }),
    ensures
        entry_of(e, p) == entry_of(d, p),
{
    if d != e {
        lemma_kind_stands(d, e, p);
        match kind_at(d.entries, p) {
            Ok(kind) => {
                let start = if kind == EntryKind::Directory {
                    Some(p)
                } else {
                    parent_of(p)
                };
                match start {
                    Some(dir) => {
                        lemma_manifest_stands(d, e, dir);
                    },
                    None => {},
                }
            },
            Err(_) => {},
        }
    }
}

proof fn lemma_file_with_ext_stands(
    cfg: Config,
    d: Disk,
    e: Disk,
    path: Seq<char>,
    info: InfoView,
    i: int,
)
    requires
        extends(d, e),
        d == e || (!asks(file_with_ext(cfg, d, path, info, i))),
    ensures
        file_with_ext(cfg, e, path, info, i) == file_with_ext(cfg, d, path, info, i),
    decreases cfg.extensions.len() - i,
{
    if d != e {
        if 0 <= i < cfg.extensions.len() {
            let candidate = with_extension(path, cfg.extensions[i]);
            lemma_kind_stands(d, e, candidate);
            match kind_at(d.entries, candidate) {
                Ok(kind) => {
                    if kind != EntryKind::File {
                        lemma_file_with_ext_stands(cfg, d, e, path, info, i + 1);
                    }
                },
                Err(_) => {},
            }
        }
    }
}

proof fn lemma_as_file_stands(cfg: Config, d: Disk, e: Disk, info: InfoView)
    requires
        extends(d, e),
        d == e || (!asks(as_file(cfg, d, info))),
    ensures
        as_file(cfg, e, info) == as_file(cfg, d, info),
{
    if d != e {
        let path = normalized_path(info);
        if cfg.enforce_extension == EnforceExtension::Enabled {
            lemma_file_with_ext_stands(cfg, d, e, path, info, 0);
        } else {
            lemma_kind_stands(d, e, path);
            match kind_at(d.entries, path) {
                Ok(kind) => {
                    if kind != EntryKind::File {
                        lemma_file_with_ext_stands(cfg, d, e, path, info, 0);
                    }
                },
                Err(_) => {},
            }
        }
    }
}

proof fn lemma_main_file_stands(cfg: Config, d: Disk, e: Disk, info: InfoView, i: int, j: int)
    requires
        extends(d, e),
        d == e || (!asks(main_file(cfg, d, info, i, j))),
    ensures
        main_file(cfg, e, info, i, j) == main_file(cfg, d, info, i, j),
    decreases cfg.main_files.len() - i, cfg.extensions.len() - j,
{
    if d != e {
        if 0 <= i < cfg.main_files.len() {
            if j < 0 || j >= cfg.extensions.len() {
                lemma_main_file_stands(cfg, d, e, info, i + 1, 0);
            } else {
                let candidate = with_extension(
                    join_spec(normalized_path(info), cfg.main_files[i]),
                    cfg.extensions[j],
                );
                lemma_kind_stands(d, e, candidate);
                match kind_at(d.entries, candidate) {
                    Ok(kind) => {
                        if kind != EntryKind::File {
                            lemma_main_file_stands(cfg, d, e, info, i, j + 1);
                        }
                    },
                    Err(_) => {},
                }
            }
        }
    }
}

/// What a resolution says without asking for more, it says again when the
/// resolver knows more; what it says without hitting the limit, it says
/// again when it may re-enter itself more often.
pub proof fn lemma_resolve_at_stands(cfg: Config, d: Disk, e: Disk, info: InfoView, fuel: nat, more: nat)
    requires
        extends(d, e),
        fuel <= more,
        !halts(resolve_at(cfg, d, info, fuel), d != e, more > fuel),
    ensures
        resolve_at(cfg, e, info, more) == resolve_at(cfg, d, info, fuel),
    decreases fuel, 20nat, 0nat,
{
    let s1 = alias_stage(cfg, d, info, fuel, 0);
    if !halts(s1, d != e, more > fuel) {
        lemma_alias_stage_stands(cfg, d, e, info, fuel, more, 0);
    }
    match s1 {
        StatsView::Resolving(i1) => {
            let s2 = prefer_relative_stage(cfg, d, i1, fuel);
            if !halts(s2, d != e, more > fuel) {
                lemma_prefer_relative_stands(cfg, d, e, i1, fuel, more);
            }
            match s2 {
                StatsView::Resolving(i2) => {
                    match entry_of(d, i2.path) {
                        Ok(entry) => {
                            lemma_entry_stands(d, e, i2.path);
                            let s3 = imports_stage(cfg, d, entry.pkg_info, i2, fuel);
                            if !halts(s3, d != e, more > fuel) {
                                lemma_imports_stage_stands(cfg, d, e, entry.pkg_info, i2, fuel, more);
                            }
                            match s3 {
                                StatsView::Resolving(i3) => {
                                    let s4 = alias_field_stage(
                                        cfg,
                                        d,
                                        entry.pkg_info,
                                        i3,
                                        fuel,
                                        0,
                                    );
                                    if !halts(s4, d != e, more > fuel) {
                                        lemma_alias_field_stands(
                                            cfg,
                                            d,
                                            e,
                                            entry.pkg_info,
                                            i3,
                                            fuel, more,
                                            0,
                                        );
                                    }
                                    match s4 {
                                        StatsView::Resolving(i4) => {
                                            if !halts(dispatch(cfg, d, i4, fuel), d != e, more > fuel) {
                                                lemma_dispatch_stands(cfg, d, e, i4, fuel, more);
                                            }
                                        },
                                        _ => {},
                                    }
                                },
                                _ => {},
                            }
                        },
                        Err(f) => {
                            if !fault_asks(f) {
                                lemma_entry_stands(d, e, i2.path);
                            }
                        },
                    }
                },
                _ => {},
            }
        },
        _ => {},
    }
}

proof fn lemma_descend_stands(cfg: Config, d: Disk, e: Disk, info: InfoView, fuel: nat, more: nat)
    requires
        extends(d, e),
        fuel <= more,
        !halts(descend(cfg, d, info, fuel), d != e, more > fuel),
    ensures
        descend(cfg, e, info, more) == descend(cfg, d, info, fuel),
    decreases fuel, 0nat, 0nat,
{
    if fuel > 0 {
        lemma_resolve_at_stands(cfg, d, e, info, (fuel - 1) as nat, (more - 1) as nat);
    }
}

proof fn lemma_alias_stage_stands(cfg: Config, d: Disk, e: Disk, info: InfoView, fuel: nat, more: nat, i: int)
    requires
        extends(d, e),
        fuel <= more,
        !halts(alias_stage(cfg, d, info, fuel, i), d != e, more > fuel),
    ensures
        alias_stage(cfg, e, info, more, i) == alias_stage(cfg, d, info, fuel, i),
    decreases fuel, 5nat, cfg.alias.len() - i,
{
    if 0 <= i < cfg.alias.len() {
        if alias_matches(cfg.alias[i].0, info.request.target) {
            match cfg.alias[i].1 {
                AliasView::Target(v) => {
                    lemma_descend_stands(
                        cfg,
                        d,
                        e,
                        reaim(info, alias_target(cfg.alias[i].0, v, info.request.target)),
                        fuel, more,
                    );
                },
                AliasView::Ignored => {},
            }
        } else {
            lemma_alias_stage_stands(cfg, d, e, info, fuel, more, i + 1);
        }
    }
}

proof fn lemma_prefer_relative_stands(cfg: Config, d: Disk, e: Disk, info: InfoView, fuel: nat, more: nat)
    requires
        extends(d, e),
        fuel <= more,
        !halts(prefer_relative_stage(cfg, d, info, fuel), d != e, more > fuel),
    ensures
        prefer_relative_stage(cfg, e, info, more) == prefer_relative_stage(cfg, d, info, fuel),
    decreases fuel, 5nat, 0nat,
{
    if cfg.prefer_relative && info.request.kind == PathKind::Normal {
        let rewritten = reaim(info, seq!['.', '/'] + info.request.target);
        if !halts(descend(cfg, d, rewritten, fuel), d != e, more > fuel) {
            lemma_descend_stands(cfg, d, e, rewritten, fuel, more);
        }
    }
}

proof fn lemma_imports_stage_stands(
    cfg: Config,
    d: Disk,
    e: Disk,
    pkg: Option<Arc<DescriptionData>>,
    info: InfoView,
    fuel: nat, more: nat,
)
    requires
        extends(d, e),
        fuel <= more,
        !halts(imports_stage(cfg, d, pkg, info, fuel), d != e, more > fuel),
    ensures
        imports_stage(cfg, e, pkg, info, more) == imports_stage(cfg, d, pkg, info, fuel),
    decreases fuel, 5nat, 0nat,
{
    if info.request.kind == PathKind::Internal {
        match pkg {
            Some(p) => match shared_manifest(p).json.field(cfg.imports_field) {
                Some(Value::Object(entries)) => match lookup_subpath(
                    entries@,
                    info.request.target,
                    cfg.conditions,
                    false,
                ) {
                    Ok(t) => {
                        lemma_descend_stands(
                            cfg,
                            d,
                            e,
                            InfoView { path: shared_manifest(p).dir@, request: retarget(info.request, t) },
                            fuel, more,
                        );
                    },
                    Err(_) => {},
                },
                _ => {},
            },
            None => {},
        }
    }
}

proof fn lemma_alias_field_stands(
    cfg: Config,
    d: Disk,
    e: Disk,
    pkg: Option<Arc<DescriptionData>>,
    info: InfoView,
    fuel: nat, more: nat,
    i: int,
)
    requires
        extends(d, e),
        fuel <= more,
        !halts(alias_field_stage(cfg, d, pkg, info, fuel, i), d != e, more > fuel),
    ensures
        alias_field_stage(cfg, e, pkg, info, more, i) == alias_field_stage(
            cfg,
            d,
            pkg,
            info,
            fuel,
            i,
        ),
    decreases fuel, 5nat, cfg.alias_fields.len() - i,
{
    match pkg {
        Some(p) => {
            if 0 <= i < cfg.alias_fields.len() {
                match shared_manifest(p).json.field(cfg.alias_fields[i]) {
                    Some(Value::Object(entries)) => match member(
                        entries@,
                        info.request.target,
                        0,
                    ) {
                        Some(Value::Text(v)) => {
                            lemma_descend_stands(
                                cfg,
                                d,
                                e,
                                InfoView { path: shared_manifest(p).dir@, request: retarget(info.request, v@) },
                                fuel, more,
                            );
                        },
                        Some(Value::Bool(false)) => {},
                        _ => {
                            lemma_alias_field_stands(cfg, d, e, pkg, info, fuel, more, i + 1);
                        },
                    },
                    _ => {
                        lemma_alias_field_stands(cfg, d, e, pkg, info, fuel, more, i + 1);
                    },
                }
            }
        },
        None => {},
    }
}

proof fn lemma_main_field_stands(
    cfg: Config,
    d: Disk,
    e: Disk,
    pkg: DescriptionData,
    info: InfoView,
    fuel: nat, more: nat,
    i: int,
)
    requires
        extends(d, e),
        fuel <= more,
        !halts(main_field_stage(cfg, d, pkg, info, fuel, i), d != e, more > fuel),
    ensures
        main_field_stage(cfg, e, pkg, info, more, i) == main_field_stage(
            cfg,
            d,
            pkg,
            info,
            fuel,
            i,
        ),
    decreases fuel, 5nat, cfg.main_fields.len() - i,
{
    if pkg.dir@ == normalized_path(info) && 0 <= i < cfg.main_fields.len() {
        match main_target(pkg.json.text_field(cfg.main_fields[i])) {
            Some(t) => {
                let rewritten = InfoView {
                    path: normalized_path(info),
                    request: retarget(info.request, t),
                };
                let attempt = descend(cfg, d, rewritten, fuel);
                if !halts(attempt, d != e, more > fuel) {
                    lemma_descend_stands(cfg, d, e, rewritten, fuel, more);
                }
                if !attempt.is_finished() {
                    lemma_main_field_stands(cfg, d, e, pkg, info, fuel, more, i + 1);
                }
            },
            None => {
                lemma_main_field_stands(cfg, d, e, pkg, info, fuel, more, i + 1);
            },
        }
    }
}

proof fn lemma_as_dir_stands(cfg: Config, d: Disk, e: Disk, info: InfoView, fuel: nat, more: nat)
    requires
        extends(d, e),
        fuel <= more,
        !halts(as_dir(cfg, d, info, fuel), d != e, more > fuel),
    ensures
        as_dir(cfg, e, info, more) == as_dir(cfg, d, info, fuel),
    decreases fuel, 9nat, 0nat,
{
    let path = normalized_path(info);
    lemma_entry_stands(d, e, path);
    match entry_of(d, path) {
        Ok(entry) => {
            if entry.kind == EntryKind::Directory {
                let here = settled(info, path);
                let s = match entry.pkg_info {
                    Some(p) => main_field_stage(cfg, d, shared_manifest(p), here, fuel, 0),
                    None => StatsView::Resolving(here),
                };
                match entry.pkg_info {
                    Some(p) => {
                        if !halts(s, d != e, more > fuel) {
                            lemma_main_field_stands(cfg, d, e, shared_manifest(p), here, fuel, more, 0);
                        }
                    },
                    None => {},
                }
                match s {
                    StatsView::Resolving(i) => {
                        lemma_main_file_stands(cfg, d, e, i, 0, 0);
                    },
                    _ => {},
                }
            }
        },
        Err(_) => {},
    }
}

proof fn lemma_package_stands(
    cfg: Config,
    d: Disk,
    e: Disk,
    pkg: Arc<DescriptionData>,
    skip_exports: bool,
    info: InfoView,
    fuel: nat, more: nat,
)
    requires
        extends(d, e),
        fuel <= more,
        !halts(package_stages(cfg, d, pkg, skip_exports, info, fuel), d != e, more > fuel),
    ensures
        package_stages(cfg, e, pkg, skip_exports, info, more) == package_stages(
            cfg,
            d,
            pkg,
            skip_exports,
            info,
            fuel,
        ),
    decreases fuel, 11nat, 0nat,
{
    let s0 = if skip_exports {
        StatsView::Resolving(info)
    } else {
        exports_stage(cfg, shared_manifest(pkg), info)
    };
    match s0 {
        StatsView::Resolving(i1) => {
            let s1 = imports_stage(cfg, d, Some(pkg), i1, fuel);
            if !halts(s1, d != e, more > fuel) {
                lemma_imports_stage_stands(cfg, d, e, Some(pkg), i1, fuel, more);
            }
            match s1 {
                StatsView::Resolving(i2) => {
                    let aimed = reaim(
                        repath(i2, join_spec(i2.path, i2.request.target)),
                        seq!['.'],
                    );
                    let s2 = main_field_stage(cfg, d, shared_manifest(pkg), aimed, fuel, 0);
                    if !halts(s2, d != e, more > fuel) {
                        lemma_main_field_stands(cfg, d, e, shared_manifest(pkg), aimed, fuel, more, 0);
                    }
                    match s2 {
                        StatsView::Resolving(i3) => {
                            lemma_alias_field_stands(cfg, d, e, Some(pkg), i3, fuel, more, 0);
                        },
                        _ => {},
                    }
                },
                _ => {},
            }
        },
        _ => {},
    }
}

proof fn lemma_module_attempt_stands(
    cfg: Config,
    d: Disk,
    e: Disk,
    info: InfoView,
    name: Seq<char>,
    fuel: nat, more: nat,
)
    requires
        extends(d, e),
        fuel <= more,
        !halts(module_attempt(cfg, d, info, name, fuel), d != e, more > fuel),
    ensures
        module_attempt(cfg, e, info, name, more) == module_attempt(cfg, d, info, name, fuel),
    decreases fuel, 12nat, 0nat,
{
    let root = join_spec(info.path, name);
    lemma_kind_stands(d, e, root);
    match kind_at(d.entries, root) {
        Ok(kind) => {
            if kind == EntryKind::Directory {
                let module = module_name_of(info.request.target);
                lemma_entry_stands(d, e, join_spec(root, module));
                match entry_of(d, join_spec(root, module)) {
                    Ok(entry) => {
                        let own = is_self_reference(entry.pkg_info, module);
                        let module_info = repath(info, root);
                        if entry.kind != EntryKind::Directory && !own {
                            if !halts(as_file(cfg, d, module_info), d != e, more > fuel) {
                                lemma_as_file_stands(cfg, d, e, module_info);
                            }
                        } else {
                            let s1 = match entry.pkg_info {
                                Some(p) => package_stages(
                                    cfg,
                                    d,
                                    p,
                                    shared_manifest(p).dir@ == info.path && !own,
                                    module_info,
                                    fuel,
                                ),
                                None => StatsView::Resolving(module_info),
                            };
                            match entry.pkg_info {
                                Some(p) => {
                                    if !halts(s1, d != e, more > fuel) {
                                        lemma_package_stands(
                                            cfg,
                                            d,
                                            e,
                                            p,
                                            shared_manifest(p).dir@ == info.path && !own,
                                            module_info,
                                            fuel, more,
                                        );
                                    }
                                },
                                None => {},
                            }
                            match s1 {
                                StatsView::Resolving(i1) => {
                                    let s2 = as_file(cfg, d, i1);
                                    if !halts(s2, d != e, more > fuel) {
                                        lemma_as_file_stands(cfg, d, e, i1);
                                    }
                                    match s2 {
                                        StatsView::Resolving(i2) => {
                                            if !halts(as_dir(cfg, d, i2, fuel), d != e, more > fuel) {
                                                lemma_as_dir_stands(cfg, d, e, i2, fuel, more);
                                            }
                                        },
                                        _ => {},
                                    }
                                },
                                _ => {},
                            }
                        }
                    },
                    Err(_) => {},
                }
            }
        },
        Err(_) => {},
    }
}

proof fn lemma_modules_scan_stands(cfg: Config, d: Disk, e: Disk, info: InfoView, fuel: nat, more: nat, k: int)
    requires
        extends(d, e),
        fuel <= more,
        !halts(modules_scan(cfg, d, info, fuel, k), d != e, more > fuel),
    ensures
        modules_scan(cfg, e, info, more, k) == modules_scan(cfg, d, info, fuel, k),
    decreases fuel, 13nat, cfg.modules.len() - k,
{
    if 0 <= k < cfg.modules.len() {
        let attempt = module_attempt(cfg, d, info, cfg.modules[k], fuel);
        if !halts(attempt, d != e, more > fuel) {
            lemma_module_attempt_stands(cfg, d, e, info, cfg.modules[k], fuel, more);
        }
        if !attempt.is_finished() {
            lemma_modules_scan_stands(cfg, d, e, info, fuel, more, k + 1);
        }
    }
}

proof fn lemma_as_modules_stands(cfg: Config, d: Disk, e: Disk, info: InfoView, fuel: nat, more: nat)
    requires
        extends(d, e),
        fuel <= more,
        !halts(as_modules(cfg, d, info, fuel), d != e, more > fuel),
    ensures
        as_modules(cfg, e, info, more) == as_modules(cfg, d, info, fuel),
    decreases fuel, 14nat, 0nat,
{
    let here = modules_scan(cfg, d, info, fuel, 0);
    if !halts(here, d != e, more > fuel) {
        lemma_modules_scan_stands(cfg, d, e, info, fuel, more, 0);
    }
    if !here.is_finished() {
        match parent_of(info.path) {
            Some(up) => {
                if !halts(descend(cfg, d, repath(info, up), fuel), d != e, more > fuel) {
                    lemma_descend_stands(cfg, d, e, repath(info, up), fuel, more);
                }
            },
            None => {},
        }
    }
}

proof fn lemma_dispatch_stands(cfg: Config, d: Disk, e: Disk, info: InfoView, fuel: nat, more: nat)
    requires
        extends(d, e),
        fuel <= more,
        !halts(dispatch(cfg, d, info, fuel), d != e, more > fuel),
    ensures
        dispatch(cfg, e, info, more) == dispatch(cfg, d, info, fuel),
    decreases fuel, 15nat, 0nat,
{
    if info.request.kind == PathKind::AbsolutePosix || info.request.kind == PathKind::AbsoluteWin
        || info.request.kind == PathKind::Relative {
        let s = as_file(cfg, d, info);
        if !halts(s, d != e, more > fuel) {
            lemma_as_file_stands(cfg, d, e, info);
        }
        match s {
            StatsView::Resolving(i) => {
                lemma_as_dir_stands(cfg, d, e, i, fuel, more);
            },
            _ => {},
        }
    } else {
        lemma_as_modules_stands(cfg, d, e, info, fuel, more);
    }
}

proof fn lemma_replacements_stand(
    cfg: Config,
    d: Disk,
    e: Disk,
    base: Seq<char>,
    pattern: Seq<char>,
    items: Seq<Value>,
    info: InfoView,
    fuel: nat, more: nat,
    j: int,
)
    requires
        extends(d, e),
        fuel <= more,
        !halts(replacements_scan(cfg, d, base, pattern, items, info, fuel, j), d != e, more > fuel),
    ensures
        replacements_scan(cfg, e, base, pattern, items, info, more, j) == replacements_scan(
            cfg,
            d,
            base,
            pattern,
            items,
            info,
            fuel,
            j,
        ),
    decreases items.len() - j,
{
    if 0 <= j < items.len() {
        match items[j] {
            Value::Text(replacement) => {
                let rewritten = InfoView {
                    path: base,
                    request: retarget(
                        info.request,
                        mapped_target(pattern, replacement@, info.request.target),
                    ),
                };
                let attempt = resolve_at(cfg, d, rewritten, fuel);
                if !halts(attempt, d != e, more > fuel) {
                    lemma_resolve_at_stands(cfg, d, e, rewritten, fuel, more);
                }
                if !attempt.is_finished() {
                    lemma_replacements_stand(cfg, d, e, base, pattern, items, info, fuel, more, j + 1);
                }
            },
            _ => {
                lemma_replacements_stand(cfg, d, e, base, pattern, items, info, fuel, more, j + 1);
            },
        }
    }
}

proof fn lemma_paths_stand(
    cfg: Config,
    d: Disk,
    e: Disk,
    base: Seq<char>,
    entries: Seq<(String, Value)>,
    info: InfoView,
    fuel: nat, more: nat,
    i: int,
)
    requires
        extends(d, e),
        fuel <= more,
        !halts(paths_scan(cfg, d, base, entries, info, fuel, i), d != e, more > fuel),
    ensures
        paths_scan(cfg, e, base, entries, info, more, i) == paths_scan(
            cfg,
            d,
            base,
            entries,
            info,
            fuel,
            i,
        ),
    decreases entries.len() - i,
{
    if 0 <= i < entries.len() {
        if mapping_matches(entries[i].0@, info.request.target) {
            match entries[i].1 {
                Value::List(items) => {
                    let attempt = replacements_scan(
                        cfg,
                        d,
                        base,
                        entries[i].0@,
                        items@,
                        info,
                        fuel,
                        0,
                    );
                    if !halts(attempt, d != e, more > fuel) {
                        lemma_replacements_stand(
                            cfg,
                            d,
                            e,
                            base,
                            entries[i].0@,
                            items@,
                            info,
                            fuel, more,
                            0,
                        );
                    }
                    if !attempt.is_finished() {
                        lemma_paths_stand(cfg, d, e, base, entries, info, fuel, more, i + 1);
                    }
                },
                _ => {
                    lemma_paths_stand(cfg, d, e, base, entries, info, fuel, more, i + 1);
                },
            }
        } else {
            lemma_paths_stand(cfg, d, e, base, entries, info, fuel, more, i + 1);
        }
    }
}

proof fn lemma_mapped_resolution_stands(
    cfg: Config,
    d: Disk,
    e: Disk,
    named: Seq<char>,
    info: InfoView,
    fuel: nat, more: nat,
)
    requires
        extends(d, e),
        fuel <= more,
        !halts(mapped_resolution(cfg, d, named, info, fuel), d != e, more > fuel),
    ensures
        mapped_resolution(cfg, e, named, info, more) == mapped_resolution(
            cfg,
            d,
            named,
            info,
            fuel,
        ),
{
    let location = crate::tsconfig::config_location(info, named);
    if info.request.kind != PathKind::Normal {
        lemma_resolve_at_stands(cfg, d, e, info, fuel, more);
    } else {
        if d.manifests.contains_key(location) {
            match d.manifests[location] {
                ManifestSlot::Invalid(_) => {},
                ManifestSlot::Unreadable => {},
                ManifestSlot::Absent => {
                    lemma_resolve_at_stands(cfg, d, e, info, fuel, more);
                },
                ManifestSlot::Present(p) => match paths_table(shared_manifest(p).json) {
                    None => {
                        lemma_resolve_at_stands(cfg, d, e, info, fuel, more);
                    },
                    Some(entries) => {
                        let base = join_spec(config_dir(location), base_url_of(shared_manifest(p).json));
                        let attempt = paths_scan(cfg, d, base, entries@, info, fuel, 0);
                        if !halts(attempt, d != e, more > fuel) {
                            lemma_paths_stand(cfg, d, e, base, entries@, info, fuel, more, 0);
                        }
                        if !attempt.is_finished() {
                            lemma_resolve_at_stands(cfg, d, e, info, fuel, more);
                        }
                    },
                },
            }
        }
    }
}

/// The error asks for more knowledge of the file system.
pub open spec fn error_asks(r: Result<crate::info::ResultView, ErrorView>) -> bool {
    match r {
        Err(err) => err.kind == ErrorKind::EntryUnknown || err.kind == ErrorKind::ManifestUnknown,
        Ok(_) => false,
    }
}

/// Once `resolve` answers without asking for more, a success or an error,
/// it answers the same whatever else the resolver is told of the file
/// system, as long as nothing that it was told is taken back.
pub proof fn lemma_answer_stands(cfg: Config, d: Disk, e: Disk, base: Seq<char>, request: Seq<char>)
    requires
        extends(d, e),
        !error_asks(resolve_spec(cfg, d, base, request)),
    ensures
        resolve_spec(cfg, e, base, request) == resolve_spec(cfg, d, base, request),
{
    let info = InfoView { path: normalize(base), request: parse_spec(request) };
    match cfg.tsconfig {
        Some(location) => {
            lemma_mapped_resolution_stands(cfg, d, e, location, info, cfg.recursion_limit, cfg.recursion_limit);
        },
        None => {
            lemma_resolve_at_stands(cfg, d, e, info, cfg.recursion_limit, cfg.recursion_limit);
        },
    }
}

} // verus!
