//! Nothing is ignored unasked: a resolution ends as ignored only where the
//! alias table holds an ignore marker or a manifest maps a name to `false`
//! in one of its alias fields.

use crate::description::{member, shared_manifest, DescriptionData, Value};
use crate::fs::{entry_of, kind_at, nearest_manifest, Disk, EntryKind, ManifestSlot};
use crate::info::{normalized_path, reaim, repath, settled, InfoView, ResultView, StatsView};
use crate::kind::PathKind;
use crate::map::lookup_subpath;
use crate::options::{AliasView, Config, EnforceExtension};
use crate::parse::{parse_spec, retarget};
use crate::path::{join_spec, normalize, parent_of, with_extension};
use crate::pipeline::{
    alias_field_stage, alias_matches, alias_stage, alias_target, as_dir, as_file, as_modules,
    descend, dispatch, exports_stage, file_with_ext, imports_stage, is_self_reference,
    main_field_stage, main_file, main_target, module_attempt, module_name_of, modules_scan,
    package_stages, prefer_relative_stage, resolve_at,
};
use crate::resolver::resolve_spec;
use crate::tsconfig::{
    base_url_of, config_dir, config_location, mapped_resolution, mapped_target, mapping_matches,
    paths_scan, paths_table, replacements_scan,
};
use std::sync::Arc;
use vstd::prelude::*;

verus! {

/// The alias table holds no ignore marker.
pub open spec fn no_ignore_marker(cfg: Config) -> bool {
    forall|i: int| 0 <= i < cfg.alias.len() ==> (#[trigger] cfg.alias[i]).1 != AliasView::Ignored
}

/// The members of the alias field `field` of the manifest; none where the
/// field is missing or no object.
pub open spec fn alias_members(pkg: DescriptionData, field: Seq<char>) -> Seq<(String, Value)> {
    match pkg.json.field(field) {
        Some(Value::Object(entries)) => entries@,
        _ => Seq::empty(),
    }
}

/// The manifest maps no name to `false` in any of its alias fields.
pub open spec fn maps_nothing_to_false(cfg: Config, pkg: DescriptionData) -> bool {
    forall|i: int, name: Seq<char>|
        0 <= i < cfg.alias_fields.len() ==> #[trigger] member(
            alias_members(pkg, cfg.alias_fields[i]),
            name,
            0,
        ) != Some(Value::Bool(false))
}

/// No manifest that the resolver knows maps a name to `false`.
pub open spec fn no_false_alias(cfg: Config, disk: Disk) -> bool {
    forall|dir: Seq<char>| #[trigger]
        disk.manifests.contains_key(dir) ==> match disk.manifests[dir] {
            ManifestSlot::Present(p) => maps_nothing_to_false(cfg, shared_manifest(p)),
            _ => true,
        }
}

/// The manifest, if there is one, maps no name to `false`.
pub open spec fn quiet(cfg: Config, pkg: Option<Arc<DescriptionData>>) -> bool {
    match pkg {
        Some(p) => maps_nothing_to_false(cfg, shared_manifest(p)),
        None => true,
    }
}

/// The resolution ended as ignored.
pub open spec fn ignored(s: StatsView) -> bool {
    s == StatsView::Success(ResultView::Ignored)
}

proof fn lemma_manifest_quiet(cfg: Config, disk: Disk, dir: Seq<char>)
    requires
        no_false_alias(cfg, disk),
    ensures
        match nearest_manifest(disk.manifests, dir) {
            Ok(found) => quiet(cfg, found),
            Err(_) => true,
        },
    decreases dir.len(),
{
    if disk.manifests.contains_key(dir) {
        match disk.manifests[dir] {
            ManifestSlot::Absent => match parent_of(dir) {
                Some(up) => {
                    if up.len() < dir.len() {
                        lemma_manifest_quiet(cfg, disk, up);
                    }
                },
                None => {},
            },
            _ => {},
        }
    }
}

proof fn lemma_entry_quiet(cfg: Config, disk: Disk, p: Seq<char>)
    requires
        no_false_alias(cfg, disk),
    ensures
        match entry_of(disk, p) {
            Ok(entry) => quiet(cfg, entry.pkg_info),
            Err(_) => true,
        },
{
    lemma_manifest_quiet(cfg, disk, p);
    match parent_of(p) {
        Some(up) => {
            lemma_manifest_quiet(cfg, disk, up);
        },
        None => {},
    }
}

proof fn lemma_file_with_ext_finds(cfg: Config, disk: Disk, path: Seq<char>, info: InfoView, i: int)
    ensures
        !ignored(file_with_ext(cfg, disk, path, info, i)),
    decreases cfg.extensions.len() - i,
{
    if 0 <= i < cfg.extensions.len() {
        lemma_file_with_ext_finds(cfg, disk, path, info, i + 1);
    }
}

proof fn lemma_as_file_finds(cfg: Config, disk: Disk, info: InfoView)
    ensures
        !ignored(as_file(cfg, disk, info)),
{
    lemma_file_with_ext_finds(cfg, disk, normalized_path(info), info, 0);
}

proof fn lemma_main_file_finds(cfg: Config, disk: Disk, info: InfoView, i: int, j: int)
    ensures
        !ignored(main_file(cfg, disk, info, i, j)),
    decreases cfg.main_files.len() - i, cfg.extensions.len() - j,
{
    if 0 <= i < cfg.main_files.len() {
        if j < 0 || j >= cfg.extensions.len() {
            lemma_main_file_finds(cfg, disk, info, i + 1, 0);
        } else {
            lemma_main_file_finds(cfg, disk, info, i, j + 1);
        }
    }
}

/// A resolution without ignore markers, over manifests that map nothing to
/// `false`, does not end as ignored.
pub proof fn lemma_resolve_at_answers(cfg: Config, disk: Disk, info: InfoView, fuel: nat)
    requires
        no_ignore_marker(cfg),
        no_false_alias(cfg, disk),
    ensures
        !ignored(resolve_at(cfg, disk, info, fuel)),
    decreases fuel, 20nat, 0nat,
{
    lemma_alias_stage_answers(cfg, disk, info, fuel, 0);
    match alias_stage(cfg, disk, info, fuel, 0) {
        StatsView::Resolving(i1) => {
            lemma_prefer_relative_answers(cfg, disk, i1, fuel);
            match prefer_relative_stage(cfg, disk, i1, fuel) {
                StatsView::Resolving(i2) => {
                    lemma_entry_quiet(cfg, disk, i2.path);
                    match entry_of(disk, i2.path) {
                        Ok(entry) => {
                            lemma_imports_answers(cfg, disk, entry.pkg_info, i2, fuel);
                            match imports_stage(cfg, disk, entry.pkg_info, i2, fuel) {
                                StatsView::Resolving(i3) => {
                                    lemma_alias_field_answers(
                                        cfg,
                                        disk,
                                        entry.pkg_info,
                                        i3,
                                        fuel,
                                        0,
                                    );
                                    match alias_field_stage(
                                        cfg,
                                        disk,
                                        entry.pkg_info,
                                        i3,
                                        fuel,
                                        0,
                                    ) {
                                        StatsView::Resolving(i4) => {
                                            lemma_dispatch_answers(cfg, disk, i4, fuel);
                                        },
                                        _ => {},
                                    }
                                },
                                _ => {},
                            }
                        },
                        Err(_) => {},
                    }
                },
                _ => {},
            }
        },
        _ => {},
    }
}

proof fn lemma_descend_answers(cfg: Config, disk: Disk, info: InfoView, fuel: nat)
    requires
        no_ignore_marker(cfg),
        no_false_alias(cfg, disk),
    ensures
        !ignored(descend(cfg, disk, info, fuel)),
    decreases fuel, 0nat, 0nat,
{
    if fuel > 0 {
        lemma_resolve_at_answers(cfg, disk, info, (fuel - 1) as nat);
    }
}

proof fn lemma_alias_stage_answers(cfg: Config, disk: Disk, info: InfoView, fuel: nat, i: int)
    requires
        no_ignore_marker(cfg),
        no_false_alias(cfg, disk),
    ensures
        !ignored(alias_stage(cfg, disk, info, fuel, i)),
    decreases fuel, 5nat, cfg.alias.len() - i,
{
    if 0 <= i < cfg.alias.len() {
        if alias_matches(cfg.alias[i].0, info.request.target) {
            match cfg.alias[i].1 {
                AliasView::Target(v) => {
                    lemma_descend_answers(
                        cfg,
                        disk,
                        reaim(info, alias_target(cfg.alias[i].0, v, info.request.target)),
                        fuel,
                    );
                },
                AliasView::Ignored => {},
            }
        } else {
            lemma_alias_stage_answers(cfg, disk, info, fuel, i + 1);
        }
    }
}

proof fn lemma_prefer_relative_answers(cfg: Config, disk: Disk, info: InfoView, fuel: nat)
    requires
        no_ignore_marker(cfg),
        no_false_alias(cfg, disk),
    ensures
        !ignored(prefer_relative_stage(cfg, disk, info, fuel)),
    decreases fuel, 5nat, 0nat,
{
    lemma_descend_answers(cfg, disk, reaim(info, seq!['.', '/'] + info.request.target), fuel);
}

proof fn lemma_imports_answers(
    cfg: Config,
    disk: Disk,
    pkg: Option<Arc<DescriptionData>>,
    info: InfoView,
    fuel: nat,
)
    requires
        no_ignore_marker(cfg),
        no_false_alias(cfg, disk),
    ensures
        !ignored(imports_stage(cfg, disk, pkg, info, fuel)),
    decreases fuel, 5nat, 0nat,
{
    match pkg {
        Some(p) => match shared_manifest(p).json.field(cfg.imports_field) {
            Some(Value::Object(entries)) => match lookup_subpath(
                entries@,
                info.request.target,
                cfg.conditions,
                false,
            ) {
                Ok(t) => {
                    lemma_descend_answers(
                        cfg,
                        disk,
                        InfoView {
                            path: shared_manifest(p).dir@,
                            request: retarget(info.request, t),
                        },
                        fuel,
                    );
                },
                Err(_) => {},
            },
            _ => {},
        },
        None => {},
    }
}

proof fn lemma_alias_field_answers(
    cfg: Config,
    disk: Disk,
    pkg: Option<Arc<DescriptionData>>,
    info: InfoView,
    fuel: nat,
    i: int,
)
    requires
        no_ignore_marker(cfg),
        no_false_alias(cfg, disk),
        quiet(cfg, pkg),
    ensures
        !ignored(alias_field_stage(cfg, disk, pkg, info, fuel, i)),
    decreases fuel, 5nat, cfg.alias_fields.len() - i,
{
    match pkg {
        Some(p) => {
            if 0 <= i < cfg.alias_fields.len() {
                lemma_alias_field_answers(cfg, disk, pkg, info, fuel, i + 1);
                match shared_manifest(p).json.field(cfg.alias_fields[i]) {
                    Some(Value::Object(entries)) => {
                        assert(member(
                            alias_members(shared_manifest(p), cfg.alias_fields[i]),
                            info.request.target,
                            0,
                        ) != Some(Value::Bool(false)));
                        match member(entries@, info.request.target, 0) {
                            Some(Value::Text(v)) => {
                                lemma_descend_answers(
                                    cfg,
                                    disk,
                                    InfoView {
                                        path: shared_manifest(p).dir@,
                                        request: retarget(info.request, v@),
                                    },
                                    fuel,
                                );
                            },
                            _ => {},
                        }
                    },
                    _ => {},
                }
            }
        },
        None => {},
    }
}

proof fn lemma_main_field_answers(
    cfg: Config,
    disk: Disk,
    pkg: DescriptionData,
    info: InfoView,
    fuel: nat,
    i: int,
)
    requires
        no_ignore_marker(cfg),
        no_false_alias(cfg, disk),
    ensures
        !ignored(main_field_stage(cfg, disk, pkg, info, fuel, i)),
    decreases fuel, 5nat, cfg.main_fields.len() - i,
{
    if pkg.dir@ == normalized_path(info) && 0 <= i < cfg.main_fields.len() {
        lemma_main_field_answers(cfg, disk, pkg, info, fuel, i + 1);
        match main_target(pkg.json.text_field(cfg.main_fields[i])) {
            Some(t) => {
                lemma_descend_answers(
                    cfg,
                    disk,
                    InfoView { path: normalized_path(info), request: retarget(info.request, t) },
                    fuel,
                );
            },
            None => {},
        }
    }
}

proof fn lemma_as_dir_answers(cfg: Config, disk: Disk, info: InfoView, fuel: nat)
    requires
        no_ignore_marker(cfg),
        no_false_alias(cfg, disk),
    ensures
        !ignored(as_dir(cfg, disk, info, fuel)),
    decreases fuel, 9nat, 0nat,
{
    let path = normalized_path(info);
    match entry_of(disk, path) {
        Ok(entry) => {
            let here = settled(info, path);
            match entry.pkg_info {
                Some(p) => {
                    lemma_main_field_answers(cfg, disk, shared_manifest(p), here, fuel, 0);
                    match main_field_stage(cfg, disk, shared_manifest(p), here, fuel, 0) {
                        StatsView::Resolving(i) => {
                            lemma_main_file_finds(cfg, disk, i, 0, 0);
                        },
                        _ => {},
                    }
                },
                None => {
                    lemma_main_file_finds(cfg, disk, here, 0, 0);
                },
            }
        },
        Err(_) => {},
    }
}

proof fn lemma_package_answers(
    cfg: Config,
    disk: Disk,
    pkg: Arc<DescriptionData>,
    skip_exports: bool,
    info: InfoView,
    fuel: nat,
)
    requires
        no_ignore_marker(cfg),
        no_false_alias(cfg, disk),
        quiet(cfg, Some(pkg)),
    ensures
        !ignored(package_stages(cfg, disk, pkg, skip_exports, info, fuel)),
    decreases fuel, 11nat, 0nat,
{
    let s0 = if skip_exports {
        StatsView::Resolving(info)
    } else {
        exports_stage(cfg, shared_manifest(pkg), info)
    };
    match s0 {
        StatsView::Resolving(i1) => {
            lemma_imports_answers(cfg, disk, Some(pkg), i1, fuel);
            match imports_stage(cfg, disk, Some(pkg), i1, fuel) {
                StatsView::Resolving(i2) => {
                    let aimed = reaim(
                        repath(i2, join_spec(i2.path, i2.request.target)),
                        seq!['.'],
                    );
                    lemma_main_field_answers(cfg, disk, shared_manifest(pkg), aimed, fuel, 0);
                    match main_field_stage(cfg, disk, shared_manifest(pkg), aimed, fuel, 0) {
                        StatsView::Resolving(i3) => {
                            lemma_alias_field_answers(cfg, disk, Some(pkg), i3, fuel, 0);
                        },
                        _ => {},
                    }
                },
                _ => {},
            }
        },
        _ => {},
    }
}

proof fn lemma_module_attempt_answers(
    cfg: Config,
    disk: Disk,
    info: InfoView,
    name: Seq<char>,
    fuel: nat,
)
    requires
        no_ignore_marker(cfg),
        no_false_alias(cfg, disk),
    ensures
        !ignored(module_attempt(cfg, disk, info, name, fuel)),
    decreases fuel, 12nat, 0nat,
{
    let root = join_spec(info.path, name);
    let module = module_name_of(info.request.target);
    let module_info = repath(info, root);
    lemma_entry_quiet(cfg, disk, join_spec(root, module));
    lemma_as_file_finds(cfg, disk, module_info);
    match entry_of(disk, join_spec(root, module)) {
        Ok(entry) => {
            let own = is_self_reference(entry.pkg_info, module);
            let s1 = match entry.pkg_info {
                Some(p) => package_stages(
                    cfg,
                    disk,
                    p,
                    shared_manifest(p).dir@ == info.path && !own,
                    module_info,
                    fuel,
                ),
                None => StatsView::Resolving(module_info),
            };
            match entry.pkg_info {
                Some(p) => {
                    lemma_package_answers(
                        cfg,
                        disk,
                        p,
                        shared_manifest(p).dir@ == info.path && !own,
                        module_info,
                        fuel,
                    );
                },
                None => {},
            }
            match s1 {
                StatsView::Resolving(i1) => {
                    lemma_as_file_finds(cfg, disk, i1);
                    match as_file(cfg, disk, i1) {
                        StatsView::Resolving(i2) => {
                            lemma_as_dir_answers(cfg, disk, i2, fuel);
                        },
                        _ => {},
                    }
                },
                _ => {},
            }
        },
        Err(_) => {},
    }
}

proof fn lemma_modules_scan_answers(cfg: Config, disk: Disk, info: InfoView, fuel: nat, k: int)
    requires
        no_ignore_marker(cfg),
        no_false_alias(cfg, disk),
    ensures
        !ignored(modules_scan(cfg, disk, info, fuel, k)),
    decreases fuel, 13nat, cfg.modules.len() - k,
{
    if 0 <= k < cfg.modules.len() {
        lemma_module_attempt_answers(cfg, disk, info, cfg.modules[k], fuel);
        lemma_modules_scan_answers(cfg, disk, info, fuel, k + 1);
    }
}

proof fn lemma_as_modules_answers(cfg: Config, disk: Disk, info: InfoView, fuel: nat)
    requires
        no_ignore_marker(cfg),
        no_false_alias(cfg, disk),
    ensures
        !ignored(as_modules(cfg, disk, info, fuel)),
    decreases fuel, 14nat, 0nat,
{
    lemma_modules_scan_answers(cfg, disk, info, fuel, 0);
    match parent_of(info.path) {
        Some(up) => {
            lemma_descend_answers(cfg, disk, repath(info, up), fuel);
        },
        None => {},
    }
}

proof fn lemma_dispatch_answers(cfg: Config, disk: Disk, info: InfoView, fuel: nat)
    requires
        no_ignore_marker(cfg),
        no_false_alias(cfg, disk),
    ensures
        !ignored(dispatch(cfg, disk, info, fuel)),
    decreases fuel, 15nat, 0nat,
{
    lemma_as_file_finds(cfg, disk, info);
    match as_file(cfg, disk, info) {
        StatsView::Resolving(i) => {
            lemma_as_dir_answers(cfg, disk, i, fuel);
        },
        _ => {},
    }
    lemma_as_modules_answers(cfg, disk, info, fuel);
}

proof fn lemma_replacements_answer(
    cfg: Config,
    disk: Disk,
    base: Seq<char>,
    pattern: Seq<char>,
    items: Seq<Value>,
    info: InfoView,
    fuel: nat,
    j: int,
)
    requires
        no_ignore_marker(cfg),
        no_false_alias(cfg, disk),
    ensures
        !ignored(replacements_scan(cfg, disk, base, pattern, items, info, fuel, j)),
    decreases items.len() - j,
{
    if 0 <= j < items.len() {
        lemma_replacements_answer(cfg, disk, base, pattern, items, info, fuel, j + 1);
        match items[j] {
            Value::Text(replacement) => {
                lemma_resolve_at_answers(
                    cfg,
                    disk,
                    InfoView {
                        path: base,
                        request: retarget(
                            info.request,
                            mapped_target(pattern, replacement@, info.request.target),
                        ),
                    },
                    fuel,
                );
            },
            _ => {},
        }
    }
}

proof fn lemma_paths_answer(
    cfg: Config,
    disk: Disk,
    base: Seq<char>,
    entries: Seq<(String, Value)>,
    info: InfoView,
    fuel: nat,
    i: int,
)
    requires
        no_ignore_marker(cfg),
        no_false_alias(cfg, disk),
    ensures
        !ignored(paths_scan(cfg, disk, base, entries, info, fuel, i)),
    decreases entries.len() - i,
{
    if 0 <= i < entries.len() {
        lemma_paths_answer(cfg, disk, base, entries, info, fuel, i + 1);
        match entries[i].1 {
            Value::List(items) => {
                lemma_replacements_answer(cfg, disk, base, entries[i].0@, items@, info, fuel, 0);
            },
            _ => {},
        }
    }
}

/// Where the alias table holds no ignore marker and no manifest that the
/// resolver knows maps a name to `false` in an alias field, `resolve` never
/// says that the request is to be left out: it names a file or fails.
pub proof fn lemma_never_ignored(cfg: Config, disk: Disk, base: Seq<char>, request: Seq<char>)
    requires
        no_ignore_marker(cfg),
        no_false_alias(cfg, disk),
    ensures
        resolve_spec(cfg, disk, base, request) != Ok::<ResultView, crate::error::ErrorView>(
            ResultView::Ignored,
        ),
{
    let info = InfoView { path: normalize(base), request: parse_spec(request) };
    let fuel = cfg.recursion_limit;
    lemma_resolve_at_answers(cfg, disk, info, fuel);
    match cfg.tsconfig {
        Some(named) => {
            let location = config_location(info, named);
            if disk.manifests.contains_key(location) {
                match disk.manifests[location] {
                    ManifestSlot::Present(p) => match paths_table(shared_manifest(p).json) {
                        Some(entries) => {
                            lemma_paths_answer(
                                cfg,
                                disk,
                                join_spec(
                                    config_dir(location),
                                    base_url_of(shared_manifest(p).json),
                                ),
                                entries@,
                                info,
                                fuel,
                                0,
                            );
                        },
                        None => {},
                    },
                    _ => {},
                }
            }
        },
        None => {},
    }
}

} // verus!
