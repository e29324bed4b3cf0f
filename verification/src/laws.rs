//! What holds of every resolution, proved from the definitions of the
//! stages.

use crate::description::DescriptionData;
use crate::error::{ErrorView, ResolverError};
use crate::fs::{entry_of, kind_at, nearest_manifest, Disk, EntryKind};
use crate::kind::PathKind;
use std::sync::Arc;
use crate::info::{
    normalized_path, reaim, repath, InfoView, ResolverResult, ResultView, StatsView,
};
use crate::path::{join_spec, lemma_parent, parent_of};
use crate::options::{AliasView, Config};
use crate::parse::retarget;
use crate::pipeline::{
    alias_field_stage, alias_matches, alias_stage, alias_target, as_modules, close, descend,
    dispatch, imports_stage, main_field_stage, main_target, module_attempt, modules_scan,
    prefer_relative_stage, resolve_at,
};
use crate::parse::parse_spec;
use crate::resolver::{resolve_spec, result_matches};
use crate::stability::{lemma_resolve_at_stands, limits};
use vstd::prelude::*;

verus! {

/// Two results of `resolve` for one request, from one directory, with the
/// same options and the same knowledge of the file system, are the same:
/// both succeed with the same result, or both fail with the same error.
pub proof fn lemma_resolve_repeats(
    first: Result<ResolverResult, ResolverError>,
    second: Result<ResolverResult, ResolverError>,
    cfg: Config,
    disk: Disk,
    base: Seq<char>,
    request: Seq<char>,
)
    requires
        result_matches(first, resolve_spec(cfg, disk, base, request)),
        result_matches(second, resolve_spec(cfg, disk, base, request)),
    ensures
        first is Ok <==> second is Ok,
        first is Ok ==> first->Ok_0@ == second->Ok_0@,
        first is Err ==> first->Err_0@ == second->Err_0@,
{
}

proof fn lemma_alias_skips(cfg: Config, disk: Disk, info: InfoView, fuel: nat, from: int, i: int)
    requires
        0 <= from <= i < cfg.alias.len(),
        forall|j: int| from <= j < i ==> !alias_matches(cfg.alias[j].0, info.request.target),
    ensures
        alias_stage(cfg, disk, info, fuel, from) == alias_stage(cfg, disk, info, fuel, i),
    decreases i - from,
{
    if from < i {
        lemma_alias_skips(cfg, disk, info, fuel, from + 1, i);
    }
}

/// Where entry `i` is the first of the alias table whose key matches the
/// target, and it names another target, the request resolves as the request
/// for that target with what stood behind the key does, one re-entry
/// further on.
pub proof fn lemma_alias_rewrites(
    cfg: Config,
    disk: Disk,
    info: InfoView,
    fuel: nat,
    i: int,
    value: Seq<char>,
)
    requires
        0 <= i < cfg.alias.len(),
        alias_matches(cfg.alias[i].0, info.request.target),
        forall|j: int| 0 <= j < i ==> !alias_matches(cfg.alias[j].0, info.request.target),
        cfg.alias[i].1 == AliasView::Target(value),
        fuel > 0,
    ensures
        resolve_at(cfg, disk, info, fuel) == resolve_at(
            cfg,
            disk,
            reaim(info, alias_target(cfg.alias[i].0, value, info.request.target)),
            (fuel - 1) as nat,
        ),
{
    lemma_alias_skips(cfg, disk, info, fuel, 0, i);
    let rewritten = reaim(info, alias_target(cfg.alias[i].0, value, info.request.target));
    assert(alias_stage(cfg, disk, info, fuel, i) == descend(cfg, disk, rewritten, fuel));
    lemma_resolution_closed(cfg, disk, rewritten, (fuel - 1) as nat);
}

/// Where entry `i` is the first of the alias table whose key matches the
/// target, and it names another target, the request resolves as the request
/// for that target with what stood behind the key does, with the same limit
/// on both sides. The one case left out is a resolution that stops at the
/// limit: there the rewritten request, which needs one re-entry less, may
/// still get through.
pub proof fn lemma_alias_resolves_alike(
    cfg: Config,
    disk: Disk,
    info: InfoView,
    fuel: nat,
    i: int,
    value: Seq<char>,
)
    requires
        0 <= i < cfg.alias.len(),
        alias_matches(cfg.alias[i].0, info.request.target),
        forall|j: int| 0 <= j < i ==> !alias_matches(cfg.alias[j].0, info.request.target),
        cfg.alias[i].1 == AliasView::Target(value),
        !limits(resolve_at(cfg, disk, info, fuel)),
    ensures
        resolve_at(cfg, disk, info, fuel) == resolve_at(
            cfg,
            disk,
            reaim(info, alias_target(cfg.alias[i].0, value, info.request.target)),
            fuel,
        ),
{
    lemma_alias_skips(cfg, disk, info, fuel, 0, i);
    let rewritten = reaim(info, alias_target(cfg.alias[i].0, value, info.request.target));
    assert(alias_stage(cfg, disk, info, fuel, i) == descend(cfg, disk, rewritten, fuel));
    if fuel > 0 {
        lemma_alias_rewrites(cfg, disk, info, fuel, i, value);
        lemma_resolve_at_stands(cfg, disk, disk, rewritten, (fuel - 1) as nat, fuel);
    }
}

/// The same of whole requests, where the options name no typed-configuration
/// manifest: a request whose target the alias table rewrites, and the
/// request that is written with the rewritten target, both succeed with the
/// same result or both fail for the same cause.
pub proof fn lemma_alias_requests_alike(
    cfg: Config,
    disk: Disk,
    base: Seq<char>,
    asked: Seq<char>,
    meant: Seq<char>,
    i: int,
    value: Seq<char>,
)
    requires
        cfg.tsconfig is None,
        0 <= i < cfg.alias.len(),
        alias_matches(cfg.alias[i].0, parse_spec(asked).target),
        forall|j: int| 0 <= j < i ==> !alias_matches(cfg.alias[j].0, parse_spec(asked).target),
        cfg.alias[i].1 == AliasView::Target(value),
        parse_spec(meant) == retarget(
            parse_spec(asked),
            alias_target(cfg.alias[i].0, value, parse_spec(asked).target),
        ),
        match resolve_spec(cfg, disk, base, asked) {
            Err(e) => e.kind != crate::error::ErrorKind::RecursionLimit,
            Ok(_) => true,
        },
    ensures
        match (resolve_spec(cfg, disk, base, asked), resolve_spec(cfg, disk, base, meant)) {
            (Ok(a), Ok(b)) => a == b,
            (Err(a), Err(b)) => a.kind == b.kind,
            _ => false,
        },
{
    let info = InfoView { path: crate::path::normalize(base), request: parse_spec(asked) };
    lemma_alias_resolves_alike(cfg, disk, info, cfg.recursion_limit, i, value);
}

/// Two orders of two main fields agree where the fields do not overlap:
/// where the second field `second` resolves to nothing under either order,
/// and the first field `first` resolves alike under both. (The options
/// reach the resolutions that the fields lead to, so this has to be asked.)
pub proof fn lemma_main_fields_swap(
    one: Config,
    other: Config,
    disk: Disk,
    pkg: DescriptionData,
    info: InfoView,
    fuel: nat,
    first: Seq<char>,
    second: Seq<char>,
)
    requires
        one.main_fields == seq![first, second],
        other.main_fields == seq![second, first],
        !main_field_attempt(one, disk, pkg, info, fuel, 1).is_finished(),
        !main_field_attempt(other, disk, pkg, info, fuel, 0).is_finished(),
        main_field_attempt(one, disk, pkg, info, fuel, 0) == main_field_attempt(
            other,
            disk,
            pkg,
            info,
            fuel,
            1,
        ) || (!main_field_attempt(one, disk, pkg, info, fuel, 0).is_finished()
            && !main_field_attempt(other, disk, pkg, info, fuel, 1).is_finished()),
    ensures
        main_field_stage(one, disk, pkg, info, fuel, 0) == main_field_stage(
            other,
            disk,
            pkg,
            info,
            fuel,
            0,
        ),
{
    if pkg.dir@ == normalized_path(info) {
        let a = main_field_attempt(one, disk, pkg, info, fuel, 0);
        let b = main_field_attempt(other, disk, pkg, info, fuel, 1);
        if a.is_finished() {
            lemma_first_main_field_wins(one, disk, pkg, info, fuel, 0);
            lemma_first_main_field_wins(other, disk, pkg, info, fuel, 1);
        } else {
            if b.is_finished() {
                assert(a == b);
            }
            lemma_no_main_field_wins(one, disk, pkg, info, fuel, 0);
            lemma_no_main_field_wins(other, disk, pkg, info, fuel, 0);
        }
    }
}

/// Where entry `i` is the first of the alias table whose key matches the
/// target, and it is an ignore marker, the request is ignored.
pub proof fn lemma_alias_ignores(cfg: Config, disk: Disk, info: InfoView, fuel: nat, i: int)
    requires
        0 <= i < cfg.alias.len(),
        alias_matches(cfg.alias[i].0, info.request.target),
        forall|j: int| 0 <= j < i ==> !alias_matches(cfg.alias[j].0, info.request.target),
        cfg.alias[i].1 == AliasView::Ignored,
    ensures
        resolve_at(cfg, disk, info, fuel) == StatsView::Success(ResultView::Ignored),
{
    lemma_alias_skips(cfg, disk, info, fuel, 0, i);
}

proof fn lemma_scan_finds_none(cfg: Config, disk: Disk, info: InfoView, fuel: nat, k: int)
    requires
        0 <= k,
        forall|j: int|
            0 <= j < cfg.modules.len() ==> match kind_at(
                disk.entries,
                join_spec(info.path, #[trigger] cfg.modules[j]),
            ) {
                Ok(kind) => kind != EntryKind::Directory,
                Err(_) => false,
            },
    ensures
        modules_scan(cfg, disk, info, fuel, k) == StatsView::Resolving(info),
    decreases cfg.modules.len() - k,
{
    if k < cfg.modules.len() {
        let probed = kind_at(disk.entries, join_spec(info.path, cfg.modules[k]));
        assert(probed is Ok);
        assert(module_attempt(cfg, disk, info, cfg.modules[k], fuel) == StatsView::Resolving(
            info,
        ));
        lemma_scan_finds_none(cfg, disk, info, fuel, k + 1);
    }
}

/// Where none of the dependency directories of the info's directory is
/// there, the request is sought from the parent directory, and at the top
/// it has failed.
pub proof fn lemma_modules_ascend(cfg: Config, disk: Disk, info: InfoView, fuel: nat)
    requires
        forall|j: int|
            0 <= j < cfg.modules.len() ==> match kind_at(
                disk.entries,
                join_spec(info.path, #[trigger] cfg.modules[j]),
            ) {
                Ok(kind) => kind != EntryKind::Directory,
                Err(_) => false,
            },
    ensures
        as_modules(cfg, disk, info, fuel) == (match parent_of(info.path) {
            Some(up) => close(descend(cfg, disk, repath(info, up), fuel)),
            None => StatsView::Failed(info),
        }),
{
    lemma_scan_finds_none(cfg, disk, info, fuel, 0);
}

/// How many directories stand above `dir`.
pub open spec fn levels(dir: Seq<char>) -> nat
    decreases dir.len(),
{
    match parent_of(dir) {
        Some(up) => if up.len() < dir.len() {
            1 + levels(up)
        } else {
            0
        },
        None => 0,
    }
}

/// The directory `dir` and every directory above it are known, have no
/// manifest and have none of the dependency directories.
pub open spec fn bare(cfg: Config, disk: Disk, dir: Seq<char>) -> bool
    decreases dir.len(),
{
    &&& kind_at(disk.entries, dir) is Ok
    &&& disk.manifests.contains_key(dir) && disk.manifests[dir] is Absent
    &&& forall|j: int|
        0 <= j < cfg.modules.len() ==> match kind_at(
            disk.entries,
            join_spec(dir, #[trigger] cfg.modules[j]),
        ) {
            Ok(kind) => kind != EntryKind::Directory,
            Err(_) => false,
        }
    &&& match parent_of(dir) {
        Some(up) => up.len() < dir.len() ==> bare(cfg, disk, up),
        None => true,
    }
}

proof fn lemma_bare_no_manifest(cfg: Config, disk: Disk, dir: Seq<char>)
    requires
        bare(cfg, disk, dir),
    ensures
        nearest_manifest(disk.manifests, dir) == Ok::<
            Option<Arc<DescriptionData>>,
            crate::error::FaultView,
        >(None),
    decreases dir.len(),
{
    lemma_parent(dir);
    match parent_of(dir) {
        Some(up) => {
            lemma_bare_no_manifest(cfg, disk, up);
        },
        None => {},
    }
}

/// From a directory that is bare up to the top, the name of a module is
/// not found: with an empty alias table and without the detour through a
/// relative path, the resolution fails, if only it may re-enter itself once
/// for each directory above.
pub proof fn lemma_bare_fails(cfg: Config, disk: Disk, info: InfoView, fuel: nat)
    requires
        cfg.alias.len() == 0,
        !cfg.prefer_relative,
        info.request.kind == PathKind::Normal,
        bare(cfg, disk, info.path),
        levels(info.path) <= fuel,
    ensures
        resolve_at(cfg, disk, info, fuel) is Failed,
    decreases info.path.len(),
{
    lemma_parent(info.path);
    lemma_bare_no_manifest(cfg, disk, info.path);
    match parent_of(info.path) {
        Some(up) => {
            lemma_bare_no_manifest(cfg, disk, up);
            lemma_bare_fails(cfg, disk, repath(info, up), (fuel - 1) as nat);
        },
        None => {},
    }
    let entry = entry_of(disk, info.path);
    assert(entry is Ok && entry->Ok_0.pkg_info is None);
    assert(alias_stage(cfg, disk, info, fuel, 0) == StatsView::Resolving(info));
    assert(prefer_relative_stage(cfg, disk, info, fuel) == StatsView::Resolving(info));
    assert(imports_stage(cfg, disk, None, info, fuel) == StatsView::Resolving(info));
    assert(alias_field_stage(cfg, disk, None, info, fuel, 0) == StatsView::Resolving(info));
    lemma_modules_ascend(cfg, disk, info, fuel);
    assert(dispatch(cfg, disk, info, fuel) == as_modules(cfg, disk, info, fuel));
}

/// The same of a whole request: where the options name no typed
/// configuration, the alias table is empty and the directory of the request
/// is bare up to the top, the name of a module is not found.
pub proof fn lemma_not_found(cfg: Config, disk: Disk, base: Seq<char>, request: Seq<char>)
    requires
        cfg.tsconfig is None,
        cfg.alias.len() == 0,
        !cfg.prefer_relative,
        parse_spec(request).kind == PathKind::Normal,
        bare(cfg, disk, crate::path::normalize(base)),
        levels(crate::path::normalize(base)) <= cfg.recursion_limit,
    ensures
        resolve_spec(cfg, disk, base, request) == Err::<ResultView, ErrorView>(
            ErrorView { kind: crate::error::ErrorKind::NotFound, subject: request, request, base },
        ),
{
    let info = InfoView { path: crate::path::normalize(base), request: parse_spec(request) };
    lemma_bare_fails(cfg, disk, info, cfg.recursion_limit);
}

/// A resolution never ends undecided: it succeeds, fails or stops.
pub proof fn lemma_resolution_closed(cfg: Config, disk: Disk, info: InfoView, fuel: nat)
    ensures
        !(resolve_at(cfg, disk, info, fuel) is Resolving),
        close(resolve_at(cfg, disk, info, fuel)) == resolve_at(cfg, disk, info, fuel),
{
}

/// What main field `j` of the manifest gives: the resolution of its value
/// from the manifest's directory; nothing where the manifest has no usable
/// text under that name.
pub open spec fn main_field_attempt(
    cfg: Config,
    disk: Disk,
    pkg: DescriptionData,
    info: InfoView,
    fuel: nat,
    j: int,
) -> StatsView {
    match main_target(pkg.json.text_field(cfg.main_fields[j])) {
        Some(t) => descend(
            cfg,
            disk,
            InfoView { path: normalized_path(info), request: retarget(info.request, t) },
            fuel,
        ),
        None => StatsView::Resolving(info),
    }
}

proof fn lemma_main_field_skips(
    cfg: Config,
    disk: Disk,
    pkg: DescriptionData,
    info: InfoView,
    fuel: nat,
    from: int,
    k: int,
)
    requires
        pkg.dir@ == normalized_path(info),
        0 <= from <= k < cfg.main_fields.len(),
        forall|j: int|
            from <= j < k ==> !(#[trigger] main_field_attempt(
                cfg,
                disk,
                pkg,
                info,
                fuel,
                j,
            )).is_finished(),
    ensures
        main_field_stage(cfg, disk, pkg, info, fuel, from) == main_field_stage(
            cfg,
            disk,
            pkg,
            info,
            fuel,
            k,
        ),
    decreases k - from,
{
    if from < k {
        assert(!main_field_attempt(cfg, disk, pkg, info, fuel, from).is_finished());
        lemma_main_field_skips(cfg, disk, pkg, info, fuel, from + 1, k);
    }
}

/// Among the main fields, the first whose value resolves wins: where field
/// `k` ends the resolution and no field before it does, the result is that
/// of field `k`, whatever the fields behind it would give.
pub proof fn lemma_first_main_field_wins(
    cfg: Config,
    disk: Disk,
    pkg: DescriptionData,
    info: InfoView,
    fuel: nat,
    k: int,
)
    requires
        pkg.dir@ == normalized_path(info),
        0 <= k < cfg.main_fields.len(),
        main_field_attempt(cfg, disk, pkg, info, fuel, k).is_finished(),
        forall|j: int|
            0 <= j < k ==> !(#[trigger] main_field_attempt(
                cfg,
                disk,
                pkg,
                info,
                fuel,
                j,
            )).is_finished(),
    ensures
        main_field_stage(cfg, disk, pkg, info, fuel, 0) == main_field_attempt(
            cfg,
            disk,
            pkg,
            info,
            fuel,
            k,
        ),
{
    lemma_main_field_skips(cfg, disk, pkg, info, fuel, 0, k);
}

/// Where no main field ends the resolution, the info goes on as it came.
pub proof fn lemma_no_main_field_wins(
    cfg: Config,
    disk: Disk,
    pkg: DescriptionData,
    info: InfoView,
    fuel: nat,
    from: int,
)
    requires
        0 <= from <= cfg.main_fields.len(),
        forall|j: int|
            from <= j < cfg.main_fields.len() ==> !(#[trigger] main_field_attempt(
                cfg,
                disk,
                pkg,
                info,
                fuel,
                j,
            )).is_finished(),
    ensures
        main_field_stage(cfg, disk, pkg, info, fuel, from) == StatsView::Resolving(info),
    decreases cfg.main_fields.len() - from,
{
    if pkg.dir@ == normalized_path(info) && from < cfg.main_fields.len() {
        assert(!main_field_attempt(cfg, disk, pkg, info, fuel, from).is_finished());
        lemma_no_main_field_wins(cfg, disk, pkg, info, fuel, from + 1);
    }
}

} // verus!
