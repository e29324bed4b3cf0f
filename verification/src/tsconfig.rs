//! Path mappings of a typed-configuration manifest: the name of a module
//! that fits a pattern of the `paths` table is first sought where the table
//! says.

use crate::description::Value;
use crate::error::{ErrorKind, Fault};
use crate::fs::{Disk, ManifestSlot};
use crate::info::{InfoView, ResolverInfo, ResolverStats, StatsView};
use crate::kind::PathKind;
use crate::map::{fill_in, match_pattern, pattern_fits, pattern_middle, substitute};
use crate::options::Config;
use crate::parse::retarget;
use crate::path::{
    is_absolute, is_normal, join_path, join_spec, lemma_join_normal,
    lemma_parent, parent, parent_of,
};
use crate::pipeline::{fault, resolve_at};
use crate::resolver::{anchored, carries, settled_paths, sound, Resolver};
use crate::text::{chars_of, push_all, same, text_of};
use vstd::prelude::*;

verus! {

/// The `paths` table of a typed-configuration manifest.
pub open spec fn paths_table(json: Value) -> Option<Vec<(String, Value)>> {
    match json.field("compilerOptions"@) {
        Some(options) => match options.field("paths"@) {
            Some(Value::Object(entries)) => Some(entries),
            _ => None,
        },
        None => None,
    }
}

/// The `baseUrl` of a typed-configuration manifest; `.` where it names none.
pub open spec fn base_url_of(json: Value) -> Seq<char> {
    match json.field("compilerOptions"@) {
        Some(options) => match options.text_field("baseUrl"@) {
            Some(url) => url,
            None => seq!['.'],
        },
        None => seq!['.'],
    }
}

/// The directory from which the manifest at `location` reads its `baseUrl`.
pub open spec fn config_dir(location: Seq<char>) -> Seq<char> {
    match parent_of(location) {
        Some(dir) => dir,
        None => location,
    }
}

/// A pattern of the table matches a target that it equals, or that it fits
/// with its one `*`.
pub open spec fn mapping_matches(pattern: Seq<char>, target: Seq<char>) -> bool {
    pattern == target || pattern_fits(pattern, target)
}

/// The target that a replacement stands for: below the base, with what the
/// `*` of the pattern stood for in place of its own.
pub open spec fn mapped_target(pattern: Seq<char>, replacement: Seq<char>, target: Seq<char>) -> Seq<char> {
    seq!['.', '/'] + (if pattern == target {
        replacement
    } else {
        substitute(replacement, pattern_middle(pattern, target))
    })
}

/// The replacements of one pattern from item `j` on: the first that
/// resolves decides.
pub open spec fn replacements_scan(
    cfg: Config,
    disk: Disk,
    base: Seq<char>,
    pattern: Seq<char>,
    items: Seq<Value>,
    info: InfoView,
    fuel: nat,
    j: int,
) -> StatsView
    decreases items.len() - j,
{
    if j < 0 || j >= items.len() {
        StatsView::Resolving(info)
    } else {
        match items[j] {
            Value::Text(replacement) => {
                let attempt = resolve_at(
                    cfg,
                    disk,
                    InfoView {
                        path: base,
                        request: retarget(
                            info.request,
                            mapped_target(pattern, replacement@, info.request.target),
                        ),
                    },
                    fuel,
                );
                if attempt.is_finished() {
                    attempt
                } else {
                    replacements_scan(cfg, disk, base, pattern, items, info, fuel, j + 1)
                }
            },
            _ => replacements_scan(cfg, disk, base, pattern, items, info, fuel, j + 1),
        }
    }
}

/// The patterns of the table from member `i` on: of those that match the
/// target, the first with a replacement that resolves decides.
pub open spec fn paths_scan(
    cfg: Config,
    disk: Disk,
    base: Seq<char>,
    entries: Seq<(String, Value)>,
    info: InfoView,
    fuel: nat,
    i: int,
) -> StatsView
    decreases entries.len() - i,
{
    if i < 0 || i >= entries.len() {
        StatsView::Resolving(info)
    } else if mapping_matches(entries[i].0@, info.request.target) {
        match entries[i].1 {
            Value::List(items) => {
                let attempt = replacements_scan(
                    cfg,
                    disk,
                    base,
                    entries[i].0@,
                    items@,
                    info,
                    fuel,
                    0,
                );
                if attempt.is_finished() {
                    attempt
                } else {
                    paths_scan(cfg, disk, base, entries, info, fuel, i + 1)
                }
            },
            _ => paths_scan(cfg, disk, base, entries, info, fuel, i + 1),
        }
    } else {
        paths_scan(cfg, disk, base, entries, info, fuel, i + 1)
    }
}

/// Where the typed-configuration manifest stands: the location that the
/// options name, seen from the directory of the request.
pub open spec fn config_location(info: InfoView, location: Seq<char>) -> Seq<char> {
    join_spec(info.path, location)
}

/// The resolution with the path mappings of the manifest that the options
/// name: the name of a module goes through the table first; where the table
/// finds nothing, and for any other request, the resolution is the usual
/// one.
pub open spec fn mapped_resolution(
    cfg: Config,
    disk: Disk,
    named: Seq<char>,
    info: InfoView,
    fuel: nat,
) -> StatsView {
    let location = config_location(info, named);
    if info.request.kind != PathKind::Normal {
        resolve_at(cfg, disk, info, fuel)
    } else if !disk.manifests.contains_key(location) {
        fault(ErrorKind::ManifestUnknown, location)
    } else {
        match disk.manifests[location] {
            ManifestSlot::Invalid(_) => fault(ErrorKind::ManifestParse, location),
            ManifestSlot::Unreadable => fault(ErrorKind::Io, location),
            ManifestSlot::Absent => resolve_at(cfg, disk, info, fuel),
            ManifestSlot::Present(d) => match paths_table(d.json) {
                None => resolve_at(cfg, disk, info, fuel),
                Some(entries) => {
                    let attempt = paths_scan(
                        cfg,
                        disk,
                        join_spec(config_dir(location), base_url_of(d.json)),
                        entries@,
                        info,
                        fuel,
                        0,
                    );
                    if attempt.is_finished() {
                        attempt
                    } else {
                        resolve_at(cfg, disk, info, fuel)
                    }
                },
            },
        }
    }
}

impl Resolver {
    fn try_replacements(
        &self,
        base: &str,
        pattern: &Vec<char>,
        items: &Vec<Value>,
        info: &ResolverInfo,
        fuel: usize,
    ) -> (r: ResolverStats)
        requires
            mapping_matches(pattern@, info@.request.target),
        ensures
            r@ == replacements_scan(
                self.options@,
                self.disk(),
                base@,
                pattern@,
                items@,
                info@,
                fuel as nat,
                0,
            ),
            sound(r@, self.disk()),
            carries(r@, info@),
            is_absolute(info@.path) && is_absolute(base@) ==> anchored(r@),
            is_normal(info@.path) && is_normal(base@) ==> settled_paths(r@),
    {
        let target = chars_of(info.request.target.as_str());
        let mut j: usize = 0;
        while j < items.len()
            invariant
                j <= items.len(),
                target@ == info@.request.target,
                mapping_matches(pattern@, target@),
                replacements_scan(
                    self.options@,
                    self.disk(),
                    base@,
                    pattern@,
                    items@,
                    info@,
                    fuel as nat,
                    0,
                ) == replacements_scan(
                    self.options@,
                    self.disk(),
                    base@,
                    pattern@,
                    items@,
                    info@,
                    fuel as nat,
                    j as int,
                ),
            decreases items.len() - j,
        {
            match &items[j] {
                Value::Text(replacement) => {
                    let text = chars_of(replacement.as_str());
                    let mut mapped: Vec<char> = vec!['.', '/'];
                    if same(pattern, &target) {
                        push_all(&mut mapped, &text);
                    } else {
                        match match_pattern(pattern, &target) {
                            Some(middle) => {
                                push_all(&mut mapped, &fill_in(&text, &middle));
                            },
                            None => {},
                        }
                    }
                    proof {
                        assert(mapped@ =~= mapped_target(pattern@, replacement@, target@));
                    }
                    let attempt = self._resolve(
                        ResolverInfo::from(
                            base.to_owned(),
                            info.request.duplicate().with_target(text_of(&mapped).as_str()),
                        ),
                        fuel,
                    );
                    if attempt.is_finished() {
                        return attempt;
                    }
                },
                _ => {},
            }
            j += 1;
        }
        ResolverStats::Resolving(info.duplicate())
    }

    /// The resolution with the path mappings of the manifest that the
    /// options name as `named`.
    pub fn _resolve_with_tsconfig(&self, info: ResolverInfo, named: &str, fuel: usize) -> (r:
        ResolverStats)
        ensures
            r@ == mapped_resolution(self.options@, self.disk(), named@, info@, fuel as nat),
            sound(r@, self.disk()),
            carries(r@, info@),
            is_absolute(info@.path) ==> anchored(r@),
            is_normal(info@.path) ==> settled_paths(r@),
    {
        if !(info.request.kind == PathKind::Normal) {
            return self._resolve(info, fuel);
        }
        let located = join_path(info.path.as_str(), named);
        let location = located.as_str();
        proof {
            lemma_join_normal(info@.path, named@);
        }
        let d = match self.manifest_slot(location) {
            None => {
                return ResolverStats::Error(Fault::new(ErrorKind::ManifestUnknown, location));
            },
            Some(ManifestSlot::Invalid(_)) => {
                return ResolverStats::Error(Fault::new(ErrorKind::ManifestParse, location));
            },
            Some(ManifestSlot::Unreadable) => {
                return ResolverStats::Error(Fault::new(ErrorKind::Io, location));
            },
            Some(ManifestSlot::Absent) => {
                return self._resolve(info, fuel);
            },
            Some(ManifestSlot::Present(d)) => d,
        };
        let options = match d.json.get("compilerOptions") {
            Some(options) => options,
            None => {
                return self._resolve(info, fuel);
            },
        };
        let entries = match options.get("paths") {
            Some(Value::Object(entries)) => entries,
            _ => {
                return self._resolve(info, fuel);
            },
        };
        let dir = match parent(location) {
            Some(dir) => dir,
            None => location.to_owned(),
        };
        proof {
            lemma_parent(location@);
            reveal_strlit(".");
            assert("."@ =~= seq!['.']);
        }
        let base = match options.get_text("baseUrl") {
            Some(url) => join_path(dir.as_str(), url.as_str()),
            None => join_path(dir.as_str(), "."),
        };
        let json: &Value = &d.json;
        let ghost url = base_url_of(*json);
        proof {
            lemma_join_normal(dir@, url);
        }
        let target = chars_of(info.request.target.as_str());
        let ghost whole = mapped_resolution(
            self.options@,
            self.disk(),
            named@,
            info@,
            fuel as nat,
        );
        let mut i: usize = 0;
        while i < entries.len()
            invariant
                i <= entries.len(),
                target@ == info@.request.target,
                is_absolute(info@.path) ==> is_absolute(base@),
                is_normal(base@),
                whole == mapped_resolution(
                    self.options@,
                    self.disk(),
                    named@,
                    info@,
                    fuel as nat,
                ),
                whole == (if paths_scan(
                    self.options@,
                    self.disk(),
                    base@,
                    entries@,
                    info@,
                    fuel as nat,
                    0,
                ).is_finished() {
                    paths_scan(self.options@, self.disk(), base@, entries@, info@, fuel as nat, 0)
                } else {
                    resolve_at(self.options@, self.disk(), info@, fuel as nat)
                }),
                paths_scan(
                    self.options@,
                    self.disk(),
                    base@,
                    entries@,
                    info@,
                    fuel as nat,
                    0,
                ) == paths_scan(
                    self.options@,
                    self.disk(),
                    base@,
                    entries@,
                    info@,
                    fuel as nat,
                    i as int,
                ),
            decreases entries.len() - i,
        {
            let pattern = chars_of(entries[i].0.as_str());
            let matches = same(&pattern, &target) || match_pattern(&pattern, &target).is_some();
            if matches {
                match &entries[i].1 {
                    Value::List(items) => {
                        let attempt = self.try_replacements(
                            base.as_str(),
                            &pattern,
                            items,
                            &info,
                            fuel,
                        );
                        if attempt.is_finished() {
                            return attempt;
                        }
                    },
                    _ => {},
                }
            }
            i += 1;
        }
        self._resolve(info, fuel)
    }
}

} // verus!
