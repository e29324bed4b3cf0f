//! What the resolver knows of the file system: a table from paths to what
//! stands there, and a table from directories to their manifests. The
//! resolver reads both and never touches the file system; whoever runs it
//! records what a probe has found.

use crate::description::DescriptionData;
use crate::error::{ErrorKind, Fault, FaultView};
use crate::path::{is_absolute, is_normal, lemma_parent, lemma_parent_normal, parent, parent_of};
use crate::text::same_str;
use dashmap::DashMap;
use std::sync::Arc;
use vstd::prelude::*;

verus! {

/// What a probe found at a path.
#[derive(Clone, Copy, Debug, PartialEq, Eq, Structural)]
pub enum EntryKind {
    /// Neither a file nor a directory.
    Missing,
    /// A regular file.
    File,
    /// A directory.
    Directory,
    /// The probe failed otherwise than by finding nothing.
    Inaccessible,
}

/// What the manifest loader found in a directory.
#[derive(Clone, Debug)]
pub enum ManifestSlot {
    /// The directory has no manifest.
    Absent,
    /// The directory has a manifest that could not be parsed; the loader's
    /// message.
    Invalid(String),
    /// The directory has a manifest that could not be read.
    Unreadable,
    /// The directory's manifest.
    Present(Arc<DescriptionData>),
}

/// `dashmap::DashMap`: a hash map that many threads may read at once.
#[verifier::external_type_specification]
#[verifier::external_body]
#[verifier::reject_recursive_types(K)]
#[verifier::reject_recursive_types(V)]
#[verifier::reject_recursive_types(S)]
pub struct ExDashMap<K, V, S>(DashMap<K, V, S>);

/// What a table of entries holds: for each path that was recorded, what the
/// last record said.
pub uninterp spec fn kind_table(m: DashMap<String, EntryKind>) -> Map<Seq<char>, EntryKind>;

/// What a table of manifests holds: for each directory that was recorded,
/// what the last record said.
pub uninterp spec fn manifest_table(m: DashMap<String, ManifestSlot>) -> Map<
    Seq<char>,
    ManifestSlot,
>;

/// `DashMap::new` makes a map that holds nothing.
#[verifier::external_body]
fn kind_table_new() -> (m: DashMap<String, EntryKind>)
    ensures
        kind_table(m).dom() == Set::<Seq<char>>::empty(),
{
    DashMap::new()
}

/// `DashMap::get` finds the value stored under a key equal to `path`, if
/// there is one. The table is read through a shared reference and written
/// only through an exclusive one, so nothing changes it meanwhile.
#[verifier::external_body]
fn kind_table_get(m: &DashMap<String, EntryKind>, path: &str) -> (r: Option<EntryKind>)
    ensures
        r == (if kind_table(*m).contains_key(path@) {
            Some(kind_table(*m)[path@])
        } else {
            None
        }),
{
    m.get(path).map(|e| *e.value())
}

/// `DashMap::insert` stores the value under the key and replaces what was
/// stored under an equal key; the other keys keep their values.
#[verifier::external_body]
fn kind_table_insert(m: &mut DashMap<String, EntryKind>, path: String, kind: EntryKind)
    ensures
        kind_table(*final(m)) == kind_table(*old(m)).insert(path@, kind),
{
    m.insert(path, kind);
}

/// `DashMap::new` makes a map that holds nothing.
#[verifier::external_body]
fn manifest_table_new() -> (m: DashMap<String, ManifestSlot>)
    ensures
        manifest_table(m).dom() == Set::<Seq<char>>::empty(),
{
    DashMap::new()
}

/// `DashMap::get` finds the value stored under a key equal to `dir`, if
/// there is one; a copy of it is handed out.
#[verifier::external_body]
fn manifest_table_get(m: &DashMap<String, ManifestSlot>, dir: &str) -> (r: Option<ManifestSlot>)
    ensures
        r == (if manifest_table(*m).contains_key(dir@) {
            Some(manifest_table(*m)[dir@])
        } else {
            None
        }),
{
    m.get(dir).map(|e| e.value().clone())
}

/// `DashMap::insert` stores the value under the key and replaces what was
/// stored under an equal key; the other keys keep their values. It returns
/// without unwinding.
#[verifier::external_body]
fn manifest_table_insert(m: &mut DashMap<String, ManifestSlot>, dir: String, slot: ManifestSlot)
    ensures
        manifest_table(*final(m)) == manifest_table(*old(m)).insert(dir@, slot),
    no_unwind
{
    m.insert(dir, slot);
}

/// A manifest is recorded under the directory it says it belongs to.
pub open spec fn slot_fits(dir: Seq<char>, slot: ManifestSlot) -> bool {
    match slot {
        ManifestSlot::Present(d) => d.dir@ == dir,
        _ => true,
    }
}

/// Every manifest of the table is recorded under its own directory.
pub open spec fn table_fits(table: Map<Seq<char>, ManifestSlot>) -> bool {
    forall|dir: Seq<char>| table.contains_key(dir) ==> slot_fits(dir, #[trigger] table[dir])
}

/// The table from paths to what stands there. It belongs to one resolver.
pub struct ResolverSafeCache {
    entries: DashMap<String, EntryKind>,
}

impl ResolverSafeCache {
    /// What the cache holds.
    pub closed spec fn view(&self) -> Map<Seq<char>, EntryKind> {
        kind_table(self.entries)
    }

    /// A cache that holds nothing.
    pub fn new() -> (c: ResolverSafeCache)
        ensures
            c@ == Map::<Seq<char>, EntryKind>::empty(),
    {
        let c = ResolverSafeCache { entries: kind_table_new() };
        proof {
            assert(c@ =~= Map::<Seq<char>, EntryKind>::empty());
        }
        c
    }

    /// What was recorded for `path`.
    pub fn get(&self, path: &str) -> (r: Option<EntryKind>)
        ensures
            r == (if self@.contains_key(path@) {
                Some(self@[path@])
            } else {
                None
            }),
    {
        kind_table_get(&self.entries, path)
    }

    /// Records what stands at `path`.
    pub fn insert(&mut self, path: &str, kind: EntryKind)
        ensures
            final(self)@ == old(self)@.insert(path@, kind),
    {
        kind_table_insert(&mut self.entries, path.to_owned(), kind);
    }

    /// What stands at `path`, as far as it is known and could be probed.
    pub fn probe(&self, path: &str) -> (r: Result<EntryKind, Fault>)
        ensures
            match r {
                Ok(kind) => kind_at(self@, path@) == Ok::<EntryKind, FaultView>(kind),
                Err(f) => kind_at(self@, path@) == Err::<EntryKind, FaultView>(f@),
            },
    {
        match self.get(path) {
            None => Err(Fault::new(ErrorKind::EntryUnknown, path)),
            Some(EntryKind::Inaccessible) => Err(Fault::new(ErrorKind::Io, path)),
            Some(kind) => Ok(kind),
        }
    }
}

/// What stands at `path`: a fault where nothing is recorded for it, or a
/// failed probe is.
pub open spec fn kind_at(entries: Map<Seq<char>, EntryKind>, path: Seq<char>) -> Result<
    EntryKind,
    FaultView,
> {
    if !entries.contains_key(path) {
        Err(FaultView { kind: ErrorKind::EntryUnknown, subject: path })
    } else if entries[path] == EntryKind::Inaccessible {
        Err(FaultView { kind: ErrorKind::Io, subject: path })
    } else {
        Ok(entries[path])
    }
}

impl Default for ResolverSafeCache {
    fn default() -> (c: ResolverSafeCache)
        ensures
            c@ == Map::<Seq<char>, EntryKind>::empty(),
    {
        ResolverSafeCache::new()
    }
}

/// The table from directories to manifests.
pub struct ResolverUnsafeCache {
    pkg_info: DashMap<String, ManifestSlot>,
}

impl ResolverUnsafeCache {
    /// What the cache holds.
    pub closed spec fn view(&self) -> Map<Seq<char>, ManifestSlot> {
        manifest_table(self.pkg_info)
    }

    #[verifier::type_invariant]
    closed spec fn well_formed(self) -> bool {
        table_fits(manifest_table(self.pkg_info))
    }

    /// Every manifest of the cache is recorded under its own directory.
    pub fn note_fits(&self)
        ensures
            table_fits(self@),
    {
        proof {
            use_type_invariant(self);
        }
    }

    /// A cache that holds nothing.
    pub fn new() -> (c: ResolverUnsafeCache)
        ensures
            c@ == Map::<Seq<char>, ManifestSlot>::empty(),
    {
        let c = ResolverUnsafeCache { pkg_info: manifest_table_new() };
        proof {
            assert(c@ =~= Map::<Seq<char>, ManifestSlot>::empty());
        }
        c
    }

    /// What was recorded for `dir`.
    pub fn get(&self, dir: &str) -> (r: Option<ManifestSlot>)
        ensures
            r == (if self@.contains_key(dir@) {
                Some(self@[dir@])
            } else {
                None
            }),
    {
        manifest_table_get(&self.pkg_info, dir)
    }

    /// Records what the manifest loader found in `dir`. A manifest that
    /// says it belongs to another directory is not recorded.
    pub fn insert(&mut self, dir: &str, slot: ManifestSlot) -> (ok: bool)
        ensures
            ok == slot_fits(dir@, slot),
            ok ==> final(self)@ == old(self)@.insert(dir@, slot),
            !ok ==> final(self)@ == old(self)@,
    {
        proof {
            use_type_invariant(&*self);
        }
        let ok = match &slot {
            ManifestSlot::Present(d) => same_str(d.dir.as_str(), dir),
            _ => true,
        };
        if ok {
            manifest_table_insert(&mut self.pkg_info, dir.to_owned(), slot);
        }
        ok
    }
}

/// `Arc::get_mut` hands out the value behind the handle where no other
/// handle shares it, and nothing where one does; the value changes only
/// through what is handed out.
#[verifier::external_body]
pub(crate) fn exclusive(handle: &mut Arc<ResolverUnsafeCache>) -> (r: Option<
    &mut ResolverUnsafeCache,
>)
    ensures
        match r {
            Some(cache) => *cache == **old(handle) && **final(handle) == *final(cache),
            None => **final(handle) == **old(handle),
        },
{
    Arc::get_mut(handle)
}

/// `Arc::clone` makes another handle to the same value.
#[verifier::external_body]
pub(crate) fn share(handle: &Arc<ResolverUnsafeCache>) -> (r: Arc<ResolverUnsafeCache>)
    ensures
        r == *handle,
{
    Arc::clone(handle)
}

/// What a cache handle stands for: the manifests of the cache, none where
/// there is no cache.
pub open spec fn known_manifests(handle: Option<Arc<ResolverUnsafeCache>>) -> Map<
    Seq<char>,
    ManifestSlot,
> {
    match handle {
        Some(cache) => cache@,
        None => Map::empty(),
    }
}

impl Default for ResolverUnsafeCache {
    fn default() -> (c: ResolverUnsafeCache)
        ensures
            c@ == Map::<Seq<char>, ManifestSlot>::empty(),
    {
        ResolverUnsafeCache::new()
    }
}

/// What the resolver knows of the file system.
pub ghost struct Disk {
    pub entries: Map<Seq<char>, EntryKind>,
    pub manifests: Map<Seq<char>, ManifestSlot>,
}

/// What stands at a path, with the nearest manifest at or above it.
#[derive(Debug)]
pub struct Entry {
    pub kind: EntryKind,
    pub pkg_info: Option<Arc<DescriptionData>>,
}

impl Entry {
    pub fn is_file(&self) -> (r: bool)
        ensures
            r == (self.kind == EntryKind::File),
    {
        self.kind == EntryKind::File
    }

    pub fn is_dir(&self) -> (r: bool)
        ensures
            r == (self.kind == EntryKind::Directory),
    {
        self.kind == EntryKind::Directory
    }
}

/// The manifest of `dir`, or else of the nearest directory above it that
/// has one. A directory of which nothing is recorded stops the search, and
/// so does a manifest that could not be read or parsed.
pub open spec fn nearest_manifest(manifests: Map<Seq<char>, ManifestSlot>, dir: Seq<char>) -> Result<
    Option<Arc<DescriptionData>>,
    FaultView,
>
    decreases dir.len(),
{
    if !manifests.contains_key(dir) {
        Err(FaultView { kind: ErrorKind::ManifestUnknown, subject: dir })
    } else {
        match manifests[dir] {
            ManifestSlot::Present(d) => Ok(Some(d)),
            ManifestSlot::Invalid(_) => Err(
                FaultView { kind: ErrorKind::ManifestParse, subject: dir },
            ),
            ManifestSlot::Unreadable => Err(FaultView { kind: ErrorKind::Io, subject: dir }),
            ManifestSlot::Absent => match parent_of(dir) {
                Some(up) => if up.len() < dir.len() {
                    nearest_manifest(manifests, up)
                } else {
                    Ok(None)
                },
                None => Ok(None),
            },
        }
    }
}

/// The entry of `path`: what stands there and the nearest manifest, sought
/// from `path` itself where it is a directory and from its parent where it
/// is not.
pub open spec fn entry_of(disk: Disk, path: Seq<char>) -> Result<Entry, FaultView> {
    match kind_at(disk.entries, path) {
        Err(fault) => Err(fault),
        Ok(kind) => {
            let start = if kind == EntryKind::Directory {
                Some(path)
            } else {
                parent_of(path)
            };
            match start {
                None => Ok(Entry { kind, pkg_info: None }),
                Some(dir) => match nearest_manifest(disk.manifests, dir) {
                    Ok(found) => Ok(Entry { kind, pkg_info: found }),
                    Err(fault) => Err(fault),
                },
            }
        },
    }
}

/// Whether `r` says of a result what `spec` says of its model.
pub open spec fn entry_matches(r: Result<Entry, Fault>, spec: Result<Entry, FaultView>) -> bool {
    match r {
        Ok(e) => spec == Ok::<Entry, FaultView>(e),
        Err(f) => spec == Err::<Entry, FaultView>(f@),
    }
}

/// The nearest manifest at or above `dir`.
pub fn find_manifest(cache: &ResolverUnsafeCache, dir: &str) -> (r: Result<
    Option<Arc<DescriptionData>>,
    Fault,
>)
    ensures
        match r {
            Ok(found) => nearest_manifest(cache@, dir@) == Ok::<
                Option<Arc<DescriptionData>>,
                FaultView,
            >(found),
            Err(f) => nearest_manifest(cache@, dir@) == Err::<
                Option<Arc<DescriptionData>>,
                FaultView,
            >(f@),
        },
{
    let mut at: String = dir.to_owned();
    loop
        invariant
            nearest_manifest(cache@, dir@) == nearest_manifest(cache@, at@),
        decreases at@.len(),
    {
        match cache.get(at.as_str()) {
            None => {
                return Err(Fault::new(ErrorKind::ManifestUnknown, at.as_str()));
            },
            Some(ManifestSlot::Present(d)) => {
                return Ok(Some(d));
            },
            Some(ManifestSlot::Invalid(_)) => {
                return Err(Fault::new(ErrorKind::ManifestParse, at.as_str()));
            },
            Some(ManifestSlot::Unreadable) => {
                return Err(Fault::new(ErrorKind::Io, at.as_str()));
            },
            Some(ManifestSlot::Absent) => {
                proof {
                    lemma_parent(at@);
                }
                match parent(at.as_str()) {
                    Some(up) => {
                        at = up;
                    },
                    None => {
                        return Ok(None);
                    },
                }
            },
        }
    }
}

/// The entry of `path`.
pub fn load_entry_from(
    safe: &ResolverSafeCache,
    manifests: &ResolverUnsafeCache,
    path: &str,
) -> (r: Result<Entry, Fault>)
    ensures
        entry_matches(r, entry_of(Disk { entries: safe@, manifests: manifests@ }, path@)),
{
    match safe.probe(path) {
        Err(fault) => Err(fault),
        Ok(kind) => {
            let start = if kind == EntryKind::Directory {
                Some(path.to_owned())
            } else {
                parent(path)
            };
            match start {
                None => Ok(Entry { kind, pkg_info: None }),
                Some(dir) => match find_manifest(manifests, dir.as_str()) {
                    Ok(found) => Ok(Entry { kind, pkg_info: found }),
                    Err(fault) => Err(fault),
                },
            }
        },
    }
}

/// The nearest manifest stands in a directory at or above the one the
/// search began in: its path is no longer, and absolute where that one is.
pub proof fn lemma_nearest_manifest(manifests: Map<Seq<char>, ManifestSlot>, dir: Seq<char>)
    requires
        table_fits(manifests),
    ensures
        match nearest_manifest(manifests, dir) {
            Ok(Some(d)) => {
                &&& d.dir@.len() <= dir.len()
                &&& is_absolute(dir) ==> is_absolute(d.dir@)
                &&& is_normal(dir) ==> is_normal(d.dir@)
            },
            _ => true,
        },
    decreases dir.len(),
{
    if manifests.contains_key(dir) {
        match manifests[dir] {
            ManifestSlot::Absent => {
                lemma_parent(dir);
                if is_normal(dir) {
                    lemma_parent_normal(dir);
                }
                match parent_of(dir) {
                    Some(up) => {
                        lemma_nearest_manifest(manifests, up);
                    },
                    None => {},
                }
            },
            _ => {},
        }
    }
}

/// The manifest of an entry stands in a directory whose path is absolute
/// where the entry's path is, and normal where the entry's path is.
pub proof fn lemma_entry_manifest(disk: Disk, path: Seq<char>)
    requires
        table_fits(disk.manifests),
    ensures
        match entry_of(disk, path) {
            Ok(e) => match e.pkg_info {
                Some(d) => (is_absolute(path) ==> is_absolute(d.dir@)) && (is_normal(path)
                    ==> is_normal(d.dir@)),
                None => true,
            },
            Err(_) => true,
        },
{
    lemma_parent(path);
    if is_normal(path) {
        lemma_parent_normal(path);
    }
    match parent_of(path) {
        Some(up) => {
            lemma_nearest_manifest(disk.manifests, up);
        },
        None => {},
    }
    lemma_nearest_manifest(disk.manifests, path);
}

} // verus!
