//! The options of a resolver.

use crate::fs::ResolverUnsafeCache;
use std::sync::Arc;
use crate::text::{chars_of, slice_of, text_of, texts};
use vstd::prelude::*;

verus! {

/// Whether a request has to be completed by one of the extensions.
#[derive(Clone, Copy, Debug, PartialEq, Eq, Structural)]
pub enum EnforceExtension {
    /// Decided when the resolver is made: enabled where one of the
    /// extensions is empty.
    Auto,
    /// The path as it is written is not probed, only the path with each
    /// extension.
    Enabled,
    /// The path as it is written is probed first.
    Disabled,
}

/// What an alias stands for.
#[derive(Debug)]
pub enum AliasMap {
    /// Another target.
    Target(String),
    /// Nothing: the request is to be left out.
    Ignored,
}

/// An `AliasMap` as plain text.
pub ghost enum AliasView {
    Target(Seq<char>),
    Ignored,
}

impl View for AliasMap {
    type V = AliasView;

    open spec fn view(&self) -> AliasView {
        match self {
            AliasMap::Target(t) => AliasView::Target(t@),
            AliasMap::Ignored => AliasView::Ignored,
        }
    }
}

/// What a resolver is made with.
pub struct ResolverOptions {
    /// The extensions that are tried on a path, in order.
    pub extensions: Vec<String>,
    pub enforce_extension: EnforceExtension,
    /// The alias table, in order.
    pub alias: Vec<(String, AliasMap)>,
    /// The manifest fields that may name a package's entry, in order.
    pub main_fields: Vec<String>,
    /// The file names that stand for a directory, in order.
    pub main_files: Vec<String>,
    /// The names of the directories that hold dependencies.
    pub modules: Vec<String>,
    /// The conditions that apply in exports and imports maps.
    pub conditions: Vec<String>,
    /// The manifest fields that are read as alias maps.
    pub alias_fields: Vec<String>,
    /// The name of the manifest field that holds the exports map.
    pub exports_field: String,
    /// The name of the manifest field that holds the imports map.
    pub imports_field: String,
    /// Whether the name of a module is first tried as a relative path.
    pub prefer_relative: bool,
    /// Whether probes follow symbolic links; handed on to whoever probes.
    pub symlinks: bool,
    /// The path of a typed-configuration manifest with path mappings.
    pub tsconfig: Option<String>,
    /// A manifest cache that other resolvers may hold too.
    pub unsafe_cache: Option<Arc<ResolverUnsafeCache>>,
    /// How often a resolution may re-enter itself.
    pub recursion_limit: usize,
}

/// The options as plain values.
pub ghost struct Config {
    pub extensions: Seq<Seq<char>>,
    pub enforce_extension: EnforceExtension,
    pub alias: Seq<(Seq<char>, AliasView)>,
    pub main_fields: Seq<Seq<char>>,
    pub main_files: Seq<Seq<char>>,
    pub modules: Seq<Seq<char>>,
    pub conditions: Seq<Seq<char>>,
    pub alias_fields: Seq<Seq<char>>,
    pub exports_field: Seq<char>,
    pub imports_field: Seq<char>,
    pub prefer_relative: bool,
    pub symlinks: bool,
    pub tsconfig: Option<Seq<char>>,
    pub recursion_limit: nat,
}

/// An alias table as plain text.
pub open spec fn alias_rows(alias: Seq<(String, AliasMap)>) -> Seq<(Seq<char>, AliasView)> {
    Seq::new(alias.len(), |i: int| (alias[i].0@, alias[i].1@))
}

impl View for ResolverOptions {
    type V = Config;

    open spec fn view(&self) -> Config {
        Config {
            extensions: texts(self.extensions@),
            enforce_extension: self.enforce_extension,
            alias: alias_rows(self.alias@),
            main_fields: texts(self.main_fields@),
            main_files: texts(self.main_files@),
            modules: texts(self.modules@),
            conditions: texts(self.conditions@),
            alias_fields: texts(self.alias_fields@),
            exports_field: self.exports_field@,
            imports_field: self.imports_field@,
            prefer_relative: self.prefer_relative,
            symlinks: self.symlinks,
            tsconfig: match self.tsconfig {
                Some(t) => Some(t@),
                None => None,
            },
            recursion_limit: self.recursion_limit as nat,
        }
    }
}

/// An extension without its leading dot.
pub open spec fn strip_dot(ext: Seq<char>) -> Seq<char> {
    if ext.len() > 0 && ext[0] == '.' {
        ext.subrange(1, ext.len() as int)
    } else {
        ext
    }
}

/// The extensions, each without its leading dot.
pub open spec fn stripped(exts: Seq<Seq<char>>) -> Seq<Seq<char>> {
    Seq::new(exts.len(), |i: int| strip_dot(exts[i]))
}

/// Whether one of the extensions is empty.
pub open spec fn has_empty(exts: Seq<Seq<char>>) -> bool {
    exists|i: int| 0 <= i < exts.len() && (#[trigger] exts[i]).len() == 0
}

/// The options as a resolver keeps them: the extensions without their dots,
/// and `Auto` decided.
pub open spec fn settle_config(c: Config) -> Config {
    Config {
        extensions: stripped(c.extensions),
        enforce_extension: match c.enforce_extension {
            EnforceExtension::Auto => if has_empty(stripped(c.extensions)) {
                EnforceExtension::Enabled
            } else {
                EnforceExtension::Disabled
            },
            other => other,
        },
        ..c
    }
}

/// The options that `default` gives.
pub open spec fn default_config() -> Config {
    Config {
        extensions: seq![".js"@, ".json"@, ".node"@],
        enforce_extension: EnforceExtension::Auto,
        alias: Seq::empty(),
        main_fields: seq!["main"@],
        main_files: seq!["index"@],
        modules: seq!["node_modules"@],
        conditions: Seq::empty(),
        alias_fields: seq!["browser"@],
        exports_field: "exports"@,
        imports_field: "imports"@,
        prefer_relative: false,
        symlinks: true,
        tsconfig: None,
        recursion_limit: 1024,
    }
}

fn one(s: &str) -> (v: Vec<String>)
    ensures
        texts(v@) == seq![s@],
{
    let mut v: Vec<String> = Vec::new();
    v.push(s.to_owned());
    proof {
        assert(texts(v@) =~= seq![s@]);
    }
    v
}

impl Default for ResolverOptions {
    fn default() -> (r: ResolverOptions)
        ensures
            r@ == default_config(),
            r.unsafe_cache is None,
    {
        let mut extensions: Vec<String> = Vec::new();
        extensions.push(".js".to_owned());
        extensions.push(".json".to_owned());
        extensions.push(".node".to_owned());
        let r = ResolverOptions {
            extensions,
            enforce_extension: EnforceExtension::Auto,
            alias: Vec::new(),
            main_fields: one("main"),
            main_files: one("index"),
            modules: one("node_modules"),
            conditions: Vec::new(),
            alias_fields: one("browser"),
            exports_field: "exports".to_owned(),
            imports_field: "imports".to_owned(),
            prefer_relative: false,
            symlinks: true,
            tsconfig: None,
            unsafe_cache: None,
            recursion_limit: 1024,
        };
        proof {
            assert(r@.extensions =~= default_config().extensions);
            assert(r@.alias =~= default_config().alias);
            assert(r@.conditions =~= default_config().conditions);
        }
        r
    }
}

/// The extensions, each without its leading dot.
pub fn strip_extensions(exts: &Vec<String>) -> (r: Vec<String>)
    ensures
        texts(r@) == stripped(texts(exts@)),
{
    let mut out: Vec<String> = Vec::new();
    let mut i: usize = 0;
    while i < exts.len()
        invariant
            i <= exts.len(),
            out.len() == i,
            forall|j: int| 0 <= j < i ==> out@[j]@ == strip_dot(exts@[j]@),
        decreases exts.len() - i,
    {
        let chars = chars_of(exts[i].as_str());
        if chars.len() > 0 && chars[0] == '.' {
            out.push(text_of(&slice_of(&chars, 1, chars.len())));
        } else {
            out.push(text_of(&chars));
        }
        i += 1;
    }
    proof {
        assert(texts(out@) =~= stripped(texts(exts@)));
    }
    out
}

/// Whether one of the extensions is empty.
pub fn any_empty(exts: &Vec<String>) -> (r: bool)
    ensures
        r == has_empty(texts(exts@)),
{
    let mut i: usize = 0;
    while i < exts.len()
        invariant
            i <= exts.len(),
            forall|j: int| 0 <= j < i ==> (#[trigger] texts(exts@)[j]).len() != 0,
        decreases exts.len() - i,
    {
        if exts[i].as_str().is_empty() {
            proof {
                assert(texts(exts@)[i as int].len() == 0);
            }
            return true;
        }
        i += 1;
    }
    false
}

} // verus!
