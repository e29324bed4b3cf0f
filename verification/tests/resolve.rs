use nodejs_resolver::{
    AliasMap, DescriptionData, EnforceExtension, EntryKind, ErrorKind, ManifestSlot, Resolver,
    ResolverError, ResolverOptions, ResolverResult, Value,
};
use std::sync::Arc;

struct Tree {
    files: Vec<String>,
    manifests: Vec<(String, Option<Value>)>,
    broken: Vec<String>,
}

fn tree(files: &[&str]) -> Tree {
    Tree { files: files.iter().map(|f| f.to_string()).collect(), manifests: Vec::new(), broken: Vec::new() }
}

fn copy_value(v: &Value) -> Value {
    match v {
        Value::Null => Value::Null,
        Value::Bool(b) => Value::Bool(*b),
        Value::Number => Value::Number,
        Value::Text(s) => Value::Text(s.clone()),
        Value::List(items) => Value::List(items.iter().map(copy_value).collect()),
        Value::Object(entries) => {
            Value::Object(entries.iter().map(|(k, v)| (k.clone(), copy_value(v))).collect())
        }
    }
}

impl Tree {
    fn with_manifest(mut self, dir: &str, json: Value) -> Tree {
        self.files.push(format!("{}/package.json", if dir == "/" { "" } else { dir }));
        self.manifests.push((dir.to_string(), Some(json)));
        self
    }

    fn with_config(mut self, location: &str, json: Value) -> Tree {
        self.files.push(location.to_string());
        self.manifests.push((location.to_string(), Some(json)));
        self
    }

    fn with_broken_manifest(mut self, dir: &str) -> Tree {
        self.manifests.push((dir.to_string(), None));
        self
    }

    fn with_unreadable(mut self, path: &str) -> Tree {
        self.broken.push(path.to_string());
        self
    }

    fn kind(&self, path: &str) -> EntryKind {
        if self.broken.iter().any(|b| b == path) {
            return EntryKind::Inaccessible;
        }
        if self.files.iter().any(|f| f == path) {
            return EntryKind::File;
        }
        let below = if path == "/" { "/".to_string() } else { format!("{}/", path) };
        if self.files.iter().any(|f| f.starts_with(&below)) {
            return EntryKind::Directory;
        }
        EntryKind::Missing
    }

    fn manifest(&self, dir: &str) -> ManifestSlot {
        for (d, json) in &self.manifests {
            if d == dir {
                return match json {
                    Some(v) => ManifestSlot::Present(Arc::new(DescriptionData::new(
                        dir.to_string(),
                        copy_value(v),
                    ))),
                    None => ManifestSlot::Invalid("unexpected end of input".to_string()),
                };
            }
        }
        ManifestSlot::Absent
    }
}

fn run(
    resolver: &mut Resolver,
    tree: &Tree,
    base: &str,
    request: &str,
) -> Result<ResolverResult, ResolverError> {
    for _ in 0..10_000 {
        match resolver.resolve(base, request) {
            Err(e) if e.kind == ErrorKind::EntryUnknown => {
                resolver.record_entry(&e.subject, tree.kind(&e.subject));
            }
            Err(e) if e.kind == ErrorKind::ManifestUnknown => {
                assert!(resolver.record_manifest(&e.subject, tree.manifest(&e.subject)));
            }
            other => return other,
        }
    }
    panic!("the resolution kept asking");
}

fn expect_file(r: Result<ResolverResult, ResolverError>) -> (String, String, String) {
    match r {
        Ok(ResolverResult::Info(info)) => {
            assert_eq!(info.request.target.as_str(), "");
            (info.path, info.request.query, info.request.fragment)
        }
        Ok(ResolverResult::Ignored) => panic!("ignored"),
        Err(e) => panic!("error {:?}", e),
    }
}

fn expect_error(r: Result<ResolverResult, ResolverError>) -> ResolverError {
    match r {
        Ok(_) => panic!("resolved"),
        Err(e) => e,
    }
}

fn object(members: Vec<(&str, Value)>) -> Value {
    Value::Object(members.into_iter().map(|(k, v)| (k.to_string(), v)).collect())
}

fn text(s: &str) -> Value {
    Value::Text(s.to_string())
}

fn options_with_extensions(exts: &[&str]) -> ResolverOptions {
    let mut options = ResolverOptions::default();
    options.extensions = exts.iter().map(|e| e.to_string()).collect();
    options
}

#[test]
fn bare_module_resolves_to_its_index() {
    let t = tree(&["/p/node_modules/foo/index.js", "/p/src/a.js"]);
    let mut r = Resolver::new(ResolverOptions::default());
    let (path, query, fragment) = expect_file(run(&mut r, &t, "/p/src", "foo"));
    assert_eq!(path, "/p/node_modules/foo/index.js");
    assert_eq!(query, "");
    assert_eq!(fragment, "");
}

#[test]
fn relative_request_gets_the_first_extension_that_is_a_file() {
    let t = tree(&["/p/src/foo.js"]);
    let mut r = Resolver::new(options_with_extensions(&[".js", ".ts"]));
    let (path, _, _) = expect_file(run(&mut r, &t, "/p/src", "./foo"));
    assert_eq!(path, "/p/src/foo.js");
}

#[test]
fn extensions_are_tried_in_order() {
    let t = tree(&["/p/src/foo.js", "/p/src/foo.ts"]);
    let mut r = Resolver::new(options_with_extensions(&[".ts", ".js"]));
    let (path, _, _) = expect_file(run(&mut r, &t, "/p/src", "./foo"));
    assert_eq!(path, "/p/src/foo.ts");
}

#[test]
fn exports_subpath_leads_into_the_package() {
    let t = tree(&["/p/node_modules/bar/lib/x.js", "/p/a.js"]).with_manifest(
        "/p/node_modules/bar",
        object(vec![("exports", object(vec![("./x", text("./lib/x.js"))]))]),
    );
    let mut r = Resolver::new(ResolverOptions::default());
    let (path, _, _) = expect_file(run(&mut r, &t, "/p", "bar/x"));
    assert_eq!(path, "/p/node_modules/bar/lib/x.js");
}

#[test]
fn exports_without_the_subpath_refuse_it() {
    let t = tree(&["/p/node_modules/bar/lib/x.js", "/p/node_modules/bar/lib/y.js"]).with_manifest(
        "/p/node_modules/bar",
        object(vec![("exports", object(vec![("./x", text("./lib/x.js"))]))]),
    );
    let mut r = Resolver::new(ResolverOptions::default());
    let e = expect_error(run(&mut r, &t, "/p", "bar/lib/y.js"));
    assert_eq!(e.kind, ErrorKind::PackagePathNotExported);
    assert_eq!(e.subject, "./lib/y.js");
    assert_eq!(e.request, "bar/lib/y.js");
    assert_eq!(e.base, "/p");
}

#[test]
fn exports_pattern_fills_in_the_middle() {
    let t = tree(&["/p/node_modules/bar/src/deep/z.js"]).with_manifest(
        "/p/node_modules/bar",
        object(vec![(
            "exports",
            object(vec![("./features/*", text("./src/*.js")), ("./*", text("./other/*"))]),
        )]),
    );
    let mut r = Resolver::new(ResolverOptions::default());
    let (path, _, _) = expect_file(run(&mut r, &t, "/p", "bar/features/deep/z"));
    assert_eq!(path, "/p/node_modules/bar/src/deep/z.js");
}

#[test]
fn exports_conditions_follow_the_order_of_the_map() {
    let t = tree(&["/p/node_modules/bar/esm.js", "/p/node_modules/bar/cjs.js"]).with_manifest(
        "/p/node_modules/bar",
        object(vec![(
            "exports",
            object(vec![(
                ".",
                object(vec![
                    ("require", text("./cjs.js")),
                    ("import", text("./esm.js")),
                    ("default", text("./none.js")),
                ]),
            )]),
        )]),
    );
    let mut options = ResolverOptions::default();
    options.conditions = vec!["import".to_string()];
    let mut r = Resolver::new(options);
    let (path, _, _) = expect_file(run(&mut r, &t, "/p", "bar"));
    assert_eq!(path, "/p/node_modules/bar/esm.js");
}

#[test]
fn exports_target_that_climbs_is_invalid() {
    let t = tree(&["/p/node_modules/bar/a.js", "/p/secret.js"]).with_manifest(
        "/p/node_modules/bar",
        object(vec![("exports", object(vec![("./x", text("./../../secret.js"))]))]),
    );
    let mut r = Resolver::new(ResolverOptions::default());
    let e = expect_error(run(&mut r, &t, "/p", "bar/x"));
    assert_eq!(e.kind, ErrorKind::InvalidSpecifier);
}

#[test]
fn alias_with_ignore_marker_ignores() {
    let mut options = ResolverOptions::default();
    options.alias = vec![("assert".to_string(), AliasMap::Ignored)];
    let mut r = Resolver::new(options);
    let t = tree(&["/p/a.js"]);
    assert!(matches!(run(&mut r, &t, "/p", "assert"), Ok(ResolverResult::Ignored)));
    assert!(matches!(run(&mut r, &t, "/p", "assert/strict"), Ok(ResolverResult::Ignored)));
}

#[test]
fn alias_key_needs_a_boundary() {
    let mut options = ResolverOptions::default();
    options.alias = vec![("assert".to_string(), AliasMap::Ignored)];
    let mut r = Resolver::new(options);
    let t = tree(&["/p/node_modules/assertion/index.js"]);
    let (path, _, _) = expect_file(run(&mut r, &t, "/p", "assertion"));
    assert_eq!(path, "/p/node_modules/assertion/index.js");
}

#[test]
fn alias_resolves_as_the_rewritten_request_does() {
    let t = tree(&["/p/src/lib/util.js", "/p/src/a.js"]);
    let mut options = ResolverOptions::default();
    options.alias = vec![("@lib".to_string(), AliasMap::Target("./lib".to_string()))];
    let mut aliased = Resolver::new(options);
    let (path, _, _) = expect_file(run(&mut aliased, &t, "/p/src", "@lib/util"));
    let mut plain = Resolver::new(ResolverOptions::default());
    let (direct, _, _) = expect_file(run(&mut plain, &t, "/p/src", "./lib/util"));
    assert_eq!(path, "/p/src/lib/util.js");
    assert_eq!(path, direct);
}

#[test]
fn internal_request_goes_through_the_imports_map() {
    let t = tree(&["/p/u.js", "/p/src/a.js"])
        .with_manifest("/p", object(vec![("imports", object(vec![("#util", text("./u.js"))]))]));
    let mut r = Resolver::new(ResolverOptions::default());
    let (path, _, _) = expect_file(run(&mut r, &t, "/p/src", "#util"));
    assert_eq!(path, "/p/u.js");
}

#[test]
fn query_and_fragment_come_back_beside_the_path() {
    let t = tree(&["/p/src/foo.js"]);
    let mut r = Resolver::new(ResolverOptions::default());
    let (path, query, fragment) = expect_file(run(&mut r, &t, "/p/src", "./foo.js?x=1#sec"));
    assert_eq!(path, "/p/src/foo.js");
    assert_eq!(query, "?x=1");
    assert_eq!(fragment, "#sec");
}

#[test]
fn nothing_found_is_not_found() {
    let t = tree(&["/p/src/a.js"]);
    let mut r = Resolver::new(ResolverOptions::default());
    let e = expect_error(run(&mut r, &t, "/p/src", "./missing"));
    assert_eq!(e.kind, ErrorKind::NotFound);
    assert_eq!(e.request, "./missing");
    assert_eq!(e.base, "/p/src");
    let e = expect_error(run(&mut r, &t, "/p/src", "nowhere"));
    assert_eq!(e.kind, ErrorKind::NotFound);
}

#[test]
fn unknown_path_is_asked_for() {
    let r = Resolver::new(ResolverOptions::default());
    let e = expect_error(r.resolve("/p/src", "./foo"));
    assert_eq!(e.kind, ErrorKind::EntryUnknown);
    assert_eq!(e.subject, "/p/src");
    let mut r = r;
    r.record_entry("/p/src", EntryKind::Directory);
    let e = expect_error(r.resolve("/p/src", "./foo"));
    assert_eq!(e.kind, ErrorKind::ManifestUnknown);
    assert_eq!(e.subject, "/p/src");
    assert!(r.record_manifest("/p/src", ManifestSlot::Absent));
    let e = expect_error(r.resolve("/p/src", "./foo"));
    assert_eq!(e.kind, ErrorKind::ManifestUnknown);
    assert_eq!(e.subject, "/p");
    assert!(r.record_manifest("/p", ManifestSlot::Absent));
    assert!(r.record_manifest("/", ManifestSlot::Absent));
    let e = expect_error(r.resolve("/p/src", "./foo"));
    assert_eq!(e.kind, ErrorKind::EntryUnknown);
    assert_eq!(e.subject, "/p/src/foo");
    r.record_entry("/p/src/foo", EntryKind::File);
    let (path, _, _) = expect_file(r.resolve("/p/src", "./foo"));
    assert_eq!(path, "/p/src/foo");
}

#[test]
fn failed_probe_is_an_io_error() {
    let t = tree(&["/p/src/a.js"]).with_unreadable("/p/src/locked");
    let mut r = Resolver::new(ResolverOptions::default());
    let e = expect_error(run(&mut r, &t, "/p/src", "./locked"));
    assert_eq!(e.kind, ErrorKind::Io);
    assert_eq!(e.subject, "/p/src/locked");
}

#[test]
fn broken_manifest_is_a_parse_error() {
    let t = tree(&["/p/src/a.js"]).with_broken_manifest("/p");
    let mut r = Resolver::new(ResolverOptions::default());
    let e = expect_error(run(&mut r, &t, "/p/src", "./a.js"));
    assert_eq!(e.kind, ErrorKind::ManifestParse);
    assert_eq!(e.subject, "/p");
}

#[test]
fn alias_that_feeds_itself_hits_the_limit() {
    let t = tree(&["/p/a.js"]);
    let mut options = ResolverOptions::default();
    options.alias = vec![("a".to_string(), AliasMap::Target("a/b".to_string()))];
    options.recursion_limit = 8;
    let mut r = Resolver::new(options);
    let e = expect_error(run(&mut r, &t, "/p", "a"));
    assert_eq!(e.kind, ErrorKind::RecursionLimit);
}

#[test]
fn resolving_twice_gives_the_same() {
    let t = tree(&["/p/node_modules/foo/index.js", "/p/src/a.js"]);
    let mut r = Resolver::new(ResolverOptions::default());
    let (first, _, _) = expect_file(run(&mut r, &t, "/p/src", "foo"));
    let (second, _, _) = expect_file(r.resolve("/p/src", "foo"));
    let (third, _, _) = expect_file(r.resolve("/p/src", "foo"));
    assert_eq!(first, second);
    assert_eq!(second, third);
}

#[test]
fn first_main_field_that_resolves_wins() {
    let t = tree(&["/p/node_modules/foo/lib/main.js", "/p/node_modules/foo/lib/module.js"])
        .with_manifest(
            "/p/node_modules/foo",
            object(vec![("main", text("lib/main.js")), ("module", text("./lib/module.js"))]),
        );
    let mut options = ResolverOptions::default();
    options.main_fields = vec!["module".to_string(), "main".to_string()];
    let mut r = Resolver::new(options);
    let (path, _, _) = expect_file(run(&mut r, &t, "/p", "foo"));
    assert_eq!(path, "/p/node_modules/foo/lib/module.js");
    let mut options = ResolverOptions::default();
    options.main_fields = vec!["main".to_string(), "module".to_string()];
    let mut r = Resolver::new(options);
    let (path, _, _) = expect_file(run(&mut r, &t, "/p", "foo"));
    assert_eq!(path, "/p/node_modules/foo/lib/main.js");
}

#[test]
fn main_field_that_finds_nothing_is_passed_over() {
    let t = tree(&["/p/node_modules/foo/lib/main.js"]).with_manifest(
        "/p/node_modules/foo",
        object(vec![("main", text("lib/main.js")), ("module", text("./lib/gone.js"))]),
    );
    let mut options = ResolverOptions::default();
    options.main_fields = vec!["module".to_string(), "main".to_string()];
    let mut r = Resolver::new(options);
    let (path, _, _) = expect_file(run(&mut r, &t, "/p", "foo"));
    assert_eq!(path, "/p/node_modules/foo/lib/main.js");
}

#[test]
fn main_field_that_points_at_the_directory_is_passed_over() {
    let t = tree(&["/p/node_modules/foo/index.js"])
        .with_manifest("/p/node_modules/foo", object(vec![("main", text("./"))]));
    let mut r = Resolver::new(ResolverOptions::default());
    let (path, _, _) = expect_file(run(&mut r, &t, "/p", "foo"));
    assert_eq!(path, "/p/node_modules/foo/index.js");
}

#[test]
fn modules_are_sought_up_the_directories() {
    let t = tree(&["/node_modules/top/index.js", "/p/q/src/a.js", "/p/node_modules/mid/index.js"]);
    let mut r = Resolver::new(ResolverOptions::default());
    let (path, _, _) = expect_file(run(&mut r, &t, "/p/q/src", "top"));
    assert_eq!(path, "/node_modules/top/index.js");
    let (path, _, _) = expect_file(run(&mut r, &t, "/p/q/src", "mid"));
    assert_eq!(path, "/p/node_modules/mid/index.js");
}

#[test]
fn scoped_module_keeps_its_scope() {
    let t = tree(&["/p/node_modules/@s/pkg/lib/x.js"]);
    let mut r = Resolver::new(ResolverOptions::default());
    let (path, _, _) = expect_file(run(&mut r, &t, "/p", "@s/pkg/lib/x"));
    assert_eq!(path, "/p/node_modules/@s/pkg/lib/x.js");
}

#[test]
fn file_in_the_modules_directory_is_found() {
    let t = tree(&["/p/node_modules/single.js", "/p/node_modules/other/index.js"]);
    let mut r = Resolver::new(ResolverOptions::default());
    let (path, _, _) = expect_file(run(&mut r, &t, "/p", "single"));
    assert_eq!(path, "/p/node_modules/single.js");
}

#[test]
fn package_reaches_itself_by_its_name() {
    let t = tree(&["/p/lib/x.js", "/p/node_modules/dep/index.js", "/p/src/a.js"]).with_manifest(
        "/p",
        object(vec![
            ("name", text("self")),
            ("exports", object(vec![("./x", text("./lib/x.js"))])),
        ]),
    );
    let mut r = Resolver::new(ResolverOptions::default());
    let (path, _, _) = expect_file(run(&mut r, &t, "/p", "self/x"));
    assert_eq!(path, "/p/lib/x.js");
}

#[test]
fn sibling_import_does_not_ask_the_own_exports() {
    let t = tree(&["/p/node_modules/dep/index.js", "/p/index.js"]).with_manifest(
        "/p",
        object(vec![
            ("name", text("self")),
            ("exports", object(vec![("./x", text("./lib/x.js"))])),
        ]),
    );
    let mut r = Resolver::new(ResolverOptions::default());
    let (path, _, _) = expect_file(run(&mut r, &t, "/p", "dep"));
    assert_eq!(path, "/p/node_modules/dep/index.js");
}

#[test]
fn alias_field_replaces_and_ignores() {
    let t = tree(&["/p/shims/fs.js", "/p/src/a.js"]).with_manifest(
        "/p",
        object(vec![(
            "browser",
            object(vec![("fs", text("./shims/fs.js")), ("net", Value::Bool(false))]),
        )]),
    );
    let mut r = Resolver::new(ResolverOptions::default());
    let (path, _, _) = expect_file(run(&mut r, &t, "/p/src", "fs"));
    assert_eq!(path, "/p/shims/fs.js");
    assert!(matches!(run(&mut r, &t, "/p/src", "net"), Ok(ResolverResult::Ignored)));
}

#[test]
fn prefer_relative_tries_the_name_as_a_path() {
    let t = tree(&["/p/src/foo.js", "/p/node_modules/foo/index.js", "/p/node_modules/bar/index.js"]);
    let mut options = ResolverOptions::default();
    options.prefer_relative = true;
    let mut r = Resolver::new(options);
    let (path, _, _) = expect_file(run(&mut r, &t, "/p/src", "foo"));
    assert_eq!(path, "/p/src/foo.js");
    let (path, _, _) = expect_file(run(&mut r, &t, "/p/src", "bar"));
    assert_eq!(path, "/p/node_modules/bar/index.js");
    let mut plain = Resolver::new(ResolverOptions::default());
    let (path, _, _) = expect_file(run(&mut plain, &t, "/p/src", "foo"));
    assert_eq!(path, "/p/node_modules/foo/index.js");
}

#[test]
fn enforced_extension_skips_the_bare_path() {
    let t = tree(&["/p/src/foo", "/p/src/foo.js"]);
    let mut options = options_with_extensions(&[".js"]);
    options.enforce_extension = EnforceExtension::Enabled;
    let mut r = Resolver::new(options);
    let (path, _, _) = expect_file(run(&mut r, &t, "/p/src", "./foo"));
    assert_eq!(path, "/p/src/foo.js");
    let mut r = Resolver::new(options_with_extensions(&[".js"]));
    let (path, _, _) = expect_file(run(&mut r, &t, "/p/src", "./foo"));
    assert_eq!(path, "/p/src/foo");
}

#[test]
fn empty_extension_enforces_and_stands_for_the_bare_path() {
    let r = Resolver::new(options_with_extensions(&[".js", ""]));
    assert_eq!(r.options.enforce_extension, EnforceExtension::Enabled);
    assert_eq!(r.options.extensions, vec!["js".to_string(), "".to_string()]);
    let t = tree(&["/p/src/foo"]);
    let mut r = r;
    let (path, _, _) = expect_file(run(&mut r, &t, "/p/src", "./foo"));
    assert_eq!(path, "/p/src/foo");
    let r = Resolver::new(options_with_extensions(&[".js", "ts"]));
    assert_eq!(r.options.enforce_extension, EnforceExtension::Disabled);
    assert_eq!(r.options.extensions, vec!["js".to_string(), "ts".to_string()]);
}

#[test]
fn relative_request_to_a_directory_takes_its_main_file() {
    let t = tree(&["/p/src/dir/index.js"]);
    let mut r = Resolver::new(ResolverOptions::default());
    let (path, _, _) = expect_file(run(&mut r, &t, "/p/src", "./dir"));
    assert_eq!(path, "/p/src/dir/index.js");
    let (path, _, _) = expect_file(run(&mut r, &t, "/p/src/dir", "../dir"));
    assert_eq!(path, "/p/src/dir/index.js");
}

#[test]
fn absolute_request_stands_for_itself() {
    let t = tree(&["/q/lib/x.js", "/p/src/a.js"]);
    let mut r = Resolver::new(ResolverOptions::default());
    let (path, _, _) = expect_file(run(&mut r, &t, "/p/src", "/q/lib/x"));
    assert_eq!(path, "/q/lib/x.js");
}

#[test]
fn base_is_normalised() {
    let t = tree(&["/p/src/foo.js"]);
    let mut r = Resolver::new(ResolverOptions::default());
    let (path, _, _) = expect_file(run(&mut r, &t, "/p/./lib/../src/", "./foo"));
    assert_eq!(path, "/p/src/foo.js");
}

#[test]
fn path_mapping_leads_the_name_of_a_module() {
    let t = tree(&["/p/src/shared/util.js", "/p/src/app/a.js", "/p/node_modules/dep/index.js"])
        .with_config(
            "/p/tsconfig.json",
            object(vec![(
                "compilerOptions",
                object(vec![
                    ("baseUrl", text("./src")),
                    (
                        "paths",
                        object(vec![(
                            "@shared/*",
                            Value::List(vec![text("gone/*"), text("shared/*")]),
                        )]),
                    ),
                ]),
            )]),
        );
    let mut options = ResolverOptions::default();
    options.tsconfig = Some("/p/tsconfig.json".to_string());
    let mut r = Resolver::new(options);
    let (path, _, _) = expect_file(run(&mut r, &t, "/p/src/app", "@shared/util"));
    assert_eq!(path, "/p/src/shared/util.js");
    let (path, _, _) = expect_file(run(&mut r, &t, "/p/src/app", "dep"));
    assert_eq!(path, "/p/node_modules/dep/index.js");
}

#[test]
fn manifest_of_another_directory_is_not_recorded() {
    let mut r = Resolver::new(ResolverOptions::default());
    let slot = ManifestSlot::Present(Arc::new(DescriptionData::new(
        "/q".to_string(),
        Value::Object(Vec::new()),
    )));
    assert!(!r.record_manifest("/p", slot));
    r.record_entry("/p", EntryKind::Directory);
    let e = expect_error(r.resolve("/p", "./a"));
    assert_eq!(e.kind, ErrorKind::ManifestUnknown);
    assert_eq!(e.subject, "/p");
}

#[test]
fn later_record_replaces_the_earlier() {
    let mut r = Resolver::new(ResolverOptions::default());
    r.record_manifest("/p", ManifestSlot::Absent);
    r.record_manifest("/", ManifestSlot::Absent);
    r.record_entry("/p", EntryKind::Directory);
    r.record_entry("/p/a", EntryKind::Missing);
    r.record_entry("/p/a.js", EntryKind::Missing);
    r.record_entry("/p/a.json", EntryKind::Missing);
    r.record_entry("/p/a.node", EntryKind::Missing);
    let e = expect_error(r.resolve("/p", "./a"));
    assert_eq!(e.kind, ErrorKind::NotFound);
    r.record_entry("/p/a.json", EntryKind::File);
    let (path, _, _) = expect_file(r.resolve("/p", "./a"));
    assert_eq!(path, "/p/a.json");
}

#[test]
fn answer_stands_when_more_is_known() {
    let t = tree(&["/p/node_modules/foo/index.js", "/p/src/a.js", "/p/src/b.js"]);
    let mut r = Resolver::new(ResolverOptions::default());
    let (first, _, _) = expect_file(run(&mut r, &t, "/p/src", "foo"));
    let gone = expect_error(run(&mut r, &t, "/p/src", "./gone"));
    assert_eq!(gone.kind, ErrorKind::NotFound);
    let (_, _, _) = expect_file(run(&mut r, &t, "/p/src", "./b"));
    r.record_entry("/elsewhere", EntryKind::Directory);
    r.record_manifest("/elsewhere", ManifestSlot::Absent);
    let (again, _, _) = expect_file(r.resolve("/p/src", "foo"));
    assert_eq!(first, again);
    let still = expect_error(r.resolve("/p/src", "./gone"));
    assert_eq!(still.kind, ErrorKind::NotFound);
    assert_eq!(still.subject, gone.subject);
}

#[test]
fn error_says_what_was_asked_and_where() {
    let t = tree(&["/p/src/a.js"]);
    let mut r = Resolver::new(ResolverOptions::default());
    let e = expect_error(run(&mut r, &t, "/p/src", "./missing"));
    assert_eq!(e.message(), "NotFound: ./missing (request './missing' in '/p/src')");
    assert!(!e.is_question());
    let e = expect_error(Resolver::default().resolve("/p/src", "./missing"));
    assert_eq!(e.message(), "EntryUnknown: /p/src (request './missing' in '/p/src')");
    assert!(e.is_question());
}

#[test]
fn handed_over_manifest_cache_is_used() {
    let mut cache = nodejs_resolver::ResolverUnsafeCache::new();
    assert!(cache.insert("/p", ManifestSlot::Absent));
    assert!(cache.insert("/", ManifestSlot::Absent));
    let handle = Arc::new(cache);
    let mut options = ResolverOptions::default();
    options.unsafe_cache = Some(handle.clone());
    options.alias = vec![("x".to_string(), AliasMap::Target("./a".to_string()))];
    options.conditions = vec!["import".to_string()];
    let mut r = Resolver::new(options);
    let kept = r.options.unsafe_cache.as_ref().expect("the options keep their handle");
    assert!(Arc::ptr_eq(kept, &handle));
    let held = r.unsafe_cache.as_ref().expect("the resolver holds a cache");
    assert!(Arc::ptr_eq(held, &handle));
    assert_eq!(r.options.alias.len(), 1);
    assert_eq!(r.options.conditions, vec!["import".to_string()]);
    assert_eq!(r.options.main_fields, vec!["main".to_string()]);
    assert_eq!(r.options.recursion_limit, 1024);
    r.record_entry("/p", EntryKind::Directory);
    r.record_entry("/p/a", EntryKind::File);
    let (path, _, _) = expect_file(r.resolve("/p", "./a"));
    assert_eq!(path, "/p/a");
    assert!(!r.record_manifest("/q", ManifestSlot::Absent));
    drop(handle);
    assert!(r.record_manifest("/q", ManifestSlot::Absent));
    let kept = r.options.unsafe_cache.as_ref().expect("the options keep a handle");
    assert!(Arc::ptr_eq(kept, r.unsafe_cache.as_ref().unwrap()));
    assert!(matches!(r.manifest_slot("/q"), Some(ManifestSlot::Absent)));
    assert!(r.manifest_slot("/r").is_none());
}

#[test]
fn resolver_without_a_handle_gets_a_cache_of_its_own() {
    let mut r = Resolver::new(ResolverOptions::default());
    assert!(r.options.unsafe_cache.is_none());
    assert!(r.unsafe_cache.is_some());
    assert!(r.manifest_slot("/p").is_none());
    assert!(r.record_manifest("/p", ManifestSlot::Absent));
    assert!(r.options.unsafe_cache.is_none());
    assert!(matches!(r.manifest_slot("/p"), Some(ManifestSlot::Absent)));
    r.unsafe_cache = None;
    assert!(r.manifest_slot("/p").is_none());
    let e = expect_error(r.resolve("/p", "./a"));
    assert_eq!(e.kind, ErrorKind::EntryUnknown);
    assert!(r.record_manifest("/p", ManifestSlot::Absent));
    assert!(r.unsafe_cache.is_some());
}

#[test]
fn manifest_that_cannot_be_read_is_an_io_error() {
    let mut r = Resolver::new(ResolverOptions::default());
    r.record_entry("/p/src", EntryKind::Directory);
    assert!(r.record_manifest("/p/src", ManifestSlot::Absent));
    assert!(r.record_manifest("/p", ManifestSlot::Unreadable));
    let e = expect_error(r.resolve("/p/src", "./a"));
    assert_eq!(e.kind, ErrorKind::Io);
    assert_eq!(e.subject, "/p");
    let mut options = ResolverOptions::default();
    options.tsconfig = Some("/p/tsconfig.json".to_string());
    let mut r = Resolver::new(options);
    assert!(r.record_manifest("/p/tsconfig.json", ManifestSlot::Unreadable));
    let e = expect_error(r.resolve("/p/src", "foo"));
    assert_eq!(e.kind, ErrorKind::Io);
    assert_eq!(e.subject, "/p/tsconfig.json");
}

#[test]
fn resolved_path_is_absolute_and_a_file() {
    let t = tree(&[
        "/p/node_modules/foo/index.js",
        "/p/node_modules/bar/lib/x.js",
        "/p/src/a.js",
        "/p/src/dir/index.json",
    ])
    .with_manifest(
        "/p/node_modules/bar",
        object(vec![("main", text("lib/x"))]),
    );
    let mut r = Resolver::new(ResolverOptions::default());
    for (base, request) in [
        ("/p/src", "foo"),
        ("/p/src", "bar"),
        ("/p/src", "./a"),
        ("/p/src", "./dir"),
        ("/p/src/dir", ".././a.js?q"),
        ("/p", "/p/src/a"),
    ] {
        let (path, _, _) = expect_file(run(&mut r, &t, base, request));
        assert!(path.starts_with('/'), "{}", path);
        assert_eq!(t.kind(&path), EntryKind::File, "{}", path);
    }
}

#[test]
fn imports_may_name_a_module() {
    let t = tree(&["/p/node_modules/dep/index.js", "/p/src/a.js"])
        .with_manifest("/p", object(vec![("imports", object(vec![("#dep", text("dep"))]))]));
    let mut r = Resolver::new(ResolverOptions::default());
    let (path, _, _) = expect_file(run(&mut r, &t, "/p/src", "#dep"));
    assert_eq!(path, "/p/node_modules/dep/index.js");
    let e = expect_error(run(&mut r, &t, "/p/src", "#none"));
    assert_eq!(e.kind, ErrorKind::PackagePathNotExported);
    assert_eq!(e.subject, "#none");
}

#[test]
fn imports_pattern_and_conditions() {
    let t = tree(&["/p/lib/node/x.js", "/p/lib/web/x.js", "/p/src/a.js"]).with_manifest(
        "/p",
        object(vec![(
            "imports",
            object(vec![(
                "#lib/*",
                object(vec![("browser", text("./lib/web/*.js")), ("default", text("./lib/node/*.js"))]),
            )]),
        )]),
    );
    let mut r = Resolver::new(ResolverOptions::default());
    let (path, _, _) = expect_file(run(&mut r, &t, "/p/src", "#lib/x"));
    assert_eq!(path, "/p/lib/node/x.js");
    let mut options = ResolverOptions::default();
    options.conditions = vec!["browser".to_string()];
    let mut r = Resolver::new(options);
    let (path, _, _) = expect_file(run(&mut r, &t, "/p/src", "#lib/x"));
    assert_eq!(path, "/p/lib/web/x.js");
}

#[test]
fn alias_field_maps_a_relative_path() {
    let t = tree(&["/p/lib/a.js", "/p/lib/a.browser.js"]).with_manifest(
        "/p",
        object(vec![("browser", object(vec![("./lib/a.js", text("./lib/a.browser.js"))]))]),
    );
    let mut r = Resolver::new(ResolverOptions::default());
    let (path, _, _) = expect_file(run(&mut r, &t, "/p", "./lib/a.js"));
    assert_eq!(path, "/p/lib/a.browser.js");
    let mut options = ResolverOptions::default();
    options.alias_fields = Vec::new();
    let mut r = Resolver::new(options);
    let (path, _, _) = expect_file(run(&mut r, &t, "/p", "./lib/a.js"));
    assert_eq!(path, "/p/lib/a.js");
}

#[test]
fn dependency_directories_are_tried_in_order() {
    let t = tree(&["/p/web_modules/foo/index.js", "/p/node_modules/foo/index.js", "/p/node_modules/bar/index.js"]);
    let mut options = ResolverOptions::default();
    options.modules = vec!["web_modules".to_string(), "node_modules".to_string()];
    let mut r = Resolver::new(options);
    let (path, _, _) = expect_file(run(&mut r, &t, "/p", "foo"));
    assert_eq!(path, "/p/web_modules/foo/index.js");
    let (path, _, _) = expect_file(run(&mut r, &t, "/p", "bar"));
    assert_eq!(path, "/p/node_modules/bar/index.js");
}

#[test]
fn path_mapping_without_a_star_and_without_a_hit() {
    let t = tree(&["/p/src/vendor/jq.js", "/p/node_modules/lodash/index.js", "/p/src/a.js"])
        .with_config(
            "/p/tsconfig.json",
            object(vec![(
                "compilerOptions",
                object(vec![(
                    "paths",
                    object(vec![
                        ("jquery", Value::List(vec![text("src/vendor/jq")])),
                        ("lodash", Value::List(vec![text("src/vendor/none")])),
                    ]),
                )]),
            )]),
        );
    let mut options = ResolverOptions::default();
    options.tsconfig = Some("/p/tsconfig.json".to_string());
    let mut r = Resolver::new(options);
    let (path, _, _) = expect_file(run(&mut r, &t, "/p/src", "jquery"));
    assert_eq!(path, "/p/src/vendor/jq.js");
    let (path, _, _) = expect_file(run(&mut r, &t, "/p/src", "lodash"));
    assert_eq!(path, "/p/node_modules/lodash/index.js");
    let (path, _, _) = expect_file(run(&mut r, &t, "/p/src", "./a"));
    assert_eq!(path, "/p/src/a.js");
}

#[test]
fn request_from_a_directory_that_is_not_there() {
    let t = tree(&["/p/node_modules/foo/index.js"]);
    let mut r = Resolver::new(ResolverOptions::default());
    let (path, _, _) = expect_file(run(&mut r, &t, "/p/gone/deeper", "foo"));
    assert_eq!(path, "/p/node_modules/foo/index.js");
    let e = expect_error(run(&mut r, &t, "/", "bar"));
    assert_eq!(e.kind, ErrorKind::NotFound);
}

#[test]
fn entry_comes_with_the_nearest_manifest() {
    let t = tree(&["/p/src/a.js"]).with_manifest("/p", object(vec![("name", text("pkg"))]));
    let mut r = Resolver::new(ResolverOptions::default());
    let _ = run(&mut r, &t, "/p/src", "./a.js");
    let entry = r.load_entry("/p/src/a.js");
    let entry = match entry {
        Ok(e) => e,
        Err(f) => panic!("{:?}", f),
    };
    assert!(entry.is_file());
    assert!(!entry.is_dir());
    assert_eq!(entry.pkg_info.as_ref().map(|p| p.dir.clone()), Some("/p".to_string()));
    let f = match r.load_entry("/not/seen") {
        Ok(_) => panic!("known"),
        Err(f) => f,
    };
    assert_eq!(f.kind, ErrorKind::EntryUnknown);
    assert_eq!(f.subject, "/not/seen");
}

#[test]
fn default_limit_stops_a_loop() {
    let t = tree(&["/p/a.js"]);
    let mut options = ResolverOptions::default();
    options.alias = vec![("a".to_string(), AliasMap::Target("a/b".to_string()))];
    let mut r = Resolver::new(options);
    let e = expect_error(run(&mut r, &t, "/p", "a"));
    assert_eq!(e.kind, ErrorKind::RecursionLimit);
}

#[test]
fn existing_extension_stays_when_another_is_tried() {
    let t = tree(&["/p/src/a.min.js", "/p/src/a.js"]);
    let mut r = Resolver::new(options_with_extensions(&[".js"]));
    let (path, _, _) = expect_file(run(&mut r, &t, "/p/src", "./a.min"));
    assert_eq!(path, "/p/src/a.min.js");
}

#[test]
fn relative_config_location_is_read_from_the_base() {
    let t = tree(&["/p/src/shared/util.js", "/p/src/app/a.js"]).with_config(
        "/p/tsconfig.json",
        object(vec![(
            "compilerOptions",
            object(vec![
                ("baseUrl", text("./src")),
                ("paths", object(vec![("@shared/*", Value::List(vec![text("shared/*")]))])),
            ]),
        )]),
    );
    let mut options = ResolverOptions::default();
    options.tsconfig = Some("../../tsconfig.json".to_string());
    let mut r = Resolver::new(options);
    let (path, _, _) = expect_file(run(&mut r, &t, "/p/src/app", "@shared/util"));
    assert_eq!(path, "/p/src/shared/util.js");
    assert!(path.starts_with('/'));
}

#[test]
fn resolved_path_has_no_dot_segments() {
    let t = tree(&["/p/src/b/c.js", "/p/src/a/x.js", "/p/y.js"]);
    let mut r = Resolver::new(options_with_extensions(&[".js", "/../../y.js"]));
    let (path, query, fragment) = expect_file(run(&mut r, &t, "/p/src", "./a/../b/./c.js?q#f"));
    assert_eq!(path, "/p/src/b/c.js");
    assert_eq!(query, "?q");
    assert_eq!(fragment, "#f");
    let (path, _, _) = expect_file(run(&mut r, &t, "/p/src/./a/..", "./a/../b/./c"));
    assert_eq!(path, "/p/src/b/c.js");
    let (path, _, _) = expect_file(run(&mut r, &t, "/p/src", "./gone"));
    assert_eq!(path, "/p/y.js");
    for part in path.split('/') {
        assert!(part != "." && part != "..");
    }
}

#[test]
fn nothing_is_ignored_without_a_marker() {
    let t = tree(&["/p/node_modules/foo/index.js", "/p/src/a.js"])
        .with_manifest("/p", object(vec![("browser", object(vec![("fs", text("./src/a.js"))]))]));
    let mut options = ResolverOptions::default();
    options.alias = vec![("@a".to_string(), AliasMap::Target("./a".to_string()))];
    let mut r = Resolver::new(options);
    for request in ["foo", "fs", "@a", "./a", "net", "./gone", "#x"] {
        assert!(!matches!(run(&mut r, &t, "/p/src", request), Ok(ResolverResult::Ignored)));
    }
}

#[test]
fn two_orders_of_main_fields_agree_where_one_resolves() {
    let t = tree(&["/p/node_modules/foo/lib/main.js"]).with_manifest(
        "/p/node_modules/foo",
        object(vec![("main", text("lib/main.js")), ("module", text("./lib/gone.js"))]),
    );
    let mut paths = Vec::new();
    for order in [["main", "module"], ["module", "main"]] {
        let mut options = ResolverOptions::default();
        options.main_fields = order.iter().map(|f| f.to_string()).collect();
        let mut r = Resolver::new(options);
        let (path, _, _) = expect_file(run(&mut r, &t, "/p", "foo"));
        paths.push(path);
    }
    assert_eq!(paths[0], "/p/node_modules/foo/lib/main.js");
    assert_eq!(paths[0], paths[1]);
}

#[test]
fn shared_manifest_cache_serves_every_resolver_that_holds_it() {
    let mut cache = nodejs_resolver::ResolverUnsafeCache::new();
    assert!(cache.insert(
        "/p",
        ManifestSlot::Present(Arc::new(DescriptionData::new(
            "/p".to_string(),
            object(vec![("imports", object(vec![("#u", text("./u.js"))]))]),
        ))),
    ));
    let shared = Arc::new(cache);
    let mut resolvers = Vec::new();
    for _ in 0..2 {
        let mut options = ResolverOptions::default();
        options.unsafe_cache = Some(shared.clone());
        let mut r = Resolver::new(options);
        r.record_entry("/p", EntryKind::Directory);
        r.record_entry("/p/u.js", EntryKind::File);
        resolvers.push(r);
    }
    for r in &resolvers {
        let (path, _, _) = expect_file(r.resolve("/p", "#u"));
        assert_eq!(path, "/p/u.js");
    }
    assert!(!resolvers[0].record_manifest("/q", ManifestSlot::Absent));
    let last = resolvers.pop();
    drop(resolvers);
    drop(shared);
    let mut last = last.unwrap();
    assert!(last.record_manifest("/q", ManifestSlot::Absent));
}
