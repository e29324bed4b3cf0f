use nodejs_resolver::map::resolve_subpath;
use nodejs_resolver::path::{append_ext, join_path, normalize_path, parent, suffix_of, with_ext};
use nodejs_resolver::text::{chars_of, text_of};
use nodejs_resolver::{
    get_module_name_from_request, is_resolve_self, parse, DescriptionData, ErrorKind, Fault,
    MainFieldPlugin, PathKind, Resolver, ResolverInfo, ResolverOptions, ResolverResult,
    ResolverStats, Value,
};
use smol_str::SmolStr;

#[test]
fn test_get_module_name_from_request() {
    assert_eq!(get_module_name_from_request(&s("a")), s("a"));
    assert_eq!(get_module_name_from_request(&s("a/b")), s("a"));
    assert_eq!(get_module_name_from_request(&s("@a")), s("@a"));
    assert_eq!(get_module_name_from_request(&s("@a/b")), s("@a/b"));
    assert_eq!(get_module_name_from_request(&s("@a/b/c")), s("@a/b"));
    fn s(s: &str) -> SmolStr {
        SmolStr::new(s)
    }
}

fn parts(raw: &str) -> (String, String, String, PathKind) {
    let r = parse(raw);
    (r.target.to_string(), r.query, r.fragment, r.kind)
}

fn own(t: &str, q: &str, f: &str, k: PathKind) -> (String, String, String, PathKind) {
    (t.to_string(), q.to_string(), f.to_string(), k)
}

#[test]
fn parse_splits_target_query_and_fragment() {
    assert_eq!(parts("./a.js?x=1#sec"), own("./a.js", "?x=1", "#sec", PathKind::Relative));
    assert_eq!(parts("a#b?c"), own("a", "", "#b?c", PathKind::Normal));
    assert_eq!(parts("a?b?c#d#e"), own("a", "?b?c", "#d#e", PathKind::Normal));
    assert_eq!(parts(""), own("", "", "", PathKind::Empty));
    assert_eq!(parts("?q"), own("", "?q", "", PathKind::Empty));
    assert_eq!(parts("#util"), own("#util", "", "", PathKind::Internal));
    assert_eq!(parts("#util#f"), own("#util", "", "#f", PathKind::Internal));
}

#[test]
fn parse_leaves_escaped_marks_in_the_target() {
    assert_eq!(parts("a\\?b?c"), own("a\\?b", "?c", "", PathKind::Normal));
    assert_eq!(parts("a\\#b#c"), own("a\\#b", "", "#c", PathKind::Normal));
    assert_eq!(parts("a\\\\?b"), own("a\\\\", "?b", "", PathKind::Normal));
}

#[test]
fn parse_round_trips() {
    for raw in ["./a.js?x=1#sec", "#a#b", "a\\?b?c#d", "C:\\x\\y?z", "", "??##", "@s/p/q.js#"] {
        let r = parse(raw);
        assert_eq!(format!("{}{}{}", r.target, r.query, r.fragment), raw);
    }
}

#[test]
fn parse_tells_the_kinds_apart() {
    assert_eq!(parse("./a").kind, PathKind::Relative);
    assert_eq!(parse("../a").kind, PathKind::Relative);
    assert_eq!(parse("/a").kind, PathKind::AbsolutePosix);
    assert_eq!(parse("C:\\a").kind, PathKind::AbsoluteWin);
    assert_eq!(parse("c:/a").kind, PathKind::AbsoluteWin);
    assert_eq!(parse("\\\\host\\share").kind, PathKind::AbsoluteWin);
    assert_eq!(parse("#a").kind, PathKind::Internal);
    assert_eq!(parse("data:text/plain,x").kind, PathKind::BuildInUri);
    assert_eq!(parse("http://x/y").kind, PathKind::BuildInUri);
    assert_eq!(parse("a").kind, PathKind::Normal);
    assert_eq!(parse("@s/a").kind, PathKind::Normal);
    assert_eq!(parse(".a").kind, PathKind::Normal);
    assert_eq!(parse("C:a").kind, PathKind::Normal);
}

#[test]
fn with_target_takes_the_kind_anew() {
    let r = parse("a?q#f").with_target("./b");
    assert_eq!(r.target.as_str(), "./b");
    assert_eq!(r.kind, PathKind::Relative);
    assert_eq!(r.query, "?q");
    assert_eq!(r.fragment, "#f");
}

#[test]
fn paths_are_normalised_lexically() {
    assert_eq!(normalize_path("/a/./b/../c//d/"), "/a/c/d");
    assert_eq!(normalize_path("/.."), "/");
    assert_eq!(normalize_path("/"), "/");
    assert_eq!(normalize_path("a/../../b"), "b");
    assert_eq!(normalize_path(""), "");
    assert_eq!(normalize_path("/a/..."), "/a/...");
}

#[test]
fn join_reads_the_target_from_the_base() {
    assert_eq!(join_path("/p/src", "./foo"), "/p/src/foo");
    assert_eq!(join_path("/p/src", "../foo"), "/p/foo");
    assert_eq!(join_path("/p/src", "/q/x"), "/q/x");
    assert_eq!(join_path("/p/src", "node_modules"), "/p/src/node_modules");
    assert_eq!(join_path("/", "a"), "/a");
    assert_eq!(join_path("/p", "."), "/p");
}

#[test]
fn parent_is_what_stands_before_the_last_slash() {
    assert_eq!(parent("/p/src"), Some("/p".to_string()));
    assert_eq!(parent("/p"), Some("/".to_string()));
    assert_eq!(parent("/"), None);
    assert_eq!(parent("p"), None);
}

#[test]
fn extension_is_appended_as_it_is_written() {
    assert_eq!(append_ext("/p/a", ".js"), "/p/a.js");
    assert_eq!(append_ext("/p/a.min", ".js"), "/p/a.min.js");
    assert_eq!(append_ext("/p/a", "js"), "/p/ajs");
    assert_eq!(append_ext("/p/a", ""), "/p/a");
    assert_eq!(Resolver::append_ext_for_path("/p/a.min", ".js"), "/p/a.min.js");
    assert_eq!(Resolver::append_ext_for_path("/p/a", ""), "/p/a");
}

#[test]
fn stored_extension_stands_for_a_suffix() {
    assert_eq!(suffix_of("js"), ".js");
    assert_eq!(suffix_of("d.ts"), ".d.ts");
    assert_eq!(suffix_of(""), "");
    assert_eq!(with_ext("/p/a", "js"), "/p/a.js");
    assert_eq!(with_ext("/p/a.min", "js"), "/p/a.min.js");
    assert_eq!(with_ext("/p/a", ""), "/p/a");
    assert_eq!(with_ext("/p/a", "x/../y"), "/p/y");
    assert_eq!(with_ext("/", "."), "/");
}

#[test]
fn manifest_file_is_the_config_or_the_package_file() {
    let mut options = ResolverOptions::default();
    options.tsconfig = Some("../tsconfig.json".to_string());
    let r = Resolver::new(options);
    assert_eq!(r.manifest_file("/p/src", "/p/tsconfig.json"), "/p/tsconfig.json");
    assert_eq!(r.manifest_file("/p/src", "/p"), "/p/package.json");
    assert_eq!(r.manifest_file("/p/src", "/"), "/package.json");
    let r = Resolver::default();
    assert_eq!(r.manifest_file("/p/src", "/p/tsconfig.json"), "/p/tsconfig.json/package.json");
    assert!(r.input_path.is_none());
    assert!(r.input_request.is_none());
}

#[test]
fn text_goes_to_characters_and_back() {
    let v = chars_of("héllo/wörld");
    assert_eq!(v.len(), 11);
    assert_eq!(text_of(&v), "héllo/wörld");
}

fn object(members: Vec<(&str, Value)>) -> Value {
    Value::Object(members.into_iter().map(|(k, v)| (k.to_string(), v)).collect())
}

fn text(s: &str) -> Value {
    Value::Text(s.to_string())
}

#[test]
fn subpath_prefers_the_exact_member() {
    let map = object(vec![("./*", text("./any/*")), ("./x", text("./exact.js"))]);
    assert_eq!(resolve_subpath(&map, "./x", &Vec::new(), true), Ok("./exact.js".to_string()));
    assert_eq!(resolve_subpath(&map, "./y", &Vec::new(), true), Ok("./any/y".to_string()));
}

#[test]
fn subpath_takes_the_longest_prefix_then_the_longest_suffix() {
    let first = object(vec![
        ("./a/*", text("./short/*")),
        ("./a/b/*", text("./long/*")),
        ("./a/b/*.js", text("./longer/*")),
    ]);
    let second = object(vec![
        ("./a/b/*.js", text("./longer/*")),
        ("./a/b/*", text("./long/*")),
        ("./a/*", text("./short/*")),
    ]);
    for map in [first, second] {
        assert_eq!(
            resolve_subpath(&map, "./a/b/c.js", &Vec::new(), true),
            Ok("./longer/c".to_string())
        );
        assert_eq!(
            resolve_subpath(&map, "./a/b/c.ts", &Vec::new(), true),
            Ok("./long/c.ts".to_string())
        );
        assert_eq!(
            resolve_subpath(&map, "./a/c", &Vec::new(), true),
            Ok("./short/c".to_string())
        );
        assert_eq!(
            resolve_subpath(&map, "./b", &Vec::new(), true),
            Err(ErrorKind::PackagePathNotExported)
        );
    }
}

#[test]
fn subpath_values_are_checked_and_chosen() {
    let conditions = vec!["node".to_string()];
    let map = object(vec![
        ("./bare", text("lib/x.js")),
        ("./up", text("./a/../../x.js")),
        ("./null", Value::Null),
        ("./list", Value::List(vec![text("bad"), Value::Null, text("./good.js"), text("./late.js")])),
        ("./none", Value::List(vec![])),
        ("./cond", object(vec![("browser", text("./b.js")), ("node", text("./n.js"))])),
        ("./default", object(vec![("browser", text("./b.js")), ("default", text("./d.js"))])),
        ("./nocond", object(vec![("browser", text("./b.js"))])),
        ("./many/*", text("./*/x/*.js")),
    ]);
    let ask = |k: &str, exports: bool| resolve_subpath(&map, k, &conditions, exports);
    assert_eq!(ask("./bare", true), Err(ErrorKind::PackagePathNotExported));
    assert_eq!(ask("./bare", false), Ok("lib/x.js".to_string()));
    assert_eq!(ask("./up", true), Err(ErrorKind::InvalidSpecifier));
    assert_eq!(ask("./null", true), Err(ErrorKind::PackagePathNotExported));
    assert_eq!(ask("./list", true), Ok("./good.js".to_string()));
    assert_eq!(ask("./none", true), Err(ErrorKind::PackagePathNotExported));
    assert_eq!(ask("./cond", true), Ok("./n.js".to_string()));
    assert_eq!(ask("./default", true), Ok("./d.js".to_string()));
    assert_eq!(ask("./nocond", true), Err(ErrorKind::PackagePathNotExported));
    assert_eq!(ask("./many/q", true), Ok("./q/x/q.js".to_string()));
}

#[test]
fn info_denotes_a_path() {
    let info = ResolverInfo::from("/p/src".to_string(), parse("./a/../b.js?q#f"));
    assert_eq!(info.get_path(), "/p/src/b.js");
    assert_eq!(info.join(), "/p/src/b.js?q#f");
    let info = info.with_path("/q".to_string());
    assert_eq!(info.path, "/q");
    assert_eq!(info.get_path(), "/q/b.js");
    let info = info.with_target("");
    assert_eq!(info.get_path(), "/q");
    assert_eq!(info.join(), "/q?q#f");
    assert_eq!(info.request.kind, PathKind::Empty);
}

#[test]
fn stats_go_on_only_while_resolving() {
    let info = || ResolverInfo::from("/p".to_string(), parse("a"));
    let r = ResolverStats::Resolving(info()).and_then(|i| ResolverStats::Failed(i.with_target("b")));
    assert!(matches!(&r, ResolverStats::Failed(i) if i.request.target.as_str() == "b"));
    assert!(!r.is_success());
    assert!(!r.is_finished());
    assert_eq!(r.extract_info().path, "/p");
    let r = ResolverStats::Success(ResolverResult::Ignored).and_then(|i| ResolverStats::Failed(i));
    assert!(r.is_success());
    assert!(r.is_finished());
    let r = ResolverStats::Error(Fault::new(ErrorKind::Io, "/x")).and_then(|i| ResolverStats::Failed(i));
    assert!(matches!(&r, ResolverStats::Error(f) if f.kind == ErrorKind::Io && f.subject == "/x"));
    assert_eq!(ResolverStats::Resolving(info()).extract_info().request.target.as_str(), "a");
}

#[test]
fn manifest_members_are_found_by_name() {
    let json = object(vec![("name", text("pkg")), ("main", Value::Number), ("name", text("late"))]);
    let d = DescriptionData::new("/p".to_string(), json);
    assert_eq!(d.name(), Some(&"pkg".to_string()));
    assert!(d.json.get("main").is_some());
    assert!(d.json.get_text("main").is_none());
    assert!(d.json.get("none").is_none());
    assert!(is_resolve_self(&d, &SmolStr::new("pkg")));
    assert!(!is_resolve_self(&d, &SmolStr::new("late")));
    let plugin = MainFieldPlugin::new(&d);
    assert_eq!(plugin.pkg_info.dir, "/p");
}

#[test]
fn default_options_are_the_usual_ones() {
    let o = ResolverOptions::default();
    assert_eq!(o.extensions, vec![".js".to_string(), ".json".to_string(), ".node".to_string()]);
    assert_eq!(o.main_fields, vec!["main".to_string()]);
    assert_eq!(o.main_files, vec!["index".to_string()]);
    assert_eq!(o.modules, vec!["node_modules".to_string()]);
    assert_eq!(o.alias_fields, vec!["browser".to_string()]);
    assert_eq!(o.exports_field, "exports");
    assert_eq!(o.imports_field, "imports");
    assert_eq!(o.recursion_limit, 1024);
    assert!(!o.prefer_relative);
    assert!(o.tsconfig.is_none());
}
