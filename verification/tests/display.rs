use cargo_features::cargo_features::{parse_manifest, CargoFeatures};
use cargo_features::export_info::{Child, ExportInfo, Feature, Optional, Package};
use cargo_features::graph::{
    DeclaredFeature, DepInfo, EdgeKind, GraphPackage, PackageVer, ResolvedGraph,
};
use cargo_features::names::clean_feature_name;
use cargo_features::print::{pretty_print, Span, Style};

fn strings(v: &[&str]) -> Vec<String> {
    v.iter().map(|s| s.to_string()).collect()
}

fn plain_package(name: &str, version: &str) -> Package {
    Package {
        name: name.to_string(),
        version: version.to_string(),
        optional: false,
        active: true,
        globally_active: true,
        features: Vec::new(),
        optionals: Vec::new(),
    }
}

fn text_of(spans: &[Span]) -> String {
    let mut out = String::new();
    for span in spans {
        out.push_str(&span.text);
    }
    out
}

#[test]
fn cleaning_strips_marker_and_qualifiers() {
    assert_eq!(clean_feature_name("dep:foo"), "foo");
    assert_eq!(clean_feature_name("serde?/std"), "serde");
    assert_eq!(clean_feature_name("tokio/fs"), "tokio");
    assert_eq!(clean_feature_name("plain"), "plain");
    assert_eq!(clean_feature_name(""), "");
    assert_eq!(clean_feature_name("dep:a?b"), "a");
}

#[test]
fn cleaning_is_deterministic() {
    let first = clean_feature_name("dep:openssl?/vendored");
    let second = clean_feature_name("dep:openssl?/vendored");
    assert_eq!(first, second);
    assert_eq!(first, "openssl");
}

#[test]
fn package_ver_parses_name_and_version() {
    let bare = PackageVer::from("foo".to_string());
    assert_eq!(bare, PackageVer { name: "foo".to_string(), version: None });
    let versioned = PackageVer::from("foo@1.2.3".to_string());
    assert_eq!(
        versioned,
        PackageVer { name: "foo".to_string(), version: Some("1.2.3".to_string()) }
    );
    let extra = PackageVer::from("a@1@2".to_string());
    assert_eq!(extra, PackageVer { name: "a".to_string(), version: Some("1".to_string()) });
}

#[test]
fn manifest_fields_are_extracted() {
    let manifest = "[package]\nname = \"demo\"\nversion = \"0.3.1\"\nedition = \"2021\"\n";
    assert_eq!(parse_manifest(manifest), Some(("demo".to_string(), "0.3.1".to_string())));
    assert_eq!(parse_manifest("not a manifest ["), None);
    assert_eq!(parse_manifest("[package]\nname = \"demo\"\n"), None);
}

#[test]
fn no_features_remark_for_empty_package() {
    let info = ExportInfo { root_package: plain_package("foo", "1.0.0"), dependencies: Vec::new() };
    let spans = pretty_print(info);
    assert_eq!(text_of(&spans), "`foo` 1.0.0 \n  [no features]\n");
    assert_eq!(spans[0].style, Style::PkgName { active: true });
    assert_eq!(spans[2].style, Style::PkgVersion { active: true });
}

#[test]
fn inactive_root_hides_features_and_dependencies() {
    let mut root = plain_package("foo", "1.0.0");
    root.active = false;
    root.globally_active = false;
    root.features = vec![Feature {
        name: "hidden".to_string(),
        active: false,
        optional: false,
        childs: Vec::new(),
    }];
    let info = ExportInfo { root_package: root, dependencies: vec![plain_package("dep", "0.1.0")] };
    let spans = pretty_print(info);
    assert_eq!(text_of(&spans), "`foo`  not active\n");
    assert_eq!(spans[0].style, Style::PkgName { active: false });
}

#[test]
fn optional_inactive_but_globally_active_remark() {
    let mut root = plain_package("foo", "1.0.0");
    root.optional = true;
    root.active = false;
    let info = ExportInfo { root_package: root, dependencies: Vec::new() };
    let spans = pretty_print(info);
    assert_eq!(
        text_of(&spans),
        "`foo` (optional) not active, but activated somewhere else in the tree\n  [no features]\n"
    );
}

#[test]
fn features_sort_with_default_first() {
    let mut root = plain_package("foo", "1.0.0");
    let bare = |name: &str, active: bool| Feature {
        name: name.to_string(),
        active,
        optional: false,
        childs: Vec::new(),
    };
    root.features = vec![bare("zeta", false), bare("gamma", true), bare("default", true)];
    let info = ExportInfo { root_package: root, dependencies: Vec::new() };
    let spans = pretty_print(info);
    assert_eq!(
        text_of(&spans),
        "`foo` 1.0.0 \n  * default = []\n  * gamma = []\n  - zeta = []\n"
    );
}

#[test]
fn feature_line_markers_and_child_order() {
    let mut root = plain_package("foo", "1.0.0");
    root.features = vec![
        Feature {
            name: "io".to_string(),
            active: true,
            optional: false,
            childs: vec![
                Child { name: "zlib".to_string(), optional: false },
                Child { name: "dep:async".to_string(), optional: true },
            ],
        },
        Feature {
            name: "async".to_string(),
            active: false,
            optional: true,
            childs: vec![Child { name: "dep:async".to_string(), optional: true }],
        },
    ];
    root.optionals = vec![Optional { name: "async".to_string(), active: true }];
    let info = ExportInfo { root_package: root, dependencies: Vec::new() };
    let spans = pretty_print(info);
    let expected = "`foo` 1.0.0 \n  ? async = [\"dep:async\"]\n  * io = [\"dep:async\", \"zlib\"]\n  * async (optional)\n";
    assert_eq!(text_of(&spans), expected);
    let marker_styles: Vec<Style> = spans
        .iter()
        .filter(|s| s.text == "  ? " || s.text == "  * " || s.text == "  - ")
        .map(|s| s.style)
        .collect();
    assert_eq!(marker_styles, vec![Style::MagentaBg, Style::Green]);
}

#[test]
fn dependencies_render_sorted_after_active_root() {
    let root = plain_package("root", "1.0.0");
    let mut beta = plain_package("beta", "1.0.0");
    beta.optional = true;
    beta.active = false;
    beta.globally_active = false;
    let alpha = plain_package("alpha", "2.0.0");
    let info = ExportInfo { root_package: root, dependencies: vec![beta, alpha] };
    let spans = pretty_print(info);
    let expected = "`root` 1.0.0 \n  [no features]\n`alpha` 2.0.0 \n  [no features]\n`beta` (optional) not active\n";
    assert_eq!(text_of(&spans), expected);
}

#[test]
fn print_renders_the_stored_export_info() {
    let mut root = GraphPackage {
        name: "foo".to_string(),
        version: "1.0.0".to_string(),
        features: vec![DeclaredFeature {
            name: "use-bar".to_string(),
            childs: strings(&["dep:bar"]),
        }],
        dependencies: vec![DepInfo {
            name: "bar".to_string(),
            version_req: "1.0".to_string(),
            optional: true,
            kind: EdgeKind::Normal,
        }],
        activated_features: Some(strings(&["use-bar"])),
        activated_deps: strings(&["bar"]),
        path_steps: Vec::new(),
    };
    root.activated_deps = strings(&["bar"]);
    let graph = ResolvedGraph { packages: vec![root], has_resolve: true };
    let tool = CargoFeatures::init(&graph, None, "foo".to_string(), false)
        .expect("the manifest package resolves");
    let spans = tool.print();
    assert_eq!(
        text_of(&spans),
        "`foo` 1.0.0 \n  * use-bar = [\"dep:bar\"]\n  * bar (optional)\n"
    );
}

#[test]
fn init_prefers_the_requested_package() {
    let foo = GraphPackage {
        name: "foo".to_string(),
        version: "1.0.0".to_string(),
        features: Vec::new(),
        dependencies: Vec::new(),
        activated_features: None,
        activated_deps: Vec::new(),
        path_steps: Vec::new(),
    };
    let graph = ResolvedGraph { packages: vec![foo], has_resolve: true };
    let by_request = CargoFeatures::init(
        &graph,
        Some(PackageVer { name: "foo".to_string(), version: None }),
        "other".to_string(),
        false,
    );
    assert!(by_request.is_ok());
    let by_manifest = CargoFeatures::init(&graph, None, "other".to_string(), false);
    assert!(by_manifest.is_err(), "the manifest name is used only without a request");
}

#[test]
fn duplicate_preserves_the_model() {
    let mut root = plain_package("foo", "1.0.0");
    root.features = vec![Feature {
        name: "f".to_string(),
        active: true,
        optional: false,
        childs: vec![Child { name: "dep:x".to_string(), optional: true }],
    }];
    root.optionals = vec![Optional { name: "x".to_string(), active: true }];
    let info = ExportInfo { root_package: root, dependencies: vec![plain_package("d", "0.1.0")] };
    assert_eq!(info.duplicate(), info);
}
