use cargo_features::export_info::{Child, Feature, Optional};
use cargo_features::graph::{
    DeclaredFeature, DepInfo, EdgeKind, GraphPackage, PackageVer, PathStep, ResolvedGraph,
};
use cargo_features::resolver::{
    build_export_info, build_package, is_globally_active, Candidate, ExportError,
};

fn strings(v: &[&str]) -> Vec<String> {
    v.iter().map(|s| s.to_string()).collect()
}

fn pkg(name: &str, version: &str) -> GraphPackage {
    GraphPackage {
        name: name.to_string(),
        version: version.to_string(),
        features: Vec::new(),
        dependencies: Vec::new(),
        activated_features: None,
        activated_deps: Vec::new(),
        path_steps: Vec::new(),
    }
}

fn feature(name: &str, childs: &[&str]) -> DeclaredFeature {
    DeclaredFeature { name: name.to_string(), childs: strings(childs) }
}

fn dep(name: &str, req: &str, optional: bool, kind: EdgeKind) -> DepInfo {
    DepInfo { name: name.to_string(), version_req: req.to_string(), optional, kind }
}

fn graph_of(packages: Vec<GraphPackage>) -> ResolvedGraph {
    ResolvedGraph { packages, has_resolve: true }
}

fn request(name: &str, version: Option<&str>) -> PackageVer {
    PackageVer { name: name.to_string(), version: version.map(|v| v.to_string()) }
}

#[test]
fn ambiguous_request_reports_both_candidates() {
    let graph = graph_of(vec![pkg("foo", "1.0.0"), pkg("foo", "2.0.0"), pkg("bar", "1.0.0")]);
    let result = build_export_info(&graph, request("foo", None), false);
    match result {
        Err(ExportError::AmbiguousPackage { candidates }) => {
            assert_eq!(
                candidates,
                vec![
                    Candidate { name: "foo".to_string(), version: "1.0.0".to_string() },
                    Candidate { name: "foo".to_string(), version: "2.0.0".to_string() },
                ]
            );
        }
        other => panic!("expected an ambiguous-package error, got {:?}", other),
    }
}

#[test]
fn unknown_package_is_not_found() {
    let graph = graph_of(vec![pkg("foo", "1.0.0")]);
    let result = build_export_info(&graph, request("bar", None), false);
    match result {
        Err(ExportError::PackageNotFound { name }) => assert_eq!(name, "bar"),
        other => panic!("expected a package-not-found error, got {:?}", other),
    }
}

#[test]
fn version_request_uses_semver_matching() {
    let graph = graph_of(vec![pkg("foo", "1.2.3"), pkg("foo", "2.0.0")]);
    let found = build_export_info(&graph, request("foo", Some("1")), false)
        .expect("a caret request for 1 matches 1.2.3 alone");
    assert_eq!(found.root_package.version, "1.2.3");
    let missing = build_export_info(&graph, request("foo", Some("3")), false);
    match missing {
        Err(ExportError::PackageNotFound { name }) => assert_eq!(name, "foo"),
        other => panic!("expected a package-not-found error, got {:?}", other),
    }
}

#[test]
fn activated_optional_dependency_scenario() {
    let mut root = pkg("foo", "1.0.0");
    root.dependencies = vec![dep("bar", "1.0", true, EdgeKind::Normal)];
    root.features = vec![feature("use-bar", &["dep:bar"])];
    root.activated_features = Some(strings(&["use-bar"]));
    root.activated_deps = strings(&["bar"]);
    let mut bar = pkg("bar", "1.0.0");
    bar.path_steps = vec![PathStep { edges: Some(vec![EdgeKind::Normal]) }];
    let graph = graph_of(vec![root, bar]);

    let info = build_export_info(&graph, request("foo", None), true).expect("foo resolves");
    assert_eq!(
        info.root_package.features,
        vec![Feature {
            name: "use-bar".to_string(),
            active: true,
            optional: false,
            childs: vec![Child { name: "dep:bar".to_string(), optional: true }],
        }]
    );
    assert_eq!(
        info.root_package.optionals,
        vec![Optional { name: "bar".to_string(), active: true }]
    );
    assert_eq!(info.dependencies.len(), 1);
    let exported_bar = &info.dependencies[0];
    assert_eq!(exported_bar.name, "bar");
    assert!(exported_bar.optional);
    assert!(exported_bar.active);
    assert!(exported_bar.globally_active);
}

#[test]
fn dev_only_package_is_not_globally_active() {
    let graph = graph_of(Vec::new());
    let mut qux = pkg("qux", "0.1.0");
    qux.path_steps = vec![PathStep { edges: Some(vec![EdgeKind::Development]) }];
    assert_eq!(is_globally_active(&graph, &qux), Ok(false));

    qux.path_steps.push(PathStep { edges: Some(vec![EdgeKind::Normal]) });
    assert_eq!(is_globally_active(&graph, &qux), Ok(true));
}

#[test]
fn build_only_package_needs_a_normal_edge() {
    let graph = graph_of(Vec::new());
    let mut tool = pkg("tool", "0.1.0");
    tool.path_steps = vec![PathStep { edges: Some(vec![EdgeKind::Build, EdgeKind::Build]) }];
    assert_eq!(is_globally_active(&graph, &tool), Ok(false));
}

#[test]
fn root_with_empty_path_is_globally_active() {
    let graph = graph_of(Vec::new());
    let root = pkg("root", "0.1.0");
    assert_eq!(is_globally_active(&graph, &root), Ok(true));
    let mut stepped = pkg("stepped", "0.1.0");
    stepped.path_steps = vec![PathStep { edges: None }];
    assert_eq!(is_globally_active(&graph, &stepped), Ok(true));
}

#[test]
fn active_without_normal_edge_is_inconsistent() {
    let graph = graph_of(Vec::new());
    let mut devonly = pkg("devonly", "0.1.0");
    devonly.path_steps = vec![PathStep { edges: Some(vec![EdgeKind::Development]) }];
    let result = build_package(&graph, &devonly, false, true);
    assert_eq!(result, Err(ExportError::InconsistentActivation));

    let inactive = build_package(&graph, &devonly, true, false).expect("inactive build succeeds");
    assert!(!inactive.active);
    assert!(!inactive.globally_active);
}

#[test]
fn missing_resolve_is_reported() {
    let graph = ResolvedGraph { packages: Vec::new(), has_resolve: false };
    let p = pkg("foo", "1.0.0");
    assert_eq!(is_globally_active(&graph, &p), Err(ExportError::GraphMissing));
    assert_eq!(build_package(&graph, &p, false, false), Err(ExportError::GraphMissing));
}

#[test]
fn every_exported_package_active_implies_globally_active() {
    let mut root = pkg("foo", "1.0.0");
    root.dependencies = vec![
        dep("bar", "1.0", true, EdgeKind::Normal),
        dep("baz", "1.0", false, EdgeKind::Normal),
    ];
    root.activated_deps = strings(&["bar"]);
    let mut bar = pkg("bar", "1.0.0");
    bar.path_steps = vec![PathStep { edges: Some(vec![EdgeKind::Normal]) }];
    let mut baz = pkg("baz", "1.0.0");
    baz.path_steps = vec![PathStep { edges: Some(vec![EdgeKind::Normal]) }];
    let graph = graph_of(vec![root, bar, baz]);

    let info = build_export_info(&graph, request("foo", None), true).expect("foo resolves");
    assert!(!info.root_package.active || info.root_package.globally_active);
    for dependency in &info.dependencies {
        assert!(!dependency.active || dependency.globally_active);
    }
}

#[test]
fn classification_is_idempotent() {
    let graph = graph_of(Vec::new());
    let mut p = pkg("foo", "1.0.0");
    p.features = vec![feature("default", &["serde"]), feature("serde", &["dep:serde"])];
    p.dependencies = vec![dep("serde", "1.0", true, EdgeKind::Normal)];
    p.activated_features = Some(strings(&["default"]));
    let once = build_package(&graph, &p, false, true).expect("classification succeeds");
    let twice = build_package(&graph, &p, false, true).expect("classification succeeds");
    assert_eq!(once, twice);
}

#[test]
fn implicit_alias_feature_classification() {
    let graph = graph_of(Vec::new());
    let mut p = pkg("foo", "1.0.0");
    p.dependencies = vec![dep("bar", "1.0", true, EdgeKind::Normal)];
    p.features = vec![
        feature("bar", &["dep:bar"]),
        feature("use-bar", &["dep:bar"]),
        feature("both", &["dep:both", "extra"]),
    ];
    let exported = build_package(&graph, &p, false, true).expect("classification succeeds");
    assert!(exported.features[0].optional, "a single dep:-child of the same name is an alias");
    assert!(!exported.features[1].optional, "a differently named feature is not an alias");
    assert!(!exported.features[2].optional, "a multi-child feature is not an alias");
}

#[test]
fn optional_enabled_without_weak_marker_is_duplicated() {
    let graph = graph_of(Vec::new());
    let mut p = pkg("foo", "1.0.0");
    p.dependencies = vec![dep("bar", "1.0", true, EdgeKind::Normal)];
    p.features = vec![feature("with-bar", &["bar"])];
    p.activated_features = Some(strings(&["with-bar"]));
    let exported = build_package(&graph, &p, false, true).expect("classification succeeds");
    assert_eq!(
        exported.features[0].childs,
        vec![Child { name: "bar".to_string(), optional: true }]
    );
    assert_eq!(
        exported.optionals,
        vec![Optional { name: "bar".to_string(), active: true }]
    );
}

#[test]
fn inactive_feature_does_not_activate_optional() {
    let graph = graph_of(Vec::new());
    let mut p = pkg("foo", "1.0.0");
    p.dependencies = vec![dep("bar", "1.0", true, EdgeKind::Normal)];
    p.features = vec![feature("use-bar", &["dep:bar"])];
    p.activated_features = None;
    let exported = build_package(&graph, &p, false, true).expect("classification succeeds");
    assert!(!exported.features[0].active);
    assert_eq!(
        exported.optionals,
        vec![Optional { name: "bar".to_string(), active: false }]
    );
}

#[test]
fn non_normal_edges_are_excluded_from_dependency_listing() {
    let mut root = pkg("foo", "1.0.0");
    root.dependencies = vec![
        dep("devdep", "1.0", false, EdgeKind::Development),
        dep("builddep", "1.0", false, EdgeKind::Build),
        dep("realdep", "1.0", false, EdgeKind::Normal),
    ];
    let mut realdep = pkg("realdep", "1.0.0");
    realdep.path_steps = vec![PathStep { edges: Some(vec![EdgeKind::Normal]) }];
    let graph = graph_of(vec![root, realdep]);
    let info = build_export_info(&graph, request("foo", None), true).expect("foo resolves");
    assert_eq!(info.dependencies.len(), 1);
    assert_eq!(info.dependencies[0].name, "realdep");
    assert!(info.dependencies[0].active, "a non-optional dependency is always active");
}

#[test]
fn unresolved_optional_dependency_gets_minimal_entry() {
    let mut root = pkg("foo", "1.0.0");
    root.dependencies = vec![dep("ghost", "^2.1", true, EdgeKind::Normal)];
    let graph = graph_of(vec![root]);
    let info = build_export_info(&graph, request("foo", None), true).expect("foo resolves");
    assert_eq!(info.dependencies.len(), 1);
    let entry = &info.dependencies[0];
    assert_eq!(entry.name, "ghost");
    assert_eq!(entry.version, "^2.1", "the declared requirement stands in for the version");
    assert!(entry.optional);
    assert!(!entry.active);
    assert!(!entry.globally_active);
    assert!(entry.features.is_empty());
    assert!(entry.optionals.is_empty());
}
