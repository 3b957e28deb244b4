//! The feature-activation classification engine.
//!
//! Turns the resolved-graph snapshot into the export model: selects the
//! requested root package, classifies its features and optional
//! dependencies, optionally does the same for its direct normal
//! dependencies, and decides global activation from path-to-root edges.

use vstd::prelude::*;

use crate::export_info::{
    Child, ChildView, ExportInfo, ExportInfoView, Feature, FeatureView, Optional, OptionalView,
    Package, PackageView,
};
use crate::graph::{
    DeclaredFeature, DeclaredFeatureView, DepInfo, DepInfoView, EdgeKind, GraphPackage,
    GraphPackageView, PackageVer, PackageVerView, PathStep, PathStepView, ResolvedGraph,
    ResolvedGraphView,
};
use crate::names::{clean_feature_name, dep_prefix, has_dep_prefix, spec_clean_name,
    starts_with_dep};
use crate::seqs::{contains_str, contains_string, first_where, lemma_deep_view_push,
    lemma_first_where_is};
use crate::versions::{req_matches, version_req_match};
use vstd::string::StringExecFns;

verus! {

/// One `name@version` pair offered to the user on an ambiguous match.
#[derive(Debug, PartialEq, Eq)]
pub struct Candidate {
    pub name: String,
    pub version: String,
}

#[verifier::ext_equal]
pub ghost struct CandidateView {
    pub name: Seq<char>,
    pub version: Seq<char>,
}

impl DeepView for Candidate {
    type V = CandidateView;

    open spec fn deep_view(&self) -> CandidateView {
        CandidateView { name: self.name@, version: self.version@ }
    }
}

/// Why classification can fail.
#[derive(Debug, PartialEq, Eq)]
pub enum ExportError {
    /// The requested name and version match no package in the graph.
    PackageNotFound { name: String },
    /// The requested name and version match two or more packages; the
    /// candidates are reported so the user can pick one.
    AmbiguousPackage { candidates: Vec<Candidate> },
    /// A package was reported active on its edge without being reachable
    /// through any normal edge: the adapter's local and global views of
    /// activation disagree.
    InconsistentActivation,
    /// The adapter could not supply path-to-root information for a
    /// resolved package.
    GraphMissing,
}

#[verifier::ext_equal]
pub ghost enum ExportErrorView {
    PackageNotFound { name: Seq<char> },
    AmbiguousPackage { candidates: Seq<CandidateView> },
    InconsistentActivation,
    GraphMissing,
}

impl DeepView for ExportError {
    type V = ExportErrorView;

    open spec fn deep_view(&self) -> ExportErrorView {
        match self {
            ExportError::PackageNotFound { name } => ExportErrorView::PackageNotFound {
                name: name@,
            },
            ExportError::AmbiguousPackage { candidates } => ExportErrorView::AmbiguousPackage {
                candidates: candidates.deep_view(),
            },
            ExportError::InconsistentActivation => ExportErrorView::InconsistentActivation,
            ExportError::GraphMissing => ExportErrorView::GraphMissing,
        }
    }
}

/// The edges recorded at one path step; a step without edge information
/// contributes none.
pub open spec fn edges_of(st: PathStepView) -> Seq<EdgeKind> {
    match st.edges {
        Option::Some(es) => es,
        Option::None => Seq::empty(),
    }
}

/// How many edges of kind `k` a single step's edge list holds.
pub open spec fn count_in(es: Seq<EdgeKind>, k: EdgeKind) -> nat
    decreases es.len(),
{
    if es.len() == 0 {
        0
    } else {
        count_in(es.drop_last(), k) + (if es.last() == k {
            1nat
        } else {
            0nat
        })
    }
}

/// How many edges of kind `k` appear across all steps of a path set.
pub open spec fn count_kind(steps: Seq<PathStepView>, k: EdgeKind) -> nat
    decreases steps.len(),
{
    if steps.len() == 0 {
        0
    } else {
        count_kind(steps.drop_last(), k) + count_in(edges_of(steps.last()), k)
    }
}

/// Whether a package is reachable through at least one normal edge: if any
/// development or build edge appears on its paths to the root, a normal
/// edge must appear too; a package with no development or build edge at
/// all (the root's zero-length path included) is active by default.
pub open spec fn spec_globally_active(steps: Seq<PathStepView>) -> bool {
    if count_kind(steps, EdgeKind::Build) > 0 || count_kind(steps, EdgeKind::Development) > 0 {
        count_kind(steps, EdgeKind::Normal) > 0
    } else {
        true
    }
}

fn globally_active_steps(steps: &Vec<PathStep>) -> (r: bool)
    ensures
        r == spec_globally_active(steps.deep_view()),
{
    let ghost sv = steps.deep_view();
    let mut any_normal = false;
    let mut any_dev = false;
    let mut any_build = false;
    let mut i: usize = 0;
    while i < steps.len()
        invariant
            0 <= i <= steps.len(),
            sv == steps.deep_view(),
            sv.len() == steps@.len(),
            any_normal == (count_kind(sv.take(i as int), EdgeKind::Normal) > 0),
            any_dev == (count_kind(sv.take(i as int), EdgeKind::Development) > 0),
            any_build == (count_kind(sv.take(i as int), EdgeKind::Build) > 0),
        decreases steps.len() - i,
    {
        let st = &steps[i];
        let ghost es = edges_of(sv[i as int]);
        match &st.edges {
            Option::Some(edges) => {
                assert(es == edges@);
                let mut j: usize = 0;
                while j < edges.len()
                    invariant
                        0 <= j <= edges.len(),
                        es == edges@,
                        0 <= i < sv.len(),
                        sv == steps.deep_view(),
                        any_normal == (count_kind(sv.take(i as int), EdgeKind::Normal) + count_in(
                            es.take(j as int),
                            EdgeKind::Normal,
                        ) > 0),
                        any_dev == (count_kind(sv.take(i as int), EdgeKind::Development)
                            + count_in(es.take(j as int), EdgeKind::Development) > 0),
                        any_build == (count_kind(sv.take(i as int), EdgeKind::Build) + count_in(
                            es.take(j as int),
                            EdgeKind::Build,
                        ) > 0),
                    decreases edges.len() - j,
                {
                    proof {
                        assert(es.take(j + 1).drop_last() =~= es.take(j as int));
                        assert(es.take(j + 1).last() == es[j as int]);
                    }
                    match edges[j] {
                        EdgeKind::Normal => { any_normal = true; },
                        EdgeKind::Development => { any_dev = true; },
                        EdgeKind::Build => { any_build = true; },
                    }
                    j = j + 1;
                }
                proof {
                    assert(es.take(edges@.len() as int) =~= es);
                }
            },
            Option::None => {
                proof {
                    assert(es =~= Seq::<EdgeKind>::empty());
                    assert(count_in(es, EdgeKind::Normal) == 0);
                    assert(count_in(es, EdgeKind::Development) == 0);
                    assert(count_in(es, EdgeKind::Build) == 0);
                }
            },
        }
        i = i + 1;
        proof {
            assert(sv.take(i as int).drop_last() =~= sv.take(i - 1));
            assert(sv.take(i as int).last() == sv[i - 1]);
        }
    }
    proof {
        assert(sv.take(steps@.len() as int) =~= sv);
    }
    if any_build || any_dev {
        any_normal
    } else {
        true
    }
}

/// Whether the package is reachable through at least one normal-kind edge
/// anywhere on its paths to the workspace root. Fails only when the
/// adapter holds no resolve information at all.
pub fn is_globally_active(graph: &ResolvedGraph, package: &GraphPackage) -> (r: Result<
    bool,
    ExportError,
>)
    ensures
        match r {
            Ok(b) => graph.has_resolve && b == spec_globally_active(
                package.deep_view().path_steps,
            ),
            Err(e) => !graph.has_resolve && e.deep_view() == ExportErrorView::GraphMissing,
        },
{
    if !graph.has_resolve {
        return Err(ExportError::GraphMissing);
    }
    Ok(globally_active_steps(&package.path_steps))
}

/// Whether a raw child token denotes an optional dependency: it carries
/// the weak-dependency marker, or its cleaned name equals the cleaned
/// name of some declared optional dependency.
pub open spec fn spec_child_optional(token: Seq<char>, deps: Seq<DepInfoView>) -> bool {
    has_dep_prefix(token) || exists|i: int|
        0 <= i < deps.len() && (#[trigger] deps[i]).optional && spec_clean_name(deps[i].name)
            == spec_clean_name(token)
}

/// The classification of one raw child token.
pub open spec fn spec_child(token: Seq<char>, deps: Seq<DepInfoView>) -> ChildView {
    ChildView { name: token, optional: spec_child_optional(token, deps) }
}

/// The classification of a feature's child tokens, in declaration order.
pub open spec fn spec_childs(tokens: Seq<Seq<char>>, deps: Seq<DepInfoView>) -> Seq<ChildView>
    decreases tokens.len(),
{
    if tokens.len() == 0 {
        Seq::empty()
    } else {
        spec_childs(tokens.drop_last(), deps).push(spec_child(tokens.last(), deps))
    }
}

/// Each child's classification depends on its own token alone, not on the
/// other tokens of the list or their order.
pub proof fn lemma_childs_pointwise(tokens: Seq<Seq<char>>, deps: Seq<DepInfoView>)
    ensures
        spec_childs(tokens, deps).len() == tokens.len(),
        forall|k: int|
            0 <= k < tokens.len() ==> spec_childs(tokens, deps)[k] == spec_child(
                tokens[k],
                deps,
            ),
    decreases tokens.len(),
{
    if tokens.len() > 0 {
        lemma_childs_pointwise(tokens.drop_last(), deps);
    }
}

/// The classification of one declared feature: active when it appears in
/// the resolved activated-feature set; an implicit feature alias when its
/// only child token is exactly the weak-dependency marker followed by the
/// feature's own name.
pub open spec fn spec_feature(
    df: DeclaredFeatureView,
    activated: Seq<Seq<char>>,
    deps: Seq<DepInfoView>,
) -> FeatureView {
    FeatureView {
        name: df.name,
        active: contains_str(activated, df.name),
        optional: df.childs.len() == 1 && df.childs[0] == dep_prefix() + df.name,
        childs: spec_childs(df.childs, deps),
    }
}

/// The classification of all declared features, in declaration order.
pub open spec fn spec_features(
    dfs: Seq<DeclaredFeatureView>,
    activated: Seq<Seq<char>>,
    deps: Seq<DepInfoView>,
) -> Seq<FeatureView>
    decreases dfs.len(),
{
    if dfs.len() == 0 {
        Seq::empty()
    } else {
        spec_features(dfs.drop_last(), activated, deps).push(
            spec_feature(dfs.last(), activated, deps),
        )
    }
}

pub proof fn lemma_features_pointwise(
    dfs: Seq<DeclaredFeatureView>,
    activated: Seq<Seq<char>>,
    deps: Seq<DepInfoView>,
)
    ensures
        spec_features(dfs, activated, deps).len() == dfs.len(),
        forall|k: int|
            0 <= k < dfs.len() ==> spec_features(dfs, activated, deps)[k] == spec_feature(
                dfs[k],
                activated,
                deps,
            ),
    decreases dfs.len(),
{
    if dfs.len() > 0 {
        lemma_features_pointwise(dfs.drop_last(), activated, deps);
    }
}

/// Whether some active feature's child list contains, after cleaning, the
/// optional dependency's name.
pub open spec fn spec_optional_active(feats: Seq<FeatureView>, dep_name: Seq<char>) -> bool {
    exists|i: int|
        0 <= i < feats.len() && (#[trigger] feats[i]).active && exists|j: int|
            0 <= j < feats[i].childs.len() && spec_clean_name(
                (#[trigger] feats[i].childs[j]).name,
            ) == spec_clean_name(dep_name)
}

/// The `Optional` entries: one per declared optional dependency, in
/// declaration order, active when an active feature enables it.
pub open spec fn spec_optionals(deps: Seq<DepInfoView>, feats: Seq<FeatureView>) -> Seq<
    OptionalView,
>
    decreases deps.len(),
{
    if deps.len() == 0 {
        Seq::empty()
    } else {
        let prefix = spec_optionals(deps.drop_last(), feats);
        if deps.last().optional {
            prefix.push(
                OptionalView {
                    name: deps.last().name,
                    active: spec_optional_active(feats, deps.last().name),
                },
            )
        } else {
            prefix
        }
    }
}

fn child_is_optional(token: &String, deps: &Vec<DepInfo>) -> (r: bool)
    ensures
        r == spec_child_optional(token@, deps.deep_view()),
{
    if starts_with_dep(token.as_str()) {
        return true;
    }
    let cleaned = clean_feature_name(token.as_str());
    let mut i: usize = 0;
    while i < deps.len()
        invariant
            0 <= i <= deps.len(),
            cleaned@ == spec_clean_name(token@),
            forall|j: int|
                0 <= j < i ==> !((#[trigger] deps.deep_view()[j]).optional && spec_clean_name(
                    deps.deep_view()[j].name,
                ) == spec_clean_name(token@)),
        decreases deps.len() - i,
    {
        if deps[i].optional {
            let cd = clean_feature_name(deps[i].name.as_str());
            if cd == cleaned {
                proof {
                    assert(deps.deep_view()[i as int].optional && spec_clean_name(
                        deps.deep_view()[i as int].name,
                    ) == spec_clean_name(token@));
                }
                return true;
            }
        }
        i = i + 1;
    }
    false
}

fn build_child(token: &String, deps: &Vec<DepInfo>) -> (r: Child)
    ensures
        r.deep_view() == spec_child(token@, deps.deep_view()),
{
    let optional = child_is_optional(token, deps);
    Child { name: token.clone(), optional }
}

fn build_feature(df: &DeclaredFeature, activated: &Vec<String>, deps: &Vec<DepInfo>) -> (r: Feature)
    ensures
        r.deep_view() == spec_feature(df.deep_view(), activated.deep_view(), deps.deep_view()),
{
    let active = contains_string(activated, &df.name);
    let optional = if df.childs.len() == 1 {
        let mut expected = String::from_str("dep:");
        expected.append(df.name.as_str());
        df.childs[0] == expected
    } else {
        false
    };
    let mut childs: Vec<Child> = Vec::new();
    let mut i: usize = 0;
    while i < df.childs.len()
        invariant
            0 <= i <= df.childs.len(),
            childs@.len() == i,
            forall|k: int|
                0 <= k < i ==> childs.deep_view()[k] == spec_child(
                    df.childs.deep_view()[k],
                    deps.deep_view(),
                ),
        decreases df.childs.len() - i,
    {
        let ghost pre = childs;
        let c = build_child(&df.childs[i], deps);
        let ghost cg = c;
        childs.push(c);
        proof {
            lemma_deep_view_push(pre, childs, cg);
        }
        i = i + 1;
    }
    proof {
        lemma_childs_pointwise(df.childs.deep_view(), deps.deep_view());
        assert(childs.deep_view() =~= spec_childs(df.childs.deep_view(), deps.deep_view()));
    }
    Feature { name: df.name.clone(), active, optional, childs }
}

fn build_features(dfs: &Vec<DeclaredFeature>, activated: &Vec<String>, deps: &Vec<DepInfo>) -> (r:
    Vec<Feature>)
    ensures
        r.deep_view() == spec_features(dfs.deep_view(), activated.deep_view(), deps.deep_view()),
{
    let mut features: Vec<Feature> = Vec::new();
    let mut i: usize = 0;
    while i < dfs.len()
        invariant
            0 <= i <= dfs.len(),
            features@.len() == i,
            forall|k: int|
                0 <= k < i ==> features.deep_view()[k] == spec_feature(
                    dfs.deep_view()[k],
                    activated.deep_view(),
                    deps.deep_view(),
                ),
        decreases dfs.len() - i,
    {
        let ghost pre = features;
        let f = build_feature(&dfs[i], activated, deps);
        let ghost fg = f;
        features.push(f);
        proof {
            lemma_deep_view_push(pre, features, fg);
        }
        i = i + 1;
    }
    proof {
        lemma_features_pointwise(dfs.deep_view(), activated.deep_view(), deps.deep_view());
        assert(features.deep_view() =~= spec_features(
            dfs.deep_view(),
            activated.deep_view(),
            deps.deep_view(),
        ));
    }
    features
}

fn optional_enabled(features: &Vec<Feature>, dep_name: &String) -> (r: bool)
    ensures
        r == spec_optional_active(features.deep_view(), dep_name@),
{
    let cleaned = clean_feature_name(dep_name.as_str());
    let mut i: usize = 0;
    while i < features.len()
        invariant
            0 <= i <= features.len(),
            cleaned@ == spec_clean_name(dep_name@),
            forall|a: int|
                0 <= a < i ==> !((#[trigger] features.deep_view()[a]).active && exists|b: int|
                    0 <= b < features.deep_view()[a].childs.len() && spec_clean_name(
                        (#[trigger] features.deep_view()[a].childs[b]).name,
                    ) == spec_clean_name(dep_name@)),
        decreases features.len() - i,
    {
        let f = &features[i];
        if f.active {
            let mut j: usize = 0;
            while j < f.childs.len()
                invariant
                    0 <= j <= f.childs.len(),
                    cleaned@ == spec_clean_name(dep_name@),
                    0 <= i < features@.len(),
                    f == features@[i as int],
                    f.active,
                    forall|b: int|
                        0 <= b < j ==> spec_clean_name(
                            (#[trigger] f.childs.deep_view()[b]).name,
                        ) != spec_clean_name(dep_name@),
                decreases f.childs.len() - j,
            {
                let cc = clean_feature_name(f.childs[j].name.as_str());
                if cc == cleaned {
                    proof {
                        assert(features.deep_view()[i as int] == f.deep_view());
                        assert(f.deep_view().childs[j as int].name == f.childs@[j as int].name@);
                        assert(spec_clean_name(f.deep_view().childs[j as int].name)
                            == spec_clean_name(dep_name@));
                        assert(spec_optional_active(features.deep_view(), dep_name@));
                    }
                    return true;
                }
                j = j + 1;
            }
            proof {
                assert(features.deep_view()[i as int] == f.deep_view());
                assert(forall|b: int|
                    0 <= b < features.deep_view()[i as int].childs.len() ==> spec_clean_name(
                        (#[trigger] features.deep_view()[i as int].childs[b]).name,
                    ) != spec_clean_name(dep_name@));
            }
        }
        i = i + 1;
    }
    false
}

fn build_optionals(deps: &Vec<DepInfo>, features: &Vec<Feature>) -> (r: Vec<Optional>)
    ensures
        r.deep_view() == spec_optionals(deps.deep_view(), features.deep_view()),
{
    let ghost dv = deps.deep_view();
    let mut optionals: Vec<Optional> = Vec::new();
    let mut i: usize = 0;
    while i < deps.len()
        invariant
            0 <= i <= deps.len(),
            dv == deps.deep_view(),
            dv.len() == deps@.len(),
            optionals.deep_view() == spec_optionals(dv.take(i as int), features.deep_view()),
        decreases deps.len() - i,
    {
        proof {
            assert(dv.take(i + 1).drop_last() =~= dv.take(i as int));
            assert(dv.take(i + 1).last() == dv[i as int]);
        }
        if deps[i].optional {
            let ghost pre = optionals;
            let active = optional_enabled(features, &deps[i].name);
            let o = Optional { name: deps[i].name.clone(), active };
            let ghost og = o;
            optionals.push(o);
            proof {
                lemma_deep_view_push(pre, optionals, og);
                assert(og.deep_view() == OptionalView {
                    name: dv[i as int].name,
                    active: spec_optional_active(features.deep_view(), dv[i as int].name),
                });
                assert(optionals.deep_view() =~= spec_optionals(
                    dv.take(i + 1),
                    features.deep_view(),
                ));
            }
        }
        i = i + 1;
    }
    proof {
        assert(dv.take(deps@.len() as int) =~= dv);
    }
    optionals
}

/// Classification of one resolved package: fails with `GraphMissing` when
/// the adapter has no resolve, and with `InconsistentActivation` when the
/// package is active on its edge yet not globally active.
pub open spec fn spec_build_package(
    g: ResolvedGraphView,
    p: GraphPackageView,
    optional: bool,
    active: bool,
) -> Result<PackageView, ExportErrorView> {
    if !g.has_resolve {
        Err(ExportErrorView::GraphMissing)
    } else {
        let ga = spec_globally_active(p.path_steps);
        if active && !ga {
            Err(ExportErrorView::InconsistentActivation)
        } else {
            let activated = match p.activated_features {
                Option::Some(a) => a,
                Option::None => Seq::empty(),
            };
            let feats = spec_features(p.features, activated, p.dependencies);
            Ok(
                PackageView {
                    name: p.name,
                    version: p.version,
                    optional,
                    active,
                    globally_active: ga,
                    features: feats,
                    optionals: spec_optionals(p.dependencies, feats),
                },
            )
        }
    }
}

/// Classifies one resolved package of the graph.
pub fn build_package(
    graph: &ResolvedGraph,
    package: &GraphPackage,
    optional: bool,
    active: bool,
) -> (r: Result<Package, ExportError>)
    ensures
        match r {
            Ok(p) => spec_build_package(graph.deep_view(), package.deep_view(), optional, active)
                == Ok::<PackageView, ExportErrorView>(p.deep_view()),
            Err(e) => spec_build_package(graph.deep_view(), package.deep_view(), optional, active)
                == Err::<PackageView, ExportErrorView>(e.deep_view()),
        },
{
    let ga = match is_globally_active(graph, package) {
        Ok(b) => b,
        Err(e) => {
            return Err(e);
        },
    };
    if active && !ga {
        return Err(ExportError::InconsistentActivation);
    }
    let empty_names: Vec<String> = Vec::new();
    let activated: &Vec<String> = match &package.activated_features {
        Option::Some(a) => a,
        Option::None => &empty_names,
    };
    proof {
        assert(activated.deep_view() =~= (match package.deep_view().activated_features {
            Option::Some(a) => a,
            Option::None => Seq::<Seq<char>>::empty(),
        }));
    }
    let features = build_features(&package.features, activated, &package.dependencies);
    let optionals = build_optionals(&package.dependencies, &features);
    let result = Package {
        name: package.name.clone(),
        version: package.version.clone(),
        optional,
        active,
        globally_active: ga,
        features,
        optionals,
    };
    proof {
        assert(spec_build_package(graph.deep_view(), package.deep_view(), optional, active)
            matches Ok(pv) && pv =~= result.deep_view());
    }
    Ok(result)
}

/// Whether a graph package satisfies the user's request: the name must be
/// equal, and when a version constraint is given the package's version
/// must satisfy it.
pub open spec fn spec_matches_request(p: GraphPackageView, req: PackageVerView) -> bool {
    &&& p.name == req.name
    &&& match req.version {
        Option::Some(v) => version_req_match(v, p.version) == Option::Some(true),
        Option::None => true,
    }
}

/// The packages matching the request, in graph order.
pub open spec fn spec_matching(pkgs: Seq<GraphPackageView>, req: PackageVerView) -> Seq<
    GraphPackageView,
>
    decreases pkgs.len(),
{
    if pkgs.len() == 0 {
        Seq::empty()
    } else {
        let prefix = spec_matching(pkgs.drop_last(), req);
        if spec_matches_request(pkgs.last(), req) {
            prefix.push(pkgs.last())
        } else {
            prefix
        }
    }
}

/// The `name@version` pairs of the matching packages, in graph order.
pub open spec fn spec_candidates(pkgs: Seq<GraphPackageView>, req: PackageVerView) -> Seq<
    CandidateView,
>
    decreases pkgs.len(),
{
    if pkgs.len() == 0 {
        Seq::empty()
    } else {
        let prefix = spec_candidates(pkgs.drop_last(), req);
        if spec_matches_request(pkgs.last(), req) {
            prefix.push(CandidateView { name: pkgs.last().name, version: pkgs.last().version })
        } else {
            prefix
        }
    }
}

/// Whether a resolved package is the one a dependency declaration names:
/// same package name, and a version satisfying the declared requirement.
pub open spec fn spec_dep_matches(p: GraphPackageView, d: DepInfoView) -> bool {
    p.name == d.name && version_req_match(d.version_req, p.version) == Option::Some(true)
}

/// The export entry of one normal dependency edge: the dependency is
/// active unless it is optional and not activated for the root; when no
/// resolved package matches the declaration, a minimal inactive entry
/// carrying the declared requirement as its version stands in.
pub open spec fn spec_dep_entry(
    g: ResolvedGraphView,
    root: GraphPackageView,
    d: DepInfoView,
) -> Result<PackageView, ExportErrorView> {
    let active = !d.optional || contains_str(root.activated_deps, d.name);
    let fi = first_where(g.packages, |p: GraphPackageView| spec_dep_matches(p, d));
    if fi < g.packages.len() {
        spec_build_package(g, g.packages[fi], d.optional, active)
    } else {
        Ok(
            PackageView {
                name: d.name,
                version: d.version_req,
                optional: d.optional,
                active: false,
                globally_active: false,
                features: Seq::empty(),
                optionals: Seq::empty(),
            },
        )
    }
}

/// The export entries of the root's dependencies, keeping only edges of
/// normal kind, in declaration order; the first failing entry's error is
/// the result.
pub open spec fn spec_dep_entries(
    g: ResolvedGraphView,
    root: GraphPackageView,
    ds: Seq<DepInfoView>,
) -> Result<Seq<PackageView>, ExportErrorView>
    decreases ds.len(),
{
    if ds.len() == 0 {
        Ok(Seq::empty())
    } else {
        match spec_dep_entries(g, root, ds.drop_last()) {
            Err(e) => Err(e),
            Ok(prefix) => {
                if ds.last().kind == EdgeKind::Normal {
                    match spec_dep_entry(g, root, ds.last()) {
                        Err(e) => Err(e),
                        Ok(p) => Ok(prefix.push(p)),
                    }
                } else {
                    Ok(prefix)
                }
            },
        }
    }
}

/// An error in a prefix of the dependency list is the error of the whole
/// list.
proof fn lemma_dep_entries_err(
    g: ResolvedGraphView,
    root: GraphPackageView,
    ds: Seq<DepInfoView>,
    i: int,
)
    requires
        0 <= i <= ds.len(),
        spec_dep_entries(g, root, ds.take(i)) is Err,
    ensures
        spec_dep_entries(g, root, ds) == spec_dep_entries(g, root, ds.take(i)),
    decreases ds.len() - i,
{
    if i == ds.len() {
        assert(ds.take(i) =~= ds);
    } else {
        assert(ds.take(i + 1).drop_last() =~= ds.take(i));
        lemma_dep_entries_err(g, root, ds, i + 1);
    }
}

/// The whole classification: select the root by name and version, fail on
/// zero or several matches, classify the root (always non-optional and
/// active by construction), and classify its direct normal dependencies
/// when asked to.
pub open spec fn spec_build_export_info(
    g: ResolvedGraphView,
    req: PackageVerView,
    deps: bool,
) -> Result<ExportInfoView, ExportErrorView> {
    let ms = spec_matching(g.packages, req);
    if ms.len() == 0 {
        Err(ExportErrorView::PackageNotFound { name: req.name })
    } else if ms.len() >= 2 {
        Err(ExportErrorView::AmbiguousPackage { candidates: spec_candidates(g.packages, req) })
    } else {
        let root = ms[0];
        match spec_dep_entries(
            g,
            root,
            if deps {
                root.dependencies
            } else {
                Seq::empty()
            },
        ) {
            Err(e) => Err(e),
            Ok(ds) => match spec_build_package(g, root, false, true) {
                Err(e) => Err(e),
                Ok(rp) => Ok(ExportInfoView { root_package: rp, dependencies: ds }),
            },
        }
    }
}

proof fn lemma_build_package_active(
    g: ResolvedGraphView,
    p: GraphPackageView,
    optional: bool,
    active: bool,
    pv: PackageView,
)
    requires
        spec_build_package(g, p, optional, active) == Ok::<PackageView, ExportErrorView>(pv),
    ensures
        pv.active ==> pv.globally_active,
{
}

proof fn lemma_dep_entries_active(
    g: ResolvedGraphView,
    root: GraphPackageView,
    ds: Seq<DepInfoView>,
    entries: Seq<PackageView>,
)
    requires
        spec_dep_entries(g, root, ds) == Ok::<Seq<PackageView>, ExportErrorView>(entries),
    ensures
        forall|i: int|
            0 <= i < entries.len() ==> ((#[trigger] entries[i]).active
                ==> entries[i].globally_active),
    decreases ds.len(),
{
    if ds.len() > 0 {
        match spec_dep_entries(g, root, ds.drop_last()) {
            Ok(prefix) => {
                lemma_dep_entries_active(g, root, ds.drop_last(), prefix);
                if ds.last().kind == EdgeKind::Normal {
                    match spec_dep_entry(g, root, ds.last()) {
                        Ok(p) => {
                            let d = ds.last();
                            let fi = first_where(
                                g.packages,
                                |q: GraphPackageView| spec_dep_matches(q, d),
                            );
                            if fi < g.packages.len() {
                                lemma_build_package_active(
                                    g,
                                    g.packages[fi],
                                    d.optional,
                                    !d.optional || contains_str(root.activated_deps, d.name),
                                    p,
                                );
                            }
                        },
                        Err(_) => {},
                    }
                }
            },
            Err(_) => {},
        }
    }
}

/// No package of a classification is active on its edge without also
/// being globally active: the root is classified active only when it is
/// reachable through a normal edge, and a dependency entry whose package
/// breaks the rule makes the whole classification fail instead.
pub proof fn lemma_active_implies_globally_active(
    g: ResolvedGraphView,
    req: PackageVerView,
    deps: bool,
    info: ExportInfoView,
)
    requires
        spec_build_export_info(g, req, deps) == Ok::<ExportInfoView, ExportErrorView>(info),
    ensures
        info.root_package.active ==> info.root_package.globally_active,
        forall|i: int|
            0 <= i < info.dependencies.len() ==> ((#[trigger] info.dependencies[i]).active
                ==> info.dependencies[i].globally_active),
{
    let ms = spec_matching(g.packages, req);
    let root = ms[0];
    let wanted = if deps {
        root.dependencies
    } else {
        Seq::<DepInfoView>::empty()
    };
    match spec_dep_entries(g, root, wanted) {
        Ok(ds) => {
            lemma_dep_entries_active(g, root, wanted, ds);
            match spec_build_package(g, root, false, true) {
                Ok(rp) => {
                    lemma_build_package_active(g, root, false, true, rp);
                },
                Err(_) => {},
            }
        },
        Err(_) => {},
    }
}

/// A package reached only through development or build edges (at least
/// one such edge, and no normal edge on any path) is not globally active.
pub proof fn lemma_dev_build_only_not_globally_active(steps: Seq<PathStepView>)
    requires
        count_kind(steps, EdgeKind::Normal) == 0,
        count_kind(steps, EdgeKind::Development) + count_kind(steps, EdgeKind::Build) > 0,
    ensures
        !spec_globally_active(steps),
{
}

/// A package reached through at least one normal edge is globally active,
/// whatever development or build edges also appear; so is a package with
/// no development or build edge on any path, the root with its
/// zero-length path included.
pub proof fn lemma_normal_edge_globally_active(steps: Seq<PathStepView>)
    ensures
        count_kind(steps, EdgeKind::Normal) > 0 ==> spec_globally_active(steps),
        count_kind(steps, EdgeKind::Development) == 0 && count_kind(steps, EdgeKind::Build) == 0
            ==> spec_globally_active(steps),
{
}

/// Classifying the same package twice from the same graph snapshot yields
/// identical export values: the classification is a function of the
/// snapshot and nothing else.
pub proof fn lemma_classification_idempotent(
    g: ResolvedGraphView,
    p: GraphPackageView,
    optional: bool,
    active: bool,
    a: PackageView,
    b: PackageView,
)
    requires
        spec_build_package(g, p, optional, active) == Ok::<PackageView, ExportErrorView>(a),
        spec_build_package(g, p, optional, active) == Ok::<PackageView, ExportErrorView>(b),
    ensures
        a == b,
{
}

/// A feature is an implicit alias (`optional`) exactly when its single
/// child token is the weak-dependency marker followed by the feature's
/// own name; any other single-child or multi-child feature is not.
pub proof fn lemma_feature_alias_iff(
    df: DeclaredFeatureView,
    activated: Seq<Seq<char>>,
    deps: Seq<DepInfoView>,
)
    ensures
        spec_feature(df, activated, deps).optional <==> (df.childs.len() == 1 && df.childs[0]
            == dep_prefix() + df.name),
{
}

/// Every `Optional` entry stands for a declared optional dependency, and
/// its `active` flag is true iff some active feature's child list
/// contains, after cleaning, that dependency's name — also when a feature
/// lists the dependency without the weak marker.
pub proof fn lemma_optionals_entries(deps: Seq<DepInfoView>, feats: Seq<FeatureView>, j: int)
    requires
        0 <= j < spec_optionals(deps, feats).len(),
    ensures
        exists|i: int|
            0 <= i < deps.len() && (#[trigger] deps[i]).optional && spec_optionals(deps, feats)[j]
                == (OptionalView {
                name: deps[i].name,
                active: spec_optional_active(feats, deps[i].name),
            }),
    decreases deps.len(),
{
    let os = spec_optionals(deps, feats);
    let prefix = spec_optionals(deps.drop_last(), feats);
    if j < prefix.len() {
        lemma_optionals_entries(deps.drop_last(), feats, j);
        let i = choose|i: int|
            0 <= i < deps.drop_last().len() && (#[trigger] deps.drop_last()[i]).optional
                && spec_optionals(deps.drop_last(), feats)[j] == (OptionalView {
                name: deps.drop_last()[i].name,
                active: spec_optional_active(feats, deps.drop_last()[i].name),
            });
        assert(deps[i] == deps.drop_last()[i]);
        assert(os[j] == prefix[j]);
    } else {
        let i = deps.len() - 1;
        assert(deps[i].optional && os[j] == (OptionalView {
            name: deps[i].name,
            active: spec_optional_active(feats, deps[i].name),
        }));
    }
}

fn matches_request(p: &GraphPackage, req: &PackageVer) -> (r: bool)
    ensures
        r == spec_matches_request(p.deep_view(), req.deep_view()),
{
    if !(p.name == req.name) {
        return false;
    }
    match &req.version {
        None => true,
        Some(v) => match req_matches(v, &p.version) {
            Some(b) => b,
            None => false,
        },
    }
}

fn dep_pkg_matches(p: &GraphPackage, d: &DepInfo) -> (r: bool)
    ensures
        r == spec_dep_matches(p.deep_view(), d.deep_view()),
{
    if !(p.name == d.name) {
        return false;
    }
    match req_matches(&d.version_req, &p.version) {
        Some(b) => b,
        None => false,
    }
}

fn find_dep_package(graph: &ResolvedGraph, d: &DepInfo) -> (r: Option<usize>)
    ensures
        ({
            let fi = first_where(
                graph.deep_view().packages,
                |p: GraphPackageView| spec_dep_matches(p, d.deep_view()),
            );
            match r {
                Some(j) => j == fi && fi < graph.deep_view().packages.len(),
                None => fi == graph.deep_view().packages.len(),
            }
        }),
{
    let ghost pkgs = graph.deep_view().packages;
    let mut i: usize = 0;
    while i < graph.packages.len()
        invariant
            0 <= i <= graph.packages.len(),
            pkgs == graph.deep_view().packages,
            pkgs.len() == graph.packages@.len(),
            forall|j: int| 0 <= j < i ==> !spec_dep_matches(#[trigger] pkgs[j], d.deep_view()),
        decreases graph.packages.len() - i,
    {
        if dep_pkg_matches(&graph.packages[i], d) {
            proof {
                lemma_first_where_is(
                    pkgs,
                    |p: GraphPackageView| spec_dep_matches(p, d.deep_view()),
                    i as int,
                );
            }
            return Some(i);
        }
        i = i + 1;
    }
    proof {
        lemma_first_where_is(
            pkgs,
            |p: GraphPackageView| spec_dep_matches(p, d.deep_view()),
            pkgs.len() as int,
        );
    }
    None
}

/// Classifies the requested package, and when `deps` is set also its
/// direct normal dependencies, against the resolved graph.
pub fn build_export_info(graph: &ResolvedGraph, root_package: PackageVer, deps: bool) -> (r: Result<
    ExportInfo,
    ExportError,
>)
    ensures
        match r {
            Ok(info) => spec_build_export_info(graph.deep_view(), root_package.deep_view(), deps)
                == Ok::<ExportInfoView, ExportErrorView>(info.deep_view()),
            Err(e) => spec_build_export_info(graph.deep_view(), root_package.deep_view(), deps)
                == Err::<ExportInfoView, ExportErrorView>(e.deep_view()),
        },
{
    let ghost gv = graph.deep_view();
    let ghost reqv = root_package.deep_view();
    let mut count: usize = 0;
    let mut first: usize = 0;
    let mut candidates: Vec<Candidate> = Vec::new();
    let mut i: usize = 0;
    while i < graph.packages.len()
        invariant
            0 <= i <= graph.packages.len(),
            gv == graph.deep_view(),
            reqv == root_package.deep_view(),
            gv.packages.len() == graph.packages@.len(),
            count == spec_matching(gv.packages.take(i as int), reqv).len(),
            count <= i,
            candidates.deep_view() == spec_candidates(gv.packages.take(i as int), reqv),
            count > 0 ==> first < i && gv.packages[first as int] == spec_matching(
                gv.packages.take(i as int),
                reqv,
            )[0],
        decreases graph.packages.len() - i,
    {
        proof {
            assert(gv.packages.take(i + 1).drop_last() =~= gv.packages.take(i as int));
            assert(gv.packages.take(i + 1).last() == gv.packages[i as int]);
        }
        if matches_request(&graph.packages[i], &root_package) {
            if count == 0 {
                first = i;
            }
            count = count + 1;
            let ghost pre = candidates;
            let c = Candidate {
                name: graph.packages[i].name.clone(),
                version: graph.packages[i].version.clone(),
            };
            let ghost cg = c;
            candidates.push(c);
            proof {
                lemma_deep_view_push(pre, candidates, cg);
                assert(candidates.deep_view() =~= spec_candidates(gv.packages.take(i + 1), reqv));
            }
        }
        i = i + 1;
    }
    proof {
        assert(gv.packages.take(graph.packages@.len() as int) =~= gv.packages);
    }
    if count == 0 {
        return Err(ExportError::PackageNotFound { name: root_package.name });
    }
    if count >= 2 {
        return Err(ExportError::AmbiguousPackage { candidates });
    }
    let root = &graph.packages[first];
    let ghost rootv = spec_matching(gv.packages, reqv)[0];
    proof {
        assert(root.deep_view() == rootv);
    }
    let ghost wanted = if deps {
        rootv.dependencies
    } else {
        Seq::<DepInfoView>::empty()
    };
    let mut export_dependencies: Vec<Package> = Vec::new();
    proof {
        assert(export_dependencies.deep_view() =~= Seq::<PackageView>::empty());
    }
    if deps {
        let mut k: usize = 0;
        while k < root.dependencies.len()
            invariant
                0 <= k <= root.dependencies.len(),
                gv == graph.deep_view(),
                rootv == root.deep_view(),
                root == graph.packages@[first as int],
                first < graph.packages@.len(),
                rootv.dependencies.len() == root.dependencies@.len(),
                deps,
                reqv == root_package.deep_view(),
                spec_matching(gv.packages, reqv).len() == 1,
                rootv == spec_matching(gv.packages, reqv)[0],
                spec_dep_entries(gv, rootv, rootv.dependencies.take(k as int)) == Ok::<
                    Seq<PackageView>,
                    ExportErrorView,
                >(export_dependencies.deep_view()),
            decreases root.dependencies.len() - k,
        {
            proof {
                assert(rootv.dependencies.take(k + 1).drop_last() =~= rootv.dependencies.take(
                    k as int,
                ));
                assert(rootv.dependencies.take(k + 1).last() == rootv.dependencies[k as int]);
            }
            let d = &root.dependencies[k];
            let is_normal = match d.kind {
                EdgeKind::Normal => true,
                _ => false,
            };
            if is_normal {
                let activated = contains_string(&root.activated_deps, &d.name);
                let active = !d.optional || activated;
                let entry = match find_dep_package(graph, d) {
                    Some(j) => {
                        match build_package(graph, &graph.packages[j], d.optional, active) {
                            Ok(p) => p,
                            Err(e) => {
                                proof {
                                    assert(spec_dep_entries(
                                        gv,
                                        rootv,
                                        rootv.dependencies.take(k + 1),
                                    ) == Err::<Seq<PackageView>, ExportErrorView>(e.deep_view()));
                                    lemma_dep_entries_err(
                                        gv,
                                        rootv,
                                        rootv.dependencies,
                                        k + 1,
                                    );
                                    assert(spec_build_export_info(gv, reqv, true)
                                        == Err::<ExportInfoView, ExportErrorView>(e.deep_view()));
                                }
                                return Err(e);
                            },
                        }
                    },
                    None => Package {
                        name: d.name.clone(),
                        version: d.version_req.clone(),
                        optional: d.optional,
                        active: false,
                        globally_active: false,
                        features: Vec::new(),
                        optionals: Vec::new(),
                    },
                };
                proof {
                    assert(spec_dep_entry(gv, rootv, rootv.dependencies[k as int]) matches Ok(pv)
                        && pv =~= entry.deep_view());
                }
                let ghost pre = export_dependencies;
                let ghost eg = entry;
                export_dependencies.push(entry);
                proof {
                    lemma_deep_view_push(pre, export_dependencies, eg);
                }
            }
            k = k + 1;
        }
        proof {
            assert(rootv.dependencies.take(root.dependencies@.len() as int)
                =~= rootv.dependencies);
        }
    }
    proof {
        assert(spec_dep_entries(gv, rootv, wanted) == Ok::<Seq<PackageView>, ExportErrorView>(
            export_dependencies.deep_view(),
        ));
    }
    match build_package(graph, root, false, true) {
        Ok(rp) => {
            let info = ExportInfo { root_package: rp, dependencies: export_dependencies };
            proof {
                assert(spec_build_export_info(gv, reqv, deps) matches Ok(iv) && iv =~= info
                    .deep_view());
            }
            Ok(info)
        },
        Err(e) => Err(e),
    }
}

} // verus!
