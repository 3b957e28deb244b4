//! The resolved-graph snapshot the classification runs against.
//!
//! The external resolver's output is consumed as plain data: for every
//! package its declared features, its declared dependencies, its resolved
//! activated-feature set, the dependency names activated for it, and the
//! edges on its paths up to the workspace root.

use vstd::prelude::*;
use vstd::string::{StrSliceExecFns, StringExecFns};

use crate::seqs::{first_where, lemma_first_where_is};

verus! {

/// The kind of a dependency edge.
#[derive(Clone, Copy, PartialEq, Eq, Structural, Debug)]
pub enum EdgeKind {
    Normal,
    Development,
    Build,
}

/// One step on a package's path up to the workspace root: the dependency
/// edges used at that step, if any.
pub struct PathStep {
    pub edges: Option<Vec<EdgeKind>>,
}

pub ghost struct PathStepView {
    pub edges: Option<Seq<EdgeKind>>,
}

impl DeepView for PathStep {
    type V = PathStepView;

    open spec fn deep_view(&self) -> PathStepView {
        PathStepView {
            edges: match self.edges {
                Option::Some(v) => Option::Some(v@),
                Option::None => Option::None,
            },
        }
    }
}

/// One declared dependency of a package.
pub struct DepInfo {
    pub name: String,
    pub version_req: String,
    pub optional: bool,
    pub kind: EdgeKind,
}

pub ghost struct DepInfoView {
    pub name: Seq<char>,
    pub version_req: Seq<char>,
    pub optional: bool,
    pub kind: EdgeKind,
}

impl DeepView for DepInfo {
    type V = DepInfoView;

    open spec fn deep_view(&self) -> DepInfoView {
        DepInfoView {
            name: self.name@,
            version_req: self.version_req@,
            optional: self.optional,
            kind: self.kind,
        }
    }
}

/// One declared feature of a package: its name and its raw child tokens.
pub struct DeclaredFeature {
    pub name: String,
    pub childs: Vec<String>,
}

pub ghost struct DeclaredFeatureView {
    pub name: Seq<char>,
    pub childs: Seq<Seq<char>>,
}

impl DeepView for DeclaredFeature {
    type V = DeclaredFeatureView;

    open spec fn deep_view(&self) -> DeclaredFeatureView {
        DeclaredFeatureView { name: self.name@, childs: self.childs.deep_view() }
    }
}

/// One package of the resolved graph.
pub struct GraphPackage {
    pub name: String,
    pub version: String,
    pub features: Vec<DeclaredFeature>,
    pub dependencies: Vec<DepInfo>,
    pub activated_features: Option<Vec<String>>,
    pub activated_deps: Vec<String>,
    pub path_steps: Vec<PathStep>,
}

pub ghost struct GraphPackageView {
    pub name: Seq<char>,
    pub version: Seq<char>,
    pub features: Seq<DeclaredFeatureView>,
    pub dependencies: Seq<DepInfoView>,
    pub activated_features: Option<Seq<Seq<char>>>,
    pub activated_deps: Seq<Seq<char>>,
    pub path_steps: Seq<PathStepView>,
}

impl DeepView for GraphPackage {
    type V = GraphPackageView;

    open spec fn deep_view(&self) -> GraphPackageView {
        GraphPackageView {
            name: self.name@,
            version: self.version@,
            features: self.features.deep_view(),
            dependencies: self.dependencies.deep_view(),
            activated_features: match self.activated_features {
                Option::Some(v) => Option::Some(v.deep_view()),
                Option::None => Option::None,
            },
            activated_deps: self.activated_deps.deep_view(),
            path_steps: self.path_steps.deep_view(),
        }
    }
}

/// The resolved graph: its packages, and whether the resolver could
/// produce path-to-root information at all.
pub struct ResolvedGraph {
    pub packages: Vec<GraphPackage>,
    pub has_resolve: bool,
}

pub ghost struct ResolvedGraphView {
    pub packages: Seq<GraphPackageView>,
    pub has_resolve: bool,
}

impl DeepView for ResolvedGraph {
    type V = ResolvedGraphView;

    open spec fn deep_view(&self) -> ResolvedGraphView {
        ResolvedGraphView { packages: self.packages.deep_view(), has_resolve: self.has_resolve }
    }
}

/// A user's request: a package name with an optional version constraint.
#[derive(Debug, PartialEq, Eq)]
pub struct PackageVer {
    pub name: String,
    pub version: Option<String>,
}

#[verifier::ext_equal]
pub ghost struct PackageVerView {
    pub name: Seq<char>,
    pub version: Option<Seq<char>>,
}

impl DeepView for PackageVer {
    type V = PackageVerView;

    open spec fn deep_view(&self) -> PackageVerView {
        PackageVerView {
            name: self.name@,
            version: match self.version {
                Option::Some(v) => Option::Some(v@),
                Option::None => Option::None,
            },
        }
    }
}

/// How a request is read from `name` or `name@version` text: the part
/// before the first `@` is the name; the part between the first `@` and a
/// second `@` (or the end) is the version.
pub open spec fn spec_package_ver_of(s: Seq<char>) -> PackageVerView {
    let i = first_where(s, |c: char| c == '@');
    if i == s.len() {
        PackageVerView { name: s, version: Option::None }
    } else {
        let rest = s.skip(i + 1);
        PackageVerView {
            name: s.take(i),
            version: Option::Some(rest.take(first_where(rest, |c: char| c == '@'))),
        }
    }
}

fn index_of_at(s: &str) -> (r: usize)
    ensures
        r == first_where(s@, |c: char| c == '@'),
        r <= s@.len(),
{
    let n = s.unicode_len();
    let mut i: usize = 0;
    while i < n && s.get_char(i) != '@'
        invariant
            0 <= i <= n,
            n == s@.len(),
            forall|j: int| 0 <= j < i ==> (#[trigger] s@[j]) != '@',
        decreases n - i,
    {
        i = i + 1;
    }
    proof {
        lemma_first_where_is(s@, |c: char| c == '@', i as int);
    }
    i
}

impl PackageVer {
    /// Reads a request from `name` or `name@version` text.
    pub fn from(package_ver: String) -> (r: PackageVer)
        ensures
            r.deep_view() == spec_package_ver_of(package_ver@),
    {
        let s = package_ver.as_str();
        let n = s.unicode_len();
        let i = index_of_at(s);
        if i == n {
            PackageVer { name: String::from_str(s), version: None }
        } else {
            let name = String::from_str(s.substring_char(0, i));
            let rest = s.substring_char(i + 1, n);
            let j = index_of_at(rest);
            let version = String::from_str(rest.substring_char(0, j));
            PackageVer { name, version: Some(version) }
        }
    }
}

} // verus!
