//! The classified, presentation-ready export model.

use vstd::prelude::*;

verus! {

/// Top-level result: one classified root package plus zero or more
/// classified direct dependencies.
#[derive(Debug, PartialEq, Eq)]
pub struct ExportInfo {
    pub root_package: Package,
    pub dependencies: Vec<Package>,
}

/// The classified view of one package.
#[derive(Debug, PartialEq, Eq)]
pub struct Package {
    pub name: String,
    pub version: String,
    pub optional: bool,
    pub active: bool,
    pub globally_active: bool,
    pub features: Vec<Feature>,
    pub optionals: Vec<Optional>,
}

/// One declared feature of a package.
#[derive(Debug, PartialEq, Eq)]
pub struct Feature {
    pub name: String,
    pub active: bool,
    pub optional: bool,
    pub childs: Vec<Child>,
}

/// One raw child token of a feature, annotated with whether it denotes an
/// optional dependency.
#[derive(Debug, PartialEq, Eq)]
pub struct Child {
    pub name: String,
    pub optional: bool,
}

/// One optional dependency of a package, annotated with whether some
/// active feature enables it.
#[derive(Debug, PartialEq, Eq)]
pub struct Optional {
    pub name: String,
    pub active: bool,
}

#[verifier::ext_equal]
pub ghost struct ChildView {
    pub name: Seq<char>,
    pub optional: bool,
}

#[verifier::ext_equal]
pub ghost struct FeatureView {
    pub name: Seq<char>,
    pub active: bool,
    pub optional: bool,
    pub childs: Seq<ChildView>,
}

#[verifier::ext_equal]
pub ghost struct OptionalView {
    pub name: Seq<char>,
    pub active: bool,
}

#[verifier::ext_equal]
pub ghost struct PackageView {
    pub name: Seq<char>,
    pub version: Seq<char>,
    pub optional: bool,
    pub active: bool,
    pub globally_active: bool,
    pub features: Seq<FeatureView>,
    pub optionals: Seq<OptionalView>,
}

#[verifier::ext_equal]
pub ghost struct ExportInfoView {
    pub root_package: PackageView,
    pub dependencies: Seq<PackageView>,
}

impl DeepView for Child {
    type V = ChildView;

    open spec fn deep_view(&self) -> ChildView {
        ChildView { name: self.name@, optional: self.optional }
    }
}

impl DeepView for Feature {
    type V = FeatureView;

    open spec fn deep_view(&self) -> FeatureView {
        FeatureView {
            name: self.name@,
            active: self.active,
            optional: self.optional,
            childs: self.childs.deep_view(),
        }
    }
}

impl DeepView for Optional {
    type V = OptionalView;

    open spec fn deep_view(&self) -> OptionalView {
        OptionalView { name: self.name@, active: self.active }
    }
}

impl DeepView for Package {
    type V = PackageView;

    open spec fn deep_view(&self) -> PackageView {
        PackageView {
            name: self.name@,
            version: self.version@,
            optional: self.optional,
            active: self.active,
            globally_active: self.globally_active,
            features: self.features.deep_view(),
            optionals: self.optionals.deep_view(),
        }
    }
}

impl DeepView for ExportInfo {
    type V = ExportInfoView;

    open spec fn deep_view(&self) -> ExportInfoView {
        ExportInfoView {
            root_package: self.root_package.deep_view(),
            dependencies: self.dependencies.deep_view(),
        }
    }
}

impl Child {
    /// A copy whose view is the same.
    pub fn duplicate(&self) -> (r: Child)
        ensures
            r.deep_view() == self.deep_view(),
    {
        Child { name: self.name.clone(), optional: self.optional }
    }
}

impl Feature {
    /// A copy whose view is the same.
    pub fn duplicate(&self) -> (r: Feature)
        ensures
            r.deep_view() == self.deep_view(),
    {
        let mut childs: Vec<Child> = Vec::new();
        let mut i: usize = 0;
        while i < self.childs.len()
            invariant
                0 <= i <= self.childs.len(),
                childs@.len() == i,
                forall|k: int| 0 <= k < i ==> childs.deep_view()[k] == self.childs.deep_view()[k],
            decreases self.childs.len() - i,
        {
            let ghost pre = childs;
            childs.push(self.childs[i].duplicate());
            proof {
                assert forall|k: int| 0 <= k < i implies childs.deep_view()[k]
                    == self.childs.deep_view()[k] by {
                    assert(childs@[k] == pre@[k]);
                    assert(pre.deep_view()[k] == self.childs.deep_view()[k]);
                }
            }
            i = i + 1;
        }
        assert(childs.deep_view() =~= self.childs.deep_view());
        Feature { name: self.name.clone(), active: self.active, optional: self.optional, childs }
    }
}

impl Optional {
    /// A copy whose view is the same.
    pub fn duplicate(&self) -> (r: Optional)
        ensures
            r.deep_view() == self.deep_view(),
    {
        Optional { name: self.name.clone(), active: self.active }
    }
}

impl Package {
    /// A copy whose view is the same.
    pub fn duplicate(&self) -> (r: Package)
        ensures
            r.deep_view() == self.deep_view(),
    {
        let mut features: Vec<Feature> = Vec::new();
        let mut i: usize = 0;
        while i < self.features.len()
            invariant
                0 <= i <= self.features.len(),
                features@.len() == i,
                forall|k: int| 0 <= k < i ==> features.deep_view()[k] == self.features.deep_view()[k],
            decreases self.features.len() - i,
        {
            let ghost pre = features;
            features.push(self.features[i].duplicate());
            proof {
                assert forall|k: int| 0 <= k < i implies features.deep_view()[k]
                    == self.features.deep_view()[k] by {
                    assert(features@[k] == pre@[k]);
                    assert(pre.deep_view()[k] == self.features.deep_view()[k]);
                }
            }
            i = i + 1;
        }
        assert(features.deep_view() =~= self.features.deep_view());
        let mut optionals: Vec<Optional> = Vec::new();
        let mut j: usize = 0;
        while j < self.optionals.len()
            invariant
                0 <= j <= self.optionals.len(),
                optionals@.len() == j,
                forall|k: int| 0 <= k < j ==> optionals.deep_view()[k] == self.optionals.deep_view()[k],
            decreases self.optionals.len() - j,
        {
            let ghost pre = optionals;
            optionals.push(self.optionals[j].duplicate());
            proof {
                assert forall|k: int| 0 <= k < j implies optionals.deep_view()[k]
                    == self.optionals.deep_view()[k] by {
                    assert(optionals@[k] == pre@[k]);
                    assert(pre.deep_view()[k] == self.optionals.deep_view()[k]);
                }
            }
            j = j + 1;
        }
        assert(optionals.deep_view() =~= self.optionals.deep_view());
        Package {
            name: self.name.clone(),
            version: self.version.clone(),
            optional: self.optional,
            active: self.active,
            globally_active: self.globally_active,
            features,
            optionals,
        }
    }
}

impl ExportInfo {
    /// A copy whose view is the same.
    pub fn duplicate(&self) -> (r: ExportInfo)
        ensures
            r.deep_view() == self.deep_view(),
    {
        let mut dependencies: Vec<Package> = Vec::new();
        let mut i: usize = 0;
        while i < self.dependencies.len()
            invariant
                0 <= i <= self.dependencies.len(),
                dependencies@.len() == i,
                forall|k: int| 0 <= k < i ==> dependencies.deep_view()[k] == self.dependencies.deep_view()[k],
            decreases self.dependencies.len() - i,
        {
            let ghost pre = dependencies;
            dependencies.push(self.dependencies[i].duplicate());
            proof {
                assert forall|k: int| 0 <= k < i implies dependencies.deep_view()[k]
                    == self.dependencies.deep_view()[k] by {
                    assert(dependencies@[k] == pre@[k]);
                    assert(pre.deep_view()[k] == self.dependencies.deep_view()[k]);
                }
            }
            i = i + 1;
        }
        assert(dependencies.deep_view() =~= self.dependencies.deep_view());
        ExportInfo { root_package: self.root_package.duplicate(), dependencies }
    }
}

} // verus!
