//! The display model: ordering and styled text spans.
//!
//! Rendering decisions — what is shown for a package, in which order, and
//! with which style — are computed here over the classified export model.
//! The result is a sequence of styled spans; actually colorizing and
//! writing them to a terminal is left to the caller.

use vstd::prelude::*;
use vstd::string::{StrSliceExecFns, StringExecFns};

use crate::export_info::{
    Child, ChildView, ExportInfo, ExportInfoView, Feature, FeatureView, Optional, OptionalView,
    Package, PackageView,
};
use crate::names::str_eq;
use crate::seqs::{lemma_deep_view_insert, lemma_deep_view_push};

verus! {

/// The outcome of a comparison.
#[derive(Clone, Copy, PartialEq, Eq, Structural, Debug)]
pub enum Rank {
    Less,
    Equal,
    Greater,
}

/// The second comparison decides only where the first is a tie.
pub open spec fn rank_then(r: Rank, next: Rank) -> Rank {
    if r == Rank::Equal {
        next
    } else {
        r
    }
}

/// Character-wise lexicographic comparison by scalar value.
pub open spec fn spec_cmp_str(a: Seq<char>, b: Seq<char>) -> Rank
    decreases a.len(),
{
    if a.len() == 0 && b.len() == 0 {
        Rank::Equal
    } else if a.len() == 0 {
        Rank::Less
    } else if b.len() == 0 {
        Rank::Greater
    } else if (a[0] as u32) < (b[0] as u32) {
        Rank::Less
    } else if (a[0] as u32) > (b[0] as u32) {
        Rank::Greater
    } else {
        spec_cmp_str(a.drop_first(), b.drop_first())
    }
}

/// `false` orders before `true`.
pub open spec fn spec_cmp_bool(a: bool, b: bool) -> Rank {
    if a == b {
        Rank::Equal
    } else if !a {
        Rank::Less
    } else {
        Rank::Greater
    }
}

/// Children order by name, then by the optional flag.
pub open spec fn spec_cmp_child(a: ChildView, b: ChildView) -> Rank {
    rank_then(spec_cmp_str(a.name, b.name), spec_cmp_bool(a.optional, b.optional))
}

/// Lexicographic comparison of child lists.
pub open spec fn spec_cmp_childs(a: Seq<ChildView>, b: Seq<ChildView>) -> Rank
    decreases a.len(),
{
    if a.len() == 0 && b.len() == 0 {
        Rank::Equal
    } else if a.len() == 0 {
        Rank::Less
    } else if b.len() == 0 {
        Rank::Greater
    } else if spec_cmp_child(a[0], b[0]) != Rank::Equal {
        spec_cmp_child(a[0], b[0])
    } else {
        spec_cmp_childs(a.drop_first(), b.drop_first())
    }
}

/// Features order with `default` first, then by name, activity and
/// children.
pub open spec fn spec_cmp_feature(a: FeatureView, b: FeatureView) -> Rank {
    if a.name == "default"@ {
        Rank::Less
    } else {
        rank_then(
            spec_cmp_str(a.name, b.name),
            rank_then(spec_cmp_bool(a.active, b.active), spec_cmp_childs(a.childs, b.childs)),
        )
    }
}

/// Lexicographic comparison of feature lists.
pub open spec fn spec_cmp_features(a: Seq<FeatureView>, b: Seq<FeatureView>) -> Rank
    decreases a.len(),
{
    if a.len() == 0 && b.len() == 0 {
        Rank::Equal
    } else if a.len() == 0 {
        Rank::Less
    } else if b.len() == 0 {
        Rank::Greater
    } else if spec_cmp_feature(a[0], b[0]) != Rank::Equal {
        spec_cmp_feature(a[0], b[0])
    } else {
        spec_cmp_features(a.drop_first(), b.drop_first())
    }
}

/// Optionals order by name, then by the active flag.
pub open spec fn spec_cmp_optional(a: OptionalView, b: OptionalView) -> Rank {
    rank_then(spec_cmp_str(a.name, b.name), spec_cmp_bool(a.active, b.active))
}

/// Lexicographic comparison of optional lists.
pub open spec fn spec_cmp_optionals(a: Seq<OptionalView>, b: Seq<OptionalView>) -> Rank
    decreases a.len(),
{
    if a.len() == 0 && b.len() == 0 {
        Rank::Equal
    } else if a.len() == 0 {
        Rank::Less
    } else if b.len() == 0 {
        Rank::Greater
    } else if spec_cmp_optional(a[0], b[0]) != Rank::Equal {
        spec_cmp_optional(a[0], b[0])
    } else {
        spec_cmp_optionals(a.drop_first(), b.drop_first())
    }
}

/// Packages order by every field in declaration order.
pub open spec fn spec_cmp_package(a: PackageView, b: PackageView) -> Rank {
    rank_then(
        spec_cmp_str(a.name, b.name),
        rank_then(
            spec_cmp_str(a.version, b.version),
            rank_then(
                spec_cmp_bool(a.optional, b.optional),
                rank_then(
                    spec_cmp_bool(a.active, b.active),
                    rank_then(
                        spec_cmp_bool(a.globally_active, b.globally_active),
                        rank_then(
                            spec_cmp_features(a.features, b.features),
                            spec_cmp_optionals(a.optionals, b.optionals),
                        ),
                    ),
                ),
            ),
        ),
    )
}

/// Comparison of string slices.
pub fn cmp_str(a: &str, b: &str) -> (r: Rank)
    ensures
        r == spec_cmp_str(a@, b@),
{
    let an = a.unicode_len();
    let bn = b.unicode_len();
    let mut i: usize = 0;
    proof {
        assert(a@.skip(0) =~= a@);
        assert(b@.skip(0) =~= b@);
    }
    while i < an && i < bn
        invariant
            0 <= i <= an,
            0 <= i <= bn,
            an == a@.len(),
            bn == b@.len(),
            spec_cmp_str(a@, b@) == spec_cmp_str(a@.skip(i as int), b@.skip(i as int)),
        decreases an - i,
    {
        let ca = a.get_char(i) as u32;
        let cb = b.get_char(i) as u32;
        proof {
            assert(a@.skip(i as int)[0] == a@[i as int]);
            assert(b@.skip(i as int)[0] == b@[i as int]);
            assert(a@.skip(i as int).drop_first() =~= a@.skip(i + 1));
            assert(b@.skip(i as int).drop_first() =~= b@.skip(i + 1));
        }
        if ca < cb {
            return Rank::Less;
        }
        if ca > cb {
            return Rank::Greater;
        }
        i = i + 1;
    }
    proof {
        if i == an {
            assert(a@.skip(i as int) =~= Seq::<char>::empty());
        }
        if i == bn {
            assert(b@.skip(i as int) =~= Seq::<char>::empty());
        }
    }
    if an == bn {
        Rank::Equal
    } else if i == an {
        Rank::Less
    } else {
        Rank::Greater
    }
}

fn cmp_bool(a: bool, b: bool) -> (r: Rank)
    ensures
        r == spec_cmp_bool(a, b),
{
    if a == b {
        Rank::Equal
    } else if !a {
        Rank::Less
    } else {
        Rank::Greater
    }
}

fn cmp_child(a: &Child, b: &Child) -> (r: Rank)
    ensures
        r == spec_cmp_child(a.deep_view(), b.deep_view()),
{
    let by_name = cmp_str(a.name.as_str(), b.name.as_str());
    if by_name != Rank::Equal {
        by_name
    } else {
        cmp_bool(a.optional, b.optional)
    }
}

fn cmp_childs(a: &Vec<Child>, b: &Vec<Child>) -> (r: Rank)
    ensures
        r == spec_cmp_childs(a.deep_view(), b.deep_view()),
{
    let mut i: usize = 0;
    proof {
        assert(a.deep_view().skip(0) =~= a.deep_view());
        assert(b.deep_view().skip(0) =~= b.deep_view());
    }
    while i < a.len() && i < b.len()
        invariant
            0 <= i <= a@.len(),
            0 <= i <= b@.len(),
            spec_cmp_childs(a.deep_view(), b.deep_view()) == spec_cmp_childs(
                a.deep_view().skip(i as int),
                b.deep_view().skip(i as int),
            ),
        decreases a@.len() - i,
    {
        proof {
            assert(a.deep_view().skip(i as int)[0] == a.deep_view()[i as int]);
            assert(b.deep_view().skip(i as int)[0] == b.deep_view()[i as int]);
            assert(a.deep_view().skip(i as int).drop_first() =~= a.deep_view().skip(i + 1));
            assert(b.deep_view().skip(i as int).drop_first() =~= b.deep_view().skip(i + 1));
        }
        let c = cmp_child(&a[i], &b[i]);
        if c != Rank::Equal {
            return c;
        }
        i = i + 1;
    }
    proof {
        if i == a@.len() {
            assert(a.deep_view().skip(i as int) =~= Seq::<ChildView>::empty());
        }
        if i == b@.len() {
            assert(b.deep_view().skip(i as int) =~= Seq::<ChildView>::empty());
        }
    }
    if a.len() == b.len() {
        Rank::Equal
    } else if i == a.len() {
        Rank::Less
    } else {
        Rank::Greater
    }
}

/// Comparison of features, `default` sorting first.
pub fn cmp_feature(a: &Feature, b: &Feature) -> (r: Rank)
    ensures
        r == spec_cmp_feature(a.deep_view(), b.deep_view()),
{
    if str_eq(a.name.as_str(), "default") {
        return Rank::Less;
    }
    let by_name = cmp_str(a.name.as_str(), b.name.as_str());
    if by_name != Rank::Equal {
        return by_name;
    }
    let by_active = cmp_bool(a.active, b.active);
    if by_active != Rank::Equal {
        return by_active;
    }
    cmp_childs(&a.childs, &b.childs)
}

fn cmp_features(a: &Vec<Feature>, b: &Vec<Feature>) -> (r: Rank)
    ensures
        r == spec_cmp_features(a.deep_view(), b.deep_view()),
{
    let mut i: usize = 0;
    proof {
        assert(a.deep_view().skip(0) =~= a.deep_view());
        assert(b.deep_view().skip(0) =~= b.deep_view());
    }
    while i < a.len() && i < b.len()
        invariant
            0 <= i <= a@.len(),
            0 <= i <= b@.len(),
            spec_cmp_features(a.deep_view(), b.deep_view()) == spec_cmp_features(
                a.deep_view().skip(i as int),
                b.deep_view().skip(i as int),
            ),
        decreases a@.len() - i,
    {
        proof {
            assert(a.deep_view().skip(i as int)[0] == a.deep_view()[i as int]);
            assert(b.deep_view().skip(i as int)[0] == b.deep_view()[i as int]);
            assert(a.deep_view().skip(i as int).drop_first() =~= a.deep_view().skip(i + 1));
            assert(b.deep_view().skip(i as int).drop_first() =~= b.deep_view().skip(i + 1));
        }
        let c = cmp_feature(&a[i], &b[i]);
        if c != Rank::Equal {
            return c;
        }
        i = i + 1;
    }
    proof {
        if i == a@.len() {
            assert(a.deep_view().skip(i as int) =~= Seq::<FeatureView>::empty());
        }
        if i == b@.len() {
            assert(b.deep_view().skip(i as int) =~= Seq::<FeatureView>::empty());
        }
    }
    if a.len() == b.len() {
        Rank::Equal
    } else if i == a.len() {
        Rank::Less
    } else {
        Rank::Greater
    }
}

fn cmp_optional(a: &Optional, b: &Optional) -> (r: Rank)
    ensures
        r == spec_cmp_optional(a.deep_view(), b.deep_view()),
{
    let by_name = cmp_str(a.name.as_str(), b.name.as_str());
    if by_name != Rank::Equal {
        by_name
    } else {
        cmp_bool(a.active, b.active)
    }
}

fn cmp_optionals(a: &Vec<Optional>, b: &Vec<Optional>) -> (r: Rank)
    ensures
        r == spec_cmp_optionals(a.deep_view(), b.deep_view()),
{
    let mut i: usize = 0;
    proof {
        assert(a.deep_view().skip(0) =~= a.deep_view());
        assert(b.deep_view().skip(0) =~= b.deep_view());
    }
    while i < a.len() && i < b.len()
        invariant
            0 <= i <= a@.len(),
            0 <= i <= b@.len(),
            spec_cmp_optionals(a.deep_view(), b.deep_view()) == spec_cmp_optionals(
                a.deep_view().skip(i as int),
                b.deep_view().skip(i as int),
            ),
        decreases a@.len() - i,
    {
        proof {
            assert(a.deep_view().skip(i as int)[0] == a.deep_view()[i as int]);
            assert(b.deep_view().skip(i as int)[0] == b.deep_view()[i as int]);
            assert(a.deep_view().skip(i as int).drop_first() =~= a.deep_view().skip(i + 1));
            assert(b.deep_view().skip(i as int).drop_first() =~= b.deep_view().skip(i + 1));
        }
        let c = cmp_optional(&a[i], &b[i]);
        if c != Rank::Equal {
            return c;
        }
        i = i + 1;
    }
    proof {
        if i == a@.len() {
            assert(a.deep_view().skip(i as int) =~= Seq::<OptionalView>::empty());
        }
        if i == b@.len() {
            assert(b.deep_view().skip(i as int) =~= Seq::<OptionalView>::empty());
        }
    }
    if a.len() == b.len() {
        Rank::Equal
    } else if i == a.len() {
        Rank::Less
    } else {
        Rank::Greater
    }
}

/// Comparison of classified packages.
pub fn cmp_package(a: &Package, b: &Package) -> (r: Rank)
    ensures
        r == spec_cmp_package(a.deep_view(), b.deep_view()),
{
    let by_name = cmp_str(a.name.as_str(), b.name.as_str());
    if by_name != Rank::Equal {
        return by_name;
    }
    let by_version = cmp_str(a.version.as_str(), b.version.as_str());
    if by_version != Rank::Equal {
        return by_version;
    }
    let by_optional = cmp_bool(a.optional, b.optional);
    if by_optional != Rank::Equal {
        return by_optional;
    }
    let by_active = cmp_bool(a.active, b.active);
    if by_active != Rank::Equal {
        return by_active;
    }
    let by_globally = cmp_bool(a.globally_active, b.globally_active);
    if by_globally != Rank::Equal {
        return by_globally;
    }
    let by_features = cmp_features(&a.features, &b.features);
    if by_features != Rank::Equal {
        return by_features;
    }
    cmp_optionals(&a.optionals, &b.optionals)
}

/// Stable insertion of `x` into a sorted sequence: `x` goes after every
/// element not greater than it.
pub open spec fn spec_insert_by<T>(s: Seq<T>, x: T, leq: spec_fn(T, T) -> bool) -> Seq<T>
    decreases s.len(),
{
    if s.len() == 0 {
        seq![x]
    } else if leq(s.last(), x) {
        s.push(x)
    } else {
        spec_insert_by(s.drop_last(), x, leq).push(s.last())
    }
}

/// Stable insertion sort.
pub open spec fn spec_sort_by<T>(s: Seq<T>, leq: spec_fn(T, T) -> bool) -> Seq<T>
    decreases s.len(),
{
    if s.len() == 0 {
        Seq::empty()
    } else {
        spec_insert_by(spec_sort_by(s.drop_last(), leq), s.last(), leq)
    }
}

/// Where the scan from the right stops, the insertion places the element.
pub proof fn lemma_insert_by_at<T>(s: Seq<T>, x: T, leq: spec_fn(T, T) -> bool, j: int)
    requires
        0 <= j <= s.len(),
        forall|k: int| j <= k < s.len() ==> !leq(#[trigger] s[k], x),
        j > 0 ==> leq(s[j - 1], x),
    ensures
        spec_insert_by(s, x, leq) == s.insert(j, x),
    decreases s.len(),
{
    if s.len() == 0 {
        assert(seq![x] =~= s.insert(0, x));
    } else if j == s.len() {
        assert(leq(s.last(), x));
        assert(s.push(x) =~= s.insert(j, x));
    } else {
        assert(!leq(s.last(), x)) by {
            assert(s[s.len() - 1] == s.last());
        }
        let t = s.drop_last();
        assert forall|k: int| j <= k < t.len() implies !leq(#[trigger] t[k], x) by {
            assert(t[k] == s[k]);
        }
        assert(j > 0 ==> leq(t[j - 1], x)) by {
            if j > 0 {
                assert(t[j - 1] == s[j - 1]);
            }
        }
        lemma_insert_by_at(t, x, leq, j);
        assert(t.insert(j, x).push(s.last()) =~= s.insert(j, x));
    }
}

/// The order used for sorting features.
pub open spec fn feature_leq() -> spec_fn(FeatureView, FeatureView) -> bool {
    |a: FeatureView, b: FeatureView| spec_cmp_feature(a, b) != Rank::Greater
}

/// The order used for sorting childs.
pub open spec fn child_leq() -> spec_fn(ChildView, ChildView) -> bool {
    |a: ChildView, b: ChildView| spec_cmp_child(a, b) != Rank::Greater
}

/// The order used for sorting optionals.
pub open spec fn optional_leq() -> spec_fn(OptionalView, OptionalView) -> bool {
    |a: OptionalView, b: OptionalView| spec_cmp_optional(a, b) != Rank::Greater
}

/// The order used for sorting packages.
pub open spec fn package_leq() -> spec_fn(PackageView, PackageView) -> bool {
    |a: PackageView, b: PackageView| spec_cmp_package(a, b) != Rank::Greater
}

fn insert_feature(sorted: Vec<Feature>, x: Feature) -> (r: Vec<Feature>)
    ensures
        r.deep_view() == spec_insert_by(sorted.deep_view(), x.deep_view(), feature_leq()),
{
    let ghost sv = sorted.deep_view();
    let ghost xv = x.deep_view();
    let mut j: usize = sorted.len();
    while j > 0 && cmp_feature(&sorted[j - 1], &x) == Rank::Greater
        invariant
            0 <= j <= sorted@.len(),
            sv == sorted.deep_view(),
            xv == x.deep_view(),
            forall|k: int| j <= k < sv.len() ==> spec_cmp_feature(#[trigger] sv[k], xv)
                == Rank::Greater,
        decreases j,
    {
        j = j - 1;
    }
    proof {
        lemma_insert_by_at(sv, xv, feature_leq(), j as int);
    }
    let ghost pre = sorted;
    let mut v = sorted;
    v.insert(j, x);
    proof {
        lemma_deep_view_insert(pre, v, j as int, x);
    }
    v
}

fn insert_child(sorted: Vec<Child>, x: Child) -> (r: Vec<Child>)
    ensures
        r.deep_view() == spec_insert_by(sorted.deep_view(), x.deep_view(), child_leq()),
{
    let ghost sv = sorted.deep_view();
    let ghost xv = x.deep_view();
    let mut j: usize = sorted.len();
    while j > 0 && cmp_child(&sorted[j - 1], &x) == Rank::Greater
        invariant
            0 <= j <= sorted@.len(),
            sv == sorted.deep_view(),
            xv == x.deep_view(),
            forall|k: int| j <= k < sv.len() ==> spec_cmp_child(#[trigger] sv[k], xv)
                == Rank::Greater,
        decreases j,
    {
        j = j - 1;
    }
    proof {
        lemma_insert_by_at(sv, xv, child_leq(), j as int);
    }
    let ghost pre = sorted;
    let mut v = sorted;
    v.insert(j, x);
    proof {
        lemma_deep_view_insert(pre, v, j as int, x);
    }
    v
}

fn insert_optional(sorted: Vec<Optional>, x: Optional) -> (r: Vec<Optional>)
    ensures
        r.deep_view() == spec_insert_by(sorted.deep_view(), x.deep_view(), optional_leq()),
{
    let ghost sv = sorted.deep_view();
    let ghost xv = x.deep_view();
    let mut j: usize = sorted.len();
    while j > 0 && cmp_optional(&sorted[j - 1], &x) == Rank::Greater
        invariant
            0 <= j <= sorted@.len(),
            sv == sorted.deep_view(),
            xv == x.deep_view(),
            forall|k: int| j <= k < sv.len() ==> spec_cmp_optional(#[trigger] sv[k], xv)
                == Rank::Greater,
        decreases j,
    {
        j = j - 1;
    }
    proof {
        lemma_insert_by_at(sv, xv, optional_leq(), j as int);
    }
    let ghost pre = sorted;
    let mut v = sorted;
    v.insert(j, x);
    proof {
        lemma_deep_view_insert(pre, v, j as int, x);
    }
    v
}

fn insert_package(sorted: Vec<Package>, x: Package) -> (r: Vec<Package>)
    ensures
        r.deep_view() == spec_insert_by(sorted.deep_view(), x.deep_view(), package_leq()),
{
    let ghost sv = sorted.deep_view();
    let ghost xv = x.deep_view();
    let mut j: usize = sorted.len();
    while j > 0 && cmp_package(&sorted[j - 1], &x) == Rank::Greater
        invariant
            0 <= j <= sorted@.len(),
            sv == sorted.deep_view(),
            xv == x.deep_view(),
            forall|k: int| j <= k < sv.len() ==> spec_cmp_package(#[trigger] sv[k], xv)
                == Rank::Greater,
        decreases j,
    {
        j = j - 1;
    }
    proof {
        lemma_insert_by_at(sv, xv, package_leq(), j as int);
    }
    let ghost pre = sorted;
    let mut v = sorted;
    v.insert(j, x);
    proof {
        lemma_deep_view_insert(pre, v, j as int, x);
    }
    v
}

fn sort_features(v: &Vec<Feature>) -> (r: Vec<Feature>)
    ensures
        r.deep_view() == spec_sort_by(v.deep_view(), feature_leq()),
{
    let ghost orig = v.deep_view();
    let mut sorted: Vec<Feature> = Vec::new();
    let mut i: usize = 0;
    proof {
        assert(sorted.deep_view() =~= spec_sort_by(orig.take(0), feature_leq()));
    }
    while i < v.len()
        invariant
            0 <= i <= v@.len(),
            orig == v.deep_view(),
            orig.len() == v@.len(),
            sorted.deep_view() == spec_sort_by(orig.take(i as int), feature_leq()),
        decreases v@.len() - i,
    {
        proof {
            assert(orig.take(i + 1).drop_last() =~= orig.take(i as int));
            assert(orig.take(i + 1).last() == orig[i as int]);
        }
        let x = v[i].duplicate();
        sorted = insert_feature(sorted, x);
        i = i + 1;
    }
    proof {
        assert(orig.take(v@.len() as int) =~= orig);
    }
    sorted
}

fn sort_childs(v: &Vec<Child>) -> (r: Vec<Child>)
    ensures
        r.deep_view() == spec_sort_by(v.deep_view(), child_leq()),
{
    let ghost orig = v.deep_view();
    let mut sorted: Vec<Child> = Vec::new();
    let mut i: usize = 0;
    proof {
        assert(sorted.deep_view() =~= spec_sort_by(orig.take(0), child_leq()));
    }
    while i < v.len()
        invariant
            0 <= i <= v@.len(),
            orig == v.deep_view(),
            orig.len() == v@.len(),
            sorted.deep_view() == spec_sort_by(orig.take(i as int), child_leq()),
        decreases v@.len() - i,
    {
        proof {
            assert(orig.take(i + 1).drop_last() =~= orig.take(i as int));
            assert(orig.take(i + 1).last() == orig[i as int]);
        }
        let x = v[i].duplicate();
        sorted = insert_child(sorted, x);
        i = i + 1;
    }
    proof {
        assert(orig.take(v@.len() as int) =~= orig);
    }
    sorted
}

fn sort_optionals(v: &Vec<Optional>) -> (r: Vec<Optional>)
    ensures
        r.deep_view() == spec_sort_by(v.deep_view(), optional_leq()),
{
    let ghost orig = v.deep_view();
    let mut sorted: Vec<Optional> = Vec::new();
    let mut i: usize = 0;
    proof {
        assert(sorted.deep_view() =~= spec_sort_by(orig.take(0), optional_leq()));
    }
    while i < v.len()
        invariant
            0 <= i <= v@.len(),
            orig == v.deep_view(),
            orig.len() == v@.len(),
            sorted.deep_view() == spec_sort_by(orig.take(i as int), optional_leq()),
        decreases v@.len() - i,
    {
        proof {
            assert(orig.take(i + 1).drop_last() =~= orig.take(i as int));
            assert(orig.take(i + 1).last() == orig[i as int]);
        }
        let x = v[i].duplicate();
        sorted = insert_optional(sorted, x);
        i = i + 1;
    }
    proof {
        assert(orig.take(v@.len() as int) =~= orig);
    }
    sorted
}

fn sort_packages(v: &Vec<Package>) -> (r: Vec<Package>)
    ensures
        r.deep_view() == spec_sort_by(v.deep_view(), package_leq()),
{
    let ghost orig = v.deep_view();
    let mut sorted: Vec<Package> = Vec::new();
    let mut i: usize = 0;
    proof {
        assert(sorted.deep_view() =~= spec_sort_by(orig.take(0), package_leq()));
    }
    while i < v.len()
        invariant
            0 <= i <= v@.len(),
            orig == v.deep_view(),
            orig.len() == v@.len(),
            sorted.deep_view() == spec_sort_by(orig.take(i as int), package_leq()),
        decreases v@.len() - i,
    {
        proof {
            assert(orig.take(i + 1).drop_last() =~= orig.take(i as int));
            assert(orig.take(i + 1).last() == orig[i as int]);
        }
        let x = v[i].duplicate();
        sorted = insert_package(sorted, x);
        i = i + 1;
    }
    proof {
        assert(orig.take(v@.len() as int) =~= orig);
    }
    sorted
}

/// How a span of text is to be styled by the terminal renderer.
#[derive(Clone, Copy, PartialEq, Eq, Structural, Debug)]
pub enum Style {
    /// Unstyled text.
    Plain,
    /// The backticked package name: bold, underlined, green when globally
    /// active and dark red otherwise.
    PkgName { active: bool },
    /// The underlined green separator between name and version.
    PkgSep,
    /// The package version: underlined, colored like the name.
    PkgVersion { active: bool },
    Cyan,
    LightRed,
    Grey,
    GreyItalic,
    Green,
    BrightRed,
    MagentaBg,
    Yellow,
}

/// One styled piece of output text.
#[derive(Debug, PartialEq, Eq)]
pub struct Span {
    pub text: String,
    pub style: Style,
}

#[verifier::ext_equal]
pub ghost struct SpanView {
    pub text: Seq<char>,
    pub style: Style,
}

impl DeepView for Span {
    type V = SpanView;

    open spec fn deep_view(&self) -> SpanView {
        SpanView { text: self.text@, style: self.style }
    }
}

pub open spec fn sp(text: Seq<char>, style: Style) -> SpanView {
    SpanView { text, style }
}

/// The header line of a package: name, version when active, optionality
/// and activity remarks.
pub open spec fn spec_render_header(p: PackageView) -> Seq<SpanView> {
    seq![sp("`"@ + p.name + "`"@, Style::PkgName { active: p.globally_active })] + (if p.active {
        seq![
            sp(" "@, Style::PkgSep),
            sp(p.version, Style::PkgVersion { active: p.globally_active }),
        ]
    } else {
        Seq::empty()
    }) + seq![sp(" "@, Style::Plain)] + (if p.optional {
        seq![
            sp(
                "(optional)"@,
                if p.globally_active {
                    Style::Cyan
                } else {
                    Style::LightRed
                },
            ),
        ]
    } else {
        Seq::empty()
    }) + (if !p.active {
        seq![sp(" not active"@, Style::LightRed)]
    } else {
        Seq::empty()
    }) + (if p.optional && !p.active && p.globally_active {
        seq![sp(", but activated somewhere else in the tree"@, Style::Grey)]
    } else {
        Seq::empty()
    }) + seq![sp("\n"@, Style::Plain)]
}

/// A quoted child token, cyan when it denotes an optional dependency.
pub open spec fn spec_child_span(c: ChildView) -> SpanView {
    sp(
        "\""@ + c.name + "\""@,
        if c.optional {
            Style::Cyan
        } else {
            Style::Plain
        },
    )
}

/// The comma-separated child list of one feature line.
pub open spec fn spec_render_childs(cs: Seq<ChildView>) -> Seq<SpanView>
    decreases cs.len(),
{
    if cs.len() == 0 {
        Seq::empty()
    } else {
        spec_render_childs(cs.drop_last()) + (if cs.len() > 1 {
            seq![sp(", "@, Style::Plain)]
        } else {
            Seq::empty()
        }) + seq![spec_child_span(cs.last())]
    }
}

/// One feature line: marker, name (`default` in yellow), and the sorted
/// child list in brackets.
pub open spec fn spec_render_feature(f: FeatureView) -> Seq<SpanView> {
    seq![
        if f.optional {
            sp("  ? "@, Style::MagentaBg)
        } else if f.active {
            sp("  * "@, Style::Green)
        } else {
            sp("  - "@, Style::BrightRed)
        },
        if f.name == "default"@ {
            sp(f.name, Style::Yellow)
        } else {
            sp(f.name, Style::Plain)
        },
        sp(" = ["@, Style::Plain),
    ] + spec_render_childs(spec_sort_by(f.childs, child_leq())) + seq![
        sp("]"@, Style::Plain),
        sp("\n"@, Style::Plain),
    ]
}

/// The feature lines, in the given order.
pub open spec fn spec_render_features(fs: Seq<FeatureView>) -> Seq<SpanView>
    decreases fs.len(),
{
    if fs.len() == 0 {
        Seq::empty()
    } else {
        spec_render_features(fs.drop_last()) + spec_render_feature(fs.last())
    }
}

/// One optional-dependency line.
pub open spec fn spec_render_optional(o: OptionalView) -> Seq<SpanView> {
    seq![
        sp("  "@, Style::Plain),
        if o.active {
            sp("*"@, Style::Green)
        } else {
            sp("-"@, Style::BrightRed)
        },
        sp(" "@, Style::Plain),
        sp(o.name, Style::Cyan),
        sp(" "@, Style::Plain),
        sp("(optional)"@, Style::GreyItalic),
        sp("\n"@, Style::Plain),
    ]
}

/// The optional-dependency lines, in the given order.
pub open spec fn spec_render_optionals(os: Seq<OptionalView>) -> Seq<SpanView>
    decreases os.len(),
{
    if os.len() == 0 {
        Seq::empty()
    } else {
        spec_render_optionals(os.drop_last()) + spec_render_optional(os.last())
    }
}

/// One package: the header, then — unless the package is neither active
/// nor globally active — its sorted features and optionals, or a
/// `[no features]` remark when it has none.
pub open spec fn spec_render_package(p: PackageView) -> Seq<SpanView> {
    spec_render_header(p) + (if !p.active && !p.globally_active {
        Seq::empty()
    } else if p.features.len() == 0 && p.optionals.len() == 0 {
        seq![
            sp("  "@, Style::Plain),
            sp("[no features]"@, Style::GreyItalic),
            sp("\n"@, Style::Plain),
        ]
    } else {
        spec_render_features(spec_sort_by(p.features, feature_leq())) + spec_render_optionals(
            spec_sort_by(p.optionals, optional_leq()),
        )
    })
}

/// The packages, in the given order.
pub open spec fn spec_render_packages(ps: Seq<PackageView>) -> Seq<SpanView>
    decreases ps.len(),
{
    if ps.len() == 0 {
        Seq::empty()
    } else {
        spec_render_packages(ps.drop_last()) + spec_render_package(ps.last())
    }
}

/// The whole report: the root package, then — only when the root is
/// globally active — its dependencies in sorted order.
pub open spec fn spec_render_info(info: ExportInfoView) -> Seq<SpanView> {
    spec_render_package(info.root_package) + (if info.root_package.globally_active {
        spec_render_packages(spec_sort_by(info.dependencies, package_leq()))
    } else {
        Seq::empty()
    })
}

fn emit(out: &mut Vec<Span>, text: String, style: Style)
    ensures
        final(out).deep_view() == old(out).deep_view().push(SpanView { text: text@, style }),
{
    let ghost pre = *out;
    let s = Span { text, style };
    let ghost sg = s;
    out.push(s);
    proof {
        lemma_deep_view_push(pre, *out, sg);
    }
}

fn render_header(out: &mut Vec<Span>, p: &Package)
    ensures
        final(out).deep_view() == old(out).deep_view() + spec_render_header(p.deep_view()),
{
    let mut name_text = String::from_str("`");
    name_text.append(p.name.as_str());
    name_text.append("`");
    emit(out, name_text, Style::PkgName { active: p.globally_active });
    if p.active {
        emit(out, String::from_str(" "), Style::PkgSep);
        emit(out, p.version.clone(), Style::PkgVersion { active: p.globally_active });
    }
    emit(out, String::from_str(" "), Style::Plain);
    if p.optional {
        let style = if p.globally_active {
            Style::Cyan
        } else {
            Style::LightRed
        };
        emit(out, String::from_str("(optional)"), style);
    }
    if !p.active {
        emit(out, String::from_str(" not active"), Style::LightRed);
    }
    if p.optional && !p.active && p.globally_active {
        emit(
            out,
            String::from_str(", but activated somewhere else in the tree"),
            Style::Grey,
        );
    }
    emit(out, String::from_str("\n"), Style::Plain);
    proof {
        assert(out.deep_view() =~= old(out).deep_view() + spec_render_header(p.deep_view()));
    }
}

fn render_childs(out: &mut Vec<Span>, cs: &Vec<Child>)
    ensures
        final(out).deep_view() == old(out).deep_view() + spec_render_childs(cs.deep_view()),
{
    let ghost cv = cs.deep_view();
    let mut i: usize = 0;
    proof {
        assert(out.deep_view() =~= old(out).deep_view() + spec_render_childs(cv.take(0)));
    }
    while i < cs.len()
        invariant
            0 <= i <= cs@.len(),
            cv == cs.deep_view(),
            cv.len() == cs@.len(),
            out.deep_view() == old(out).deep_view() + spec_render_childs(cv.take(i as int)),
        decreases cs@.len() - i,
    {
        proof {
            assert(cv.take(i + 1).drop_last() =~= cv.take(i as int));
            assert(cv.take(i + 1).last() == cv[i as int]);
        }
        if i > 0 {
            emit(out, String::from_str(", "), Style::Plain);
        }
        let c = &cs[i];
        let mut quoted = String::from_str("\"");
        quoted.append(c.name.as_str());
        quoted.append("\"");
        let style = if c.optional {
            Style::Cyan
        } else {
            Style::Plain
        };
        emit(out, quoted, style);
        proof {
            assert(out.deep_view() =~= old(out).deep_view() + spec_render_childs(cv.take(i + 1)));
        }
        i = i + 1;
    }
    proof {
        assert(cv.take(cs@.len() as int) =~= cv);
    }
}

fn render_feature(out: &mut Vec<Span>, f: &Feature)
    ensures
        final(out).deep_view() == old(out).deep_view() + spec_render_feature(f.deep_view()),
{
    if f.optional {
        emit(out, String::from_str("  ? "), Style::MagentaBg);
    } else if f.active {
        emit(out, String::from_str("  * "), Style::Green);
    } else {
        emit(out, String::from_str("  - "), Style::BrightRed);
    }
    if str_eq(f.name.as_str(), "default") {
        emit(out, f.name.clone(), Style::Yellow);
    } else {
        emit(out, f.name.clone(), Style::Plain);
    }
    emit(out, String::from_str(" = ["), Style::Plain);
    let sorted = sort_childs(&f.childs);
    render_childs(out, &sorted);
    emit(out, String::from_str("]"), Style::Plain);
    emit(out, String::from_str("\n"), Style::Plain);
    proof {
        assert(out.deep_view() =~= old(out).deep_view() + spec_render_feature(f.deep_view()));
    }
}

fn render_features(out: &mut Vec<Span>, fs: &Vec<Feature>)
    ensures
        final(out).deep_view() == old(out).deep_view() + spec_render_features(fs.deep_view()),
{
    let ghost fv = fs.deep_view();
    let mut i: usize = 0;
    proof {
        assert(out.deep_view() =~= old(out).deep_view() + spec_render_features(fv.take(0)));
    }
    while i < fs.len()
        invariant
            0 <= i <= fs@.len(),
            fv == fs.deep_view(),
            fv.len() == fs@.len(),
            out.deep_view() == old(out).deep_view() + spec_render_features(fv.take(i as int)),
        decreases fs@.len() - i,
    {
        proof {
            assert(fv.take(i + 1).drop_last() =~= fv.take(i as int));
            assert(fv.take(i + 1).last() == fv[i as int]);
        }
        render_feature(out, &fs[i]);
        proof {
            assert(out.deep_view() =~= old(out).deep_view() + spec_render_features(
                fv.take(i + 1),
            ));
        }
        i = i + 1;
    }
    proof {
        assert(fv.take(fs@.len() as int) =~= fv);
    }
}

fn render_optionals(out: &mut Vec<Span>, os: &Vec<Optional>)
    ensures
        final(out).deep_view() == old(out).deep_view() + spec_render_optionals(os.deep_view()),
{
    let ghost ov = os.deep_view();
    let mut i: usize = 0;
    proof {
        assert(out.deep_view() =~= old(out).deep_view() + spec_render_optionals(ov.take(0)));
    }
    while i < os.len()
        invariant
            0 <= i <= os@.len(),
            ov == os.deep_view(),
            ov.len() == os@.len(),
            out.deep_view() == old(out).deep_view() + spec_render_optionals(ov.take(i as int)),
        decreases os@.len() - i,
    {
        proof {
            assert(ov.take(i + 1).drop_last() =~= ov.take(i as int));
            assert(ov.take(i + 1).last() == ov[i as int]);
        }
        let o = &os[i];
        emit(out, String::from_str("  "), Style::Plain);
        if o.active {
            emit(out, String::from_str("*"), Style::Green);
        } else {
            emit(out, String::from_str("-"), Style::BrightRed);
        }
        emit(out, String::from_str(" "), Style::Plain);
        emit(out, o.name.clone(), Style::Cyan);
        emit(out, String::from_str(" "), Style::Plain);
        emit(out, String::from_str("(optional)"), Style::GreyItalic);
        emit(out, String::from_str("\n"), Style::Plain);
        proof {
            assert(out.deep_view() =~= old(out).deep_view() + spec_render_optionals(
                ov.take(i + 1),
            ));
        }
        i = i + 1;
    }
    proof {
        assert(ov.take(os@.len() as int) =~= ov);
    }
}

fn render_package(out: &mut Vec<Span>, p: &Package)
    ensures
        final(out).deep_view() == old(out).deep_view() + spec_render_package(p.deep_view()),
{
    render_header(out, p);
    if !p.active && !p.globally_active {
        proof {
            assert(out.deep_view() =~= old(out).deep_view() + spec_render_package(p.deep_view()));
        }
        return ;
    }
    if p.features.len() == 0 && p.optionals.len() == 0 {
        emit(out, String::from_str("  "), Style::Plain);
        emit(out, String::from_str("[no features]"), Style::GreyItalic);
        emit(out, String::from_str("\n"), Style::Plain);
        proof {
            assert(out.deep_view() =~= old(out).deep_view() + spec_render_package(p.deep_view()));
        }
        return ;
    }
    let sorted_features = sort_features(&p.features);
    render_features(out, &sorted_features);
    let sorted_optionals = sort_optionals(&p.optionals);
    render_optionals(out, &sorted_optionals);
    proof {
        assert(out.deep_view() =~= old(out).deep_view() + spec_render_package(p.deep_view()));
    }
}

/// Renders the classified model as styled spans: the root package first,
/// then — only when the root is globally active — its dependencies in
/// sorted order.
pub fn pretty_print(export_info: ExportInfo) -> (r: Vec<Span>)
    ensures
        r.deep_view() == spec_render_info(export_info.deep_view()),
{
    let ghost iv = export_info.deep_view();
    let mut out: Vec<Span> = Vec::new();
    proof {
        assert(out.deep_view() =~= Seq::<SpanView>::empty());
    }
    render_package(&mut out, &export_info.root_package);
    if export_info.root_package.globally_active {
        let sorted = sort_packages(&export_info.dependencies);
        let ghost sv = spec_sort_by(iv.dependencies, package_leq());
        let mut i: usize = 0;
        proof {
            assert(out.deep_view() =~= spec_render_package(iv.root_package)
                + spec_render_packages(sv.take(0)));
        }
        while i < sorted.len()
            invariant
                0 <= i <= sorted@.len(),
                sv == sorted.deep_view(),
                sv.len() == sorted@.len(),
                out.deep_view() == spec_render_package(iv.root_package) + spec_render_packages(
                    sv.take(i as int),
                ),
            decreases sorted@.len() - i,
        {
            proof {
                assert(sv.take(i + 1).drop_last() =~= sv.take(i as int));
                assert(sv.take(i + 1).last() == sv[i as int]);
            }
            render_package(&mut out, &sorted[i]);
            i = i + 1;
        }
        proof {
            assert(sv.take(sorted@.len() as int) =~= sv);
            assert(out.deep_view() =~= spec_render_info(iv));
        }
    } else {
        proof {
            assert(out.deep_view() =~= spec_render_info(iv));
        }
    }
    out
}

} // verus!
