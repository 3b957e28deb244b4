//! Small helpers over sequences and vectors of strings.

use vstd::prelude::*;

verus! {

/// Index of the first element satisfying `p`, or `s.len()` when none does.
pub open spec fn first_where<T>(s: Seq<T>, p: spec_fn(T) -> bool) -> int
    decreases s.len(),
{
    if s.len() == 0 {
        0
    } else if p(s.first()) {
        0
    } else {
        1 + first_where(s.drop_first(), p)
    }
}

/// `first_where` is exactly the index left of which nothing satisfies `p`
/// and at which, if it is not the length, `p` holds.
pub proof fn lemma_first_where_is<T>(s: Seq<T>, p: spec_fn(T) -> bool, i: int)
    requires
        0 <= i <= s.len(),
        forall|j: int| 0 <= j < i ==> !p(#[trigger] s[j]),
        i < s.len() ==> p(s[i]),
    ensures
        first_where(s, p) == i,
    decreases s.len(),
{
    if s.len() == 0 {
    } else if p(s.first()) {
        assert(s[0] == s.first());
        assert(i == 0);
    } else {
        assert(i >= 1) by {
            assert(s[0] == s.first());
        }
        let t = s.drop_first();
        assert forall|j: int| 0 <= j < i - 1 implies !p(#[trigger] t[j]) by {
            assert(t[j] == s[j + 1]);
        }
        assert(i - 1 < t.len() ==> p(t[i - 1])) by {
            if i - 1 < t.len() {
                assert(t[i - 1] == s[i]);
            }
        }
        lemma_first_where_is(t, p, i - 1);
    }
}

/// Pushing onto a vector pushes the element's view onto the deep view.
pub proof fn lemma_deep_view_push<T: DeepView>(pre: Vec<T>, post: Vec<T>, x: T)
    requires
        post@ == pre@.push(x),
    ensures
        post.deep_view() =~= pre.deep_view().push(x.deep_view()),
{
    assert forall|k: int| 0 <= k < post@.len() implies post.deep_view()[k] == pre.deep_view()
        .push(x.deep_view())[k] by {
        if k < pre@.len() {
            assert(post@[k] == pre@[k]);
        } else {
            assert(post@[k] == x);
        }
    }
}

/// Inserting into a vector inserts the element's view into the deep view.
pub proof fn lemma_deep_view_insert<T: DeepView>(pre: Vec<T>, post: Vec<T>, j: int, x: T)
    requires
        0 <= j <= pre@.len(),
        post@ == pre@.insert(j, x),
    ensures
        post.deep_view() =~= pre.deep_view().insert(j, x.deep_view()),
{
    pre@.insert_ensures(j, x);
    pre.deep_view().insert_ensures(j, x.deep_view());
    assert forall|k: int| 0 <= k < post@.len() implies post.deep_view()[k] == pre.deep_view()
        .insert(j, x.deep_view())[k] by {
        if k < j {
            assert(post@[k] == pre@[k]);
            assert(pre.deep_view().insert(j, x.deep_view())[k] == pre.deep_view()[k]);
        } else if k == j {
            assert(post@[k] == x);
        } else {
            assert(post@[k] == pre@[k - 1]);
            assert(pre.deep_view().insert(j, x.deep_view())[k] == pre.deep_view()[k - 1]);
        }
    }
}

/// Membership of a string among a sequence of strings.
pub open spec fn contains_str(s: Seq<Seq<char>>, x: Seq<char>) -> bool {
    exists|i: int| 0 <= i < s.len() && s[i] == x
}

/// Whether some element of `v` equals `x`.
pub fn contains_string(v: &Vec<String>, x: &String) -> (r: bool)
    ensures
        r == contains_str(v.deep_view(), x@),
{
    let mut i: usize = 0;
    while i < v.len()
        invariant
            0 <= i <= v.len(),
            forall|j: int| 0 <= j < i ==> v.deep_view()[j] != x@,
        decreases v.len() - i,
    {
        if v[i] == *x {
            proof {
                assert(v.deep_view()[i as int] == x@);
            }
            return true;
        }
        i = i + 1;
    }
    false
}

} // verus!
