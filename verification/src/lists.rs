//! Small verified helpers over vectors of strings and bytes.

use vstd::prelude::*;

verus! {

/// Pairwise distinct elements.
pub open spec fn no_dups(s: Seq<Seq<char>>) -> bool {
    forall|i: int, j: int| 0 <= i < j < s.len() ==> s[i] != s[j]
}

/// Membership in a pushed sequence is membership in the base or the pushed
/// element itself.
pub proof fn lemma_push_contains<T>(s: Seq<T>, x: T, k: T)
    ensures
        s.push(x).contains(k) <==> s.contains(k) || k == x,
{
    if s.push(x).contains(k) {
        let j = choose|j: int| 0 <= j < s.push(x).len() && #[trigger] s.push(x)[j] == k;
        if j < s.len() {
            assert(s[j] == k);
        }
    }
    if s.contains(k) {
        let j = choose|j: int| 0 <= j < s.len() && #[trigger] s[j] == k;
        assert(s.push(x)[j] == k);
    }
    assert(s.push(x)[s.len() as int] == x);
}

/// Pushing onto a vector pushes the element's view onto the vector's deep
/// view.
pub proof fn lemma_vec_push_deep<T: DeepView>(v1: Vec<T>, v2: Vec<T>, e: T)
    requires
        v2@ == v1@.push(e),
    ensures
        v2.deep_view() == v1.deep_view().push(e.deep_view()),
{
    assert forall|j: int| 0 <= j < v2@.len()
        implies #[trigger] v2.deep_view()[j] == v1.deep_view().push(e.deep_view())[j] by {
        assert(v2.deep_view()[j] == v2@[j].deep_view());
        if j < v1@.len() {
            assert(v2@[j] == v1@[j]);
            assert(v1.deep_view()[j] == v1@[j].deep_view());
        } else {
            assert(v2@[j] == e);
        }
    }
    assert(v2.deep_view() =~= v1.deep_view().push(e.deep_view()));
}

/// Whether `x` occurs in `v`.
pub fn contains_string(v: &Vec<String>, x: &str) -> (r: bool)
    ensures
        r == v.deep_view().contains(x@),
{
    let xs: String = x.to_owned();
    let n = v.len();
    let mut i: usize = 0;
    while i < n
        invariant
            n == v@.len(),
            i <= n,
            xs@ == x@,
            forall|j: int| 0 <= j < i ==> v@[j]@ != x@,
        decreases n - i,
    {
        if v[i] == xs {
            proof {
                assert(v.deep_view()[i as int] == x@);
            }
            return true;
        }
        i = i + 1;
    }
    proof {
        if v.deep_view().contains(x@) {
            let j = choose|j: int| 0 <= j < v.deep_view().len() && #[trigger] v.deep_view()[j] == x@;
            assert(v@[j]@ == x@);
        }
    }
    false
}

/// A copy of `v`.
pub fn clone_string_vec(v: &Vec<String>) -> (r: Vec<String>)
    ensures
        r.deep_view() == v.deep_view(),
{
    let mut r: Vec<String> = Vec::new();
    let n = v.len();
    let mut i: usize = 0;
    while i < n
        invariant
            n == v@.len(),
            i <= n,
            r@.len() == i,
            forall|j: int| 0 <= j < i ==> r@[j]@ == v@[j]@,
        decreases n - i,
    {
        r.push(v[i].clone());
        i = i + 1;
    }
    proof {
        assert forall|j: int| 0 <= j < n implies r.deep_view()[j] == v.deep_view()[j] by {
            assert(r.deep_view()[j] == r@[j]@);
            assert(v.deep_view()[j] == v@[j]@);
        }
        assert(r.deep_view() =~= v.deep_view());
    }
    r
}

/// A copy of `v`.
pub fn clone_bytes(v: &Vec<u8>) -> (r: Vec<u8>)
    ensures
        r@ == v@,
{
    let mut r: Vec<u8> = Vec::new();
    let n = v.len();
    let mut i: usize = 0;
    while i < n
        invariant
            n == v@.len(),
            i <= n,
            r@ =~= v@.take(i as int),
        decreases n - i,
    {
        r.push(v[i]);
        i = i + 1;
    }
    proof {
        assert(v@.take(n as int) =~= v@);
    }
    r
}

/// The elements of `v` with every occurrence of `x` left out, in order.
pub fn without_string(v: &Vec<String>, x: &str) -> (r: Vec<String>)
    ensures
        forall|k: Seq<char>| r.deep_view().contains(k) <==> v.deep_view().contains(k) && k != x@,
        no_dups(v.deep_view()) ==> no_dups(r.deep_view()),
{
    let xs: String = x.to_owned();
    let mut r: Vec<String> = Vec::new();
    let n = v.len();
    let mut i: usize = 0;
    while i < n
        invariant
            n == v@.len(),
            i <= n,
            xs@ == x@,
            forall|j: int| #![auto]
                0 <= j < r@.len()
                    ==> r@[j]@ != x@ && exists|m: int| #![auto] 0 <= m < i && v@[m]@ == r@[j]@,
            forall|m: int| #![auto]
                0 <= m < i && v@[m]@ != x@
                    ==> exists|j: int| #![auto] 0 <= j < r@.len() && r@[j]@ == v@[m]@,
            no_dups(v.deep_view()) ==> forall|a: int, b: int|
                0 <= a < b < r@.len() ==> r@[a]@ != r@[b]@,
            no_dups(v.deep_view()) ==> forall|a: int, b: int|
                0 <= a < r@.len() && i <= b < n ==> r@[a]@ != v@[b]@,
        decreases n - i,
    {
        let ghost pre_r = r@;
        let keep = !(v[i] == xs);
        if keep {
            r.push(v[i].clone());
        }
        proof {
            if !keep {
                assert(v@[i as int]@ == x@);
            }
            assert forall|m: int| #![auto] 0 <= m < i + 1 && v@[m]@ != x@
                implies exists|j: int| #![auto] 0 <= j < r@.len() && r@[j]@ == v@[m]@ by {
                if m < i {
                    let j = choose|j: int| #![auto] 0 <= j < pre_r.len() && pre_r[j]@ == v@[m]@;
                    assert(r@[j]@ == v@[m]@);
                } else {
                    assert(r@[r@.len() - 1]@ == v@[m]@);
                }
            }
            assert forall|j: int| #![auto] 0 <= j < r@.len()
                implies r@[j]@ != x@ && exists|m: int| #![auto] 0 <= m < i + 1 && v@[m]@ == r@[j]@ by {
                if j < pre_r.len() {
                    assert(r@[j] == pre_r[j]);
                    let m = choose|m: int| #![auto] 0 <= m < i && v@[m]@ == pre_r[j]@;
                    assert(v@[m]@ == r@[j]@);
                } else {
                    assert(v@[i as int]@ == r@[j]@);
                }
            }
            if no_dups(v.deep_view()) {
                assert forall|a: int, b: int| 0 <= a < r@.len() && i + 1 <= b < n
                    implies r@[a]@ != v@[b]@ by {
                    assert(v.deep_view()[i as int] == v@[i as int]@);
                    assert(v.deep_view()[b] == v@[b]@);
                    if a < pre_r.len() {
                        assert(r@[a] == pre_r[a]);
                    }
                }
                assert forall|a: int, b: int| 0 <= a < b < r@.len()
                    implies r@[a]@ != r@[b]@ by {
                    if b < pre_r.len() {
                        assert(r@[a] == pre_r[a]);
                        assert(r@[b] == pre_r[b]);
                    } else if keep && b == pre_r.len() {
                        assert(r@[a] == pre_r[a]);
                        assert(r@[b]@ == v@[i as int]@);
                    }
                }
            }
        }
        i = i + 1;
    }
    proof {
        assert forall|k: Seq<char>| #[trigger] r.deep_view().contains(k)
            implies v.deep_view().contains(k) && k != x@ by {
            let j = choose|j: int| 0 <= j < r.deep_view().len() && #[trigger] r.deep_view()[j] == k;
            assert(r@[j]@ == k);
            let m = choose|m: int| 0 <= m < n && v@[m]@ == r@[j]@;
            assert(v.deep_view()[m] == k);
        }
        assert forall|k: Seq<char>| v.deep_view().contains(k) && k != x@
            implies r.deep_view().contains(k) by {
            let m = choose|m: int| 0 <= m < v.deep_view().len() && #[trigger] v.deep_view()[m] == k;
            assert(v@[m]@ == k);
            let j = choose|j: int| 0 <= j < r@.len() && r@[j]@ == v@[m]@;
            assert(r.deep_view()[j] == k);
        }
        if no_dups(v.deep_view()) {
            assert forall|a: int, b: int| 0 <= a < b < r.deep_view().len()
                implies r.deep_view()[a] != r.deep_view()[b] by {
                assert(r.deep_view()[a] == r@[a]@);
                assert(r.deep_view()[b] == r@[b]@);
            }
        }
    }
    r
}

} // verus!
