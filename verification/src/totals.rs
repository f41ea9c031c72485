//! Sums over sequences and how they behave under taking prefixes, filtering
//! and reordering.
use vstd::prelude::*;

verus! {

/// The sum of `f` over the elements of `s`.
pub open spec fn total<A>(s: Seq<A>, f: spec_fn(A) -> nat) -> nat
    decreases s.len(),
{
    if s.len() == 0 {
        0
    } else {
        total(s.drop_last(), f) + f(s.last())
    }
}

/// One more element adds its share.
pub proof fn lemma_total_push<A>(s: Seq<A>, a: A, f: spec_fn(A) -> nat)
    ensures
        total(s.push(a), f) == total(s, f) + f(a),
{
    assert(s.push(a).drop_last() =~= s);
}

/// The sum over a prefix grows by the next element.
pub proof fn lemma_total_step<A>(s: Seq<A>, i: int, f: spec_fn(A) -> nat)
    requires
        0 <= i < s.len(),
    ensures
        total(s.take(i + 1), f) == total(s.take(i), f) + f(s[i]),
{
    assert(s.take(i + 1).drop_last() =~= s.take(i));
}

/// The sum over a prefix is at most the sum over the whole.
pub proof fn lemma_total_prefix<A>(s: Seq<A>, i: int, f: spec_fn(A) -> nat)
    requires
        0 <= i <= s.len(),
    ensures
        total(s.take(i), f) <= total(s, f),
    decreases s.len() - i,
{
    if i < s.len() {
        lemma_total_step(s, i, f);
        lemma_total_prefix(s, i + 1, f);
    } else {
        assert(s.take(i) =~= s);
    }
}

/// Dropping elements does not make the sum larger.
pub proof fn lemma_total_filter<A>(s: Seq<A>, p: spec_fn(A) -> bool, f: spec_fn(A) -> nat)
    ensures
        total(s.filter(p), f) <= total(s, f),
    decreases s.len(),
{
    reveal(Seq::filter);
    if s.len() > 0 {
        lemma_total_filter(s.drop_last(), p, f);
        if p(s.last()) {
            lemma_total_push(s.drop_last().filter(p), s.last(), f);
        }
    }
}

/// Where `f` is at most `bound`, the sum is at most `bound` per element.
pub proof fn lemma_total_bound<A>(s: Seq<A>, f: spec_fn(A) -> nat, bound: nat)
    requires
        forall|a: A| #[trigger] f(a) <= bound,
    ensures
        total(s, f) <= bound * s.len(),
    decreases s.len(),
{
    if s.len() > 0 {
        lemma_total_bound(s.drop_last(), f, bound);
        assert(bound * (s.len() - 1) + bound == bound * s.len()) by (nonlinear_arith);
    }
}

/// Taking one element out lowers the sum by its share.
proof fn lemma_total_remove<A>(s: Seq<A>, i: int, f: spec_fn(A) -> nat)
    requires
        0 <= i < s.len(),
    ensures
        total(s, f) == total(s.remove(i), f) + f(s[i]),
    decreases s.len(),
{
    if i == s.len() - 1 {
        assert(s.remove(i) =~= s.drop_last());
    } else {
        lemma_total_remove(s.drop_last(), i, f);
        assert(s.remove(i).drop_last() =~= s.drop_last().remove(i));
        assert(s.remove(i).last() == s.last());
    }
}

/// The sum does not depend on the order of the elements.
pub proof fn lemma_total_reordered<A>(s: Seq<A>, t: Seq<A>, f: spec_fn(A) -> nat)
    requires
        s.to_multiset() == t.to_multiset(),
    ensures
        total(s, f) == total(t, f),
    decreases s.len(),
{
    s.to_multiset_ensures();
    t.to_multiset_ensures();
    if s.len() > 0 {
        let a = s.last();
        assert(s.to_multiset().count(a) > 0);
        assert(t.contains(a));
        let i = choose|i: int| 0 <= i < t.len() && t[i] == a;
        lemma_total_remove(t, i, f);
        assert(s.remove(s.len() - 1) =~= s.drop_last());
        assert(s.drop_last().to_multiset() =~= t.remove(i).to_multiset());
        lemma_total_reordered(s.drop_last(), t.remove(i), f);
    }
}

/// Where two functions agree on the elements, so do the sums.
pub proof fn lemma_total_same<A>(s: Seq<A>, f: spec_fn(A) -> nat, g: spec_fn(A) -> nat)
    requires
        forall|i: int| 0 <= i < s.len() ==> f(#[trigger] s[i]) == g(s[i]),
    ensures
        total(s, f) == total(s, g),
    decreases s.len(),
{
    if s.len() > 0 {
        let t = s.drop_last();
        assert forall|i: int| 0 <= i < t.len() implies f(#[trigger] t[i]) == g(t[i]) by {
            assert(t[i] == s[i]);
        }
        lemma_total_same(t, f, g);
    }
}

/// A sum over images is a sum over the elements.
pub proof fn lemma_total_map<A, B>(s: Seq<A>, name: spec_fn(A) -> B, f: spec_fn(A) -> nat, g: spec_fn(B) -> nat)
    requires
        forall|i: int| 0 <= i < s.len() ==> f(#[trigger] s[i]) == g(name(s[i])),
    ensures
        total(s, f) == total(s.map_values(name), g),
    decreases s.len(),
{
    if s.len() > 0 {
        let t = s.drop_last();
        assert forall|i: int| 0 <= i < t.len() implies f(#[trigger] t[i]) == g(name(t[i])) by {
            assert(t[i] == s[i]);
        }
        lemma_total_map(t, name, f, g);
        assert(s.map_values(name).drop_last() =~= t.map_values(name));
    }
}

/// Where two functions differ on one element only, so do the sums.
pub proof fn lemma_total_differ_at<A>(s: Seq<A>, a: A, f: spec_fn(A) -> nat, g: spec_fn(A) -> nat, more: nat)
    requires
        s.no_duplicates(),
        s.contains(a),
        g(a) == f(a) + more,
        forall|b: A| b != a ==> f(b) == #[trigger] g(b),
    ensures
        total(s, g) == total(s, f) + more,
    decreases s.len(),
{
    let t = s.drop_last();
    if s.last() == a {
        assert forall|i: int| 0 <= i < t.len() implies f(#[trigger] t[i]) == g(t[i]) by {
            assert(t[i] == s[i] && s[i] != s[s.len() - 1]);
            assert(f(t[i]) == g(t[i]));
        }
        lemma_total_same(t, f, g);
    } else {
        let i = choose|i: int| 0 <= i < s.len() && s[i] == a;
        assert(t[i] == a);
        assert(t.no_duplicates());
        lemma_total_differ_at(t, a, f, g, more);
        assert(f(s.last()) == g(s.last()));
    }
}

/// What a sum is: nothing for no element, and one more share for one more element.
pub proof fn law_total<A>(s: Seq<A>, a: A, f: spec_fn(A) -> nat)
    ensures
        total(Seq::<A>::empty(), f) == 0,
        total(seq![a], f) == f(a),
        total(s.push(a), f) == total(s, f) + f(a),
{
    lemma_total_push(s, a, f);
    lemma_total_push(Seq::<A>::empty(), a, f);
    assert(Seq::<A>::empty().push(a) =~= seq![a]);
}

} // verus!
