//! Sorting of summaries by rank.
use vstd::prelude::*;

verus! {

/// Items with a rank by which a list of them is ordered.
pub trait Ranked: Sized {
    /// Whether `self` has to stand before `other`.
    spec fn outranks(self, other: Self) -> bool;

    /// No two items outrank each other.
    proof fn outranks_asymmetric(a: Self, b: Self)
        requires
            a.outranks(b),
        ensures
            !b.outranks(a),
    ;

    /// Outranking is transitive.
    proof fn outranks_transitive(a: Self, b: Self, c: Self)
        requires
            a.outranks(b),
            b.outranks(c),
        ensures
            a.outranks(c),
    ;

    /// Whether `self` has to stand before `other`.
    fn goes_before(&self, other: &Self) -> (r: bool)
        ensures
            r == self.outranks(*other),
    ;
}

/// No item stands after one that it outranks.
pub open spec fn in_rank_order<T: Ranked>(s: Seq<T>) -> bool {
    forall|i: int, j: int| 0 <= i < j < s.len() ==> !(#[trigger] s[j]).outranks(#[trigger] s[i])
}

/// Insert `item` where its rank puts it.
fn insert_ranked<T: Ranked>(list: &mut Vec<T>, item: T)
    requires
        in_rank_order(old(list)@),
    ensures
        in_rank_order(final(list)@),
        final(list)@.to_multiset() == old(list)@.to_multiset().insert(item),
{
    let mut i: usize = 0;
    while i < list.len() && !item.goes_before(&list[i])
        invariant
            i <= list@.len(),
            list@ == old(list)@,
            forall|k: int| 0 <= k < i ==> !item.outranks(#[trigger] list@[k]),
        decreases list.len() - i,
    {
        i = i + 1;
    }
    let ghost before = list@;
    list.insert(i, item);
    proof {
        before.to_multiset_ensures();
        list@.to_multiset_ensures();
        assert(list@ == before.insert(i as int, item));
        assert(list@.remove(i as int) =~= before);
        assert(list@.to_multiset().contains(item)) by {
            assert(list@[i as int] == item);
        }
        assert(list@.to_multiset() =~= before.to_multiset().insert(item));
        assert forall|a: int, b: int| 0 <= a < b < list@.len() implies !(#[trigger] list@[b]).outranks(
            #[trigger] list@[a],
        ) by {
            if b < i {
                assert(list@[a] == before[a] && list@[b] == before[b]);
            } else if b == i {
                assert(list@[a] == before[a]);
            } else if a == i {
                assert(list@[b] == before[b - 1]);
                if before[b - 1].outranks(item) {
                    if b - 1 == i {
                        T::outranks_asymmetric(item, before[i as int]);
                    } else {
                        T::outranks_transitive(before[b - 1], item, before[i as int]);
                    }
                }
            } else if a < i {
                assert(list@[a] == before[a] && list@[b] == before[b - 1]);
            } else {
                assert(list@[a] == before[a - 1] && list@[b] == before[b - 1]);
            }
        }
    }
}

/// The items in rank order. The order of items of equal rank is not specified.
pub fn sort_ranked<T: Ranked>(items: Vec<T>) -> (r: Vec<T>)
    ensures
        in_rank_order(r@),
        r@.to_multiset() == items@.to_multiset(),
{
    let mut rest: Vec<T> = items;
    let mut out: Vec<T> = Vec::new();
    proof {
        out@.to_multiset_ensures();
        assert(out@.to_multiset().add(rest@.to_multiset()) =~= items@.to_multiset());
    }
    while rest.len() > 0
        invariant
            in_rank_order(out@),
            out@.to_multiset().add(rest@.to_multiset()) == items@.to_multiset(),
        decreases rest.len(),
    {
        let ghost whole = rest@;
        let ghost sorted = out@;
        if let Some(item) = rest.pop() {
            proof {
                assert(whole =~= rest@.push(item));
                rest@.to_multiset_ensures();
            }
            insert_ranked(&mut out, item);
            proof {
                assert(out@.to_multiset().add(rest@.to_multiset()) =~= sorted.to_multiset().add(whole.to_multiset()));
            }
        }
    }
    proof {
        rest@.to_multiset_ensures();
        assert(rest@.to_multiset() =~= vstd::multiset::Multiset::empty()) by {
            assert(rest@.len() == 0);
        }
        assert(out@.to_multiset() =~= items@.to_multiset());
    }
    out
}

/// What holds of every element of a sequence holds of a reordering.
pub proof fn lemma_reordered_contains<A>(s: Seq<A>, t: Seq<A>, a: A)
    requires
        s.to_multiset() == t.to_multiset(),
    ensures
        s.contains(a) == t.contains(a),
{
    s.to_multiset_ensures();
    t.to_multiset_ensures();
    assert(s.contains(a) == (s.to_multiset().count(a) > 0));
    assert(t.contains(a) == (t.to_multiset().count(a) > 0));
}

/// Reordering commutes with mapping.
pub proof fn lemma_reordered_map<A, B>(s: Seq<A>, t: Seq<A>, f: spec_fn(A) -> B)
    requires
        s.to_multiset() == t.to_multiset(),
    ensures
        s.map_values(f).to_multiset() == t.map_values(f).to_multiset(),
    decreases s.len(),
{
    s.to_multiset_ensures();
    t.to_multiset_ensures();
    if s.len() == 0 {
        assert(s.map_values(f) =~= t.map_values(f));
    } else {
        let a = s.last();
        lemma_reordered_contains(s, t, a);
        assert(s.contains(a)) by {
            assert(s[s.len() - 1] == a);
        }
        let i = choose|i: int| 0 <= i < t.len() && t[i] == a;
        assert(s.remove(s.len() - 1) =~= s.drop_last());
        assert(s.drop_last().to_multiset() =~= t.remove(i).to_multiset());
        lemma_reordered_map(s.drop_last(), t.remove(i), f);
        let sm = s.map_values(f);
        let tm = t.map_values(f);
        sm.to_multiset_ensures();
        tm.to_multiset_ensures();
        assert(sm.drop_last() =~= s.drop_last().map_values(f));
        assert(sm.remove(sm.len() - 1) =~= sm.drop_last());
        assert(tm.remove(i) =~= t.remove(i).map_values(f));
        assert(sm.to_multiset().count(f(a)) > 0) by {
            assert(sm[sm.len() - 1] == f(a));
        }
        assert(tm.to_multiset().count(f(a)) > 0) by {
            assert(tm[i] == f(a));
        }
        assert(sm.to_multiset() =~= sm.to_multiset().remove(f(a)).insert(f(a)));
        assert(tm.to_multiset() =~= tm.to_multiset().remove(f(a)).insert(f(a)));
    }
}

/// A sequence without duplicates has none after reordering.
pub proof fn lemma_reordered_no_duplicates<A>(s: Seq<A>, t: Seq<A>)
    requires
        s.to_multiset() == t.to_multiset(),
        s.no_duplicates(),
    ensures
        t.no_duplicates(),
{
    s.lemma_multiset_has_no_duplicates();
    t.lemma_multiset_has_no_duplicates_conv();
}

/// Filtering does not depend on the order of the elements.
pub proof fn lemma_reordered_filter<A>(s: Seq<A>, t: Seq<A>, p: spec_fn(A) -> bool)
    requires
        s.to_multiset() == t.to_multiset(),
    ensures
        s.filter(p).to_multiset() == t.filter(p).to_multiset(),
{
    lemma_filter_count(s, p);
    lemma_filter_count(t, p);
    assert(s.filter(p).to_multiset() =~= t.filter(p).to_multiset());
}

/// How often an element is left after filtering.
proof fn lemma_filter_count<A>(s: Seq<A>, p: spec_fn(A) -> bool)
    ensures
        forall|a: A|
            #[trigger] s.filter(p).to_multiset().count(a) == (if p(a) {
                s.to_multiset().count(a)
            } else {
                0
            }),
    decreases s.len(),
{
    reveal(Seq::filter);
    if s.len() == 0 {
        assert(s.filter(p) =~= s);
        s.to_multiset_ensures();
        assert(s.to_multiset().len() == 0);
        assert forall|a: A| #[trigger] s.filter(p).to_multiset().count(a) == 0 by {
            if s.to_multiset().count(a) > 0 {
                assert(s.contains(a));
            }
        }
    } else {
        let rest = s.drop_last();
        lemma_filter_count(rest, p);
        rest.to_multiset_ensures();
        rest.filter(p).to_multiset_ensures();
        assert(s =~= rest.push(s.last()));
    }
}

/// Two sequences without duplicates and with the same elements are reorderings
/// of each other.
pub proof fn lemma_same_elements<A>(s: Seq<A>, t: Seq<A>)
    requires
        s.no_duplicates(),
        t.no_duplicates(),
        forall|a: A| #[trigger] s.contains(a) == t.contains(a),
    ensures
        s.to_multiset() == t.to_multiset(),
{
    s.lemma_multiset_has_no_duplicates();
    t.lemma_multiset_has_no_duplicates();
    s.to_multiset_ensures();
    t.to_multiset_ensures();
    assert forall|a: A| s.to_multiset().count(a) == t.to_multiset().count(a) by {
        assert(s.contains(a) == (s.to_multiset().count(a) > 0));
        assert(t.contains(a) == (t.to_multiset().count(a) > 0));
    }
    assert(s.to_multiset() =~= t.to_multiset());
}

/// There is one way to put numbers into descending order.
pub proof fn lemma_descending_unique(s: Seq<usize>, t: Seq<usize>)
    requires
        s.to_multiset() == t.to_multiset(),
        forall|i: int, j: int| 0 <= i < j < s.len() ==> s[i] >= s[j],
        forall|i: int, j: int| 0 <= i < j < t.len() ==> t[i] >= t[j],
    ensures
        s == t,
{
    let at_least = |a: usize, b: usize| a >= b;
    assert(vstd::relations::sorted_by(s, at_least));
    assert(vstd::relations::sorted_by(t, at_least));
    vstd::seq_lib::lemma_sorted_unique(s, t, at_least);
}

} // verus!
