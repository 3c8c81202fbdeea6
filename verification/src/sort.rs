//! Stable ordering of sequences by an integer key, as used for diagnostics and items.
use vstd::prelude::*;

verus! {

/// The keys of `s` never decrease
pub open spec fn sorted_by<A>(s: Seq<A>, key: spec_fn(A) -> int) -> bool {
    forall|i: int, j: int| 0 <= i < j < s.len() ==> key(s[i]) <= key(s[j])
}

/// `x` inserted into `s` just before the first element whose key is greater than its own
pub open spec fn insert_by<A>(s: Seq<A>, x: A, key: spec_fn(A) -> int) -> Seq<A>
    decreases s.len(),
{
    if s.len() == 0 {
        seq![x]
    } else if key(x) < key(s[0]) {
        seq![x] + s
    } else {
        seq![s[0]] + insert_by(s.drop_first(), x, key)
    }
}

/// `s` ordered by key; elements with equal keys keep their order
pub open spec fn stable_sort<A>(s: Seq<A>, key: spec_fn(A) -> int) -> Seq<A>
    decreases s.len(),
{
    if s.len() == 0 {
        s
    } else {
        insert_by(stable_sort(s.drop_last(), key), s.last(), key)
    }
}

/// Inserting before the first greater key is inserting at that position
pub proof fn lemma_insert_at<A>(s: Seq<A>, x: A, key: spec_fn(A) -> int, pos: int)
    requires
        0 <= pos <= s.len(),
        forall|k: int| 0 <= k < pos ==> key(#[trigger] s[k]) <= key(x),
        pos < s.len() ==> key(x) < key(s[pos]),
    ensures
        insert_by(s, x, key) == s.insert(pos, x),
    decreases s.len(),
{
    if s.len() == 0 {
        assert(s.insert(pos, x) =~= seq![x]);
    } else if pos == 0 {
        assert(s.insert(pos, x) =~= seq![x] + s);
    } else {
        assert(key(s[0]) <= key(x));
        let t = s.drop_first();
        assert forall|k: int| 0 <= k < pos - 1 implies key(#[trigger] t[k]) <= key(x) by {
            assert(t[k] == s[k + 1]);
        }
        lemma_insert_at(t, x, key, pos - 1);
        assert(seq![s[0]] + t.insert(pos - 1, x) =~= s.insert(pos, x));
    }
}

/// Inserting into an ordered sequence keeps it ordered, and adds exactly the inserted element
pub proof fn lemma_insert_by<A>(s: Seq<A>, x: A, key: spec_fn(A) -> int)
    requires
        sorted_by(s, key),
    ensures
        sorted_by(insert_by(s, x, key), key),
        insert_by(s, x, key).to_multiset() == s.to_multiset().insert(x),
        insert_by(s, x, key).len() == s.len() + 1,
    decreases s.len(),
{
    broadcast use vstd::seq_lib::group_to_multiset_ensures;
    broadcast use vstd::multiset::group_multiset_axioms;

    if s.len() == 0 {
        assert(seq![x] =~= Seq::<A>::empty().push(x));
        assert(s =~= Seq::<A>::empty());
    } else if key(x) < key(s[0]) {
        let r = seq![x] + s;
        assert forall|i: int, j: int| 0 <= i < j < r.len() implies key(r[i]) <= key(r[j]) by {
            if i == 0 {
                assert(r[j] == s[j - 1]);
                if j - 1 > 0 {
                    assert(key(s[0]) <= key(s[j - 1]));
                }
            } else {
                assert(r[i] == s[i - 1]);
                assert(r[j] == s[j - 1]);
            }
        }
        vstd::seq_lib::lemma_multiset_commutative(seq![x], s);
        assert(seq![x] =~= Seq::<A>::empty().push(x));
    } else {
        let t = s.drop_first();
        assert(sorted_by(t, key)) by {
            assert forall|i: int, j: int| 0 <= i < j < t.len() implies key(t[i]) <= key(t[j]) by {
                assert(t[i] == s[i + 1]);
                assert(t[j] == s[j + 1]);
            }
        }
        lemma_insert_by(t, x, key);
        let u = insert_by(t, x, key);
        let r = seq![s[0]] + u;
        assert forall|i: int, j: int| 0 <= i < j < r.len() implies key(r[i]) <= key(r[j]) by {
            if i == 0 {
                assert(r[j] == u[j - 1]);
                assert(u.to_multiset().count(u[j - 1]) > 0);
                if u[j - 1] == x {
                } else {
                    assert(t.to_multiset().count(u[j - 1]) > 0);
                    assert(t.contains(u[j - 1]));
                    let k = choose|k: int| 0 <= k < t.len() && t[k] == u[j - 1];
                    assert(t[k] == s[k + 1]);
                }
            } else {
                assert(r[i] == u[i - 1]);
                assert(r[j] == u[j - 1]);
            }
        }
        vstd::seq_lib::lemma_multiset_commutative(seq![s[0]], u);
        vstd::seq_lib::lemma_multiset_commutative(seq![s[0]], t);
        assert(seq![s[0]] + t =~= s);
        assert(seq![s[0]] =~= Seq::<A>::empty().push(s[0]));
    }
}

/// A stably sorted sequence is ordered by key and holds the same elements as the input
pub proof fn lemma_stable_sort<A>(s: Seq<A>, key: spec_fn(A) -> int)
    ensures
        sorted_by(stable_sort(s, key), key),
        stable_sort(s, key).to_multiset() == s.to_multiset(),
        stable_sort(s, key).len() == s.len(),
    decreases s.len(),
{
    broadcast use vstd::seq_lib::group_to_multiset_ensures;

    if s.len() > 0 {
        lemma_stable_sort(s.drop_last(), key);
        lemma_insert_by(stable_sort(s.drop_last(), key), s.last(), key);
        assert(s.drop_last().push(s.last()) =~= s);
    }
}

} // verus!
