//! Ascending orders of UE numbers.

use vstd::prelude::*;

verus! {

/// `x` put into an ascending sequence, behind the members that are not larger.
pub open spec fn inserted(s: Seq<usize>, x: usize) -> Seq<usize>
    decreases s.len(),
{
    if s.len() == 0 || s.last() <= x {
        s.push(x)
    } else {
        inserted(s.drop_last(), x).push(s.last())
    }
}

/// The members of a sequence in ascending order.
pub open spec fn sorted(s: Seq<usize>) -> Seq<usize>
    decreases s.len(),
{
    if s.len() == 0 {
        s
    } else {
        inserted(sorted(s.drop_last()), s.last())
    }
}

pub open spec fn is_sorted(s: Seq<usize>) -> bool {
    forall|i: int, j: int| 0 <= i <= j < s.len() ==> s[i] <= s[j]
}

/// Every member is smaller than those behind it.
pub open spec fn ascending(s: Seq<usize>) -> bool {
    forall|i: int, j: int| 0 <= i < j < s.len() ==> s[i] < s[j]
}

/// The members of a finite set in ascending order.
pub open spec fn in_order(ids: Set<usize>) -> Seq<usize> {
    choose|s: Seq<usize>| ascending(s) && s.to_set() == ids
}

proof fn lemma_inserted(s: Seq<usize>, x: usize)
    requires
        is_sorted(s),
    ensures
        is_sorted(inserted(s, x)),
        inserted(s, x).to_multiset() == s.to_multiset().insert(x),
        forall|i: int| 0 <= i < inserted(s, x).len() ==> #[trigger] inserted(s, x)[i] <= if s.len()
            == 0 || s.last() <= x {
            x
        } else {
            s.last()
        },
    decreases s.len(),
{
    broadcast use vstd::seq_lib::group_to_multiset_ensures;

    if s.len() == 0 || s.last() <= x {
    } else {
        let d = s.drop_last();
        lemma_inserted(d, x);
        assert(s == d.push(s.last()));
        assert(d.len() > 0 ==> d.last() <= s.last());
        assert(inserted(s, x).to_multiset() == d.to_multiset().insert(x).insert(s.last()));
        assert(d.to_multiset().insert(x).insert(s.last()) =~= d.to_multiset().insert(
            s.last(),
        ).insert(x));
    }
}

/// Sorting puts the same members, as often as before, into ascending order.
pub proof fn law_sorted(s: Seq<usize>)
    ensures
        is_sorted(sorted(s)),
        sorted(s).to_multiset() == s.to_multiset(),
        sorted(s).len() == s.len(),
        sorted(s).to_set() == s.to_set(),
    decreases s.len(),
{
    broadcast use vstd::seq_lib::group_to_multiset_ensures;

    if s.len() > 0 {
        law_sorted(s.drop_last());
        lemma_inserted(sorted(s.drop_last()), s.last());
        assert(s == s.drop_last().push(s.last()));
    }
    assert(sorted(s).to_multiset() == s.to_multiset());
    assert(sorted(s).to_multiset().len() == s.to_multiset().len());
    assert forall|x: usize| sorted(s).to_set().contains(x) == s.to_set().contains(x) by {
        assert(sorted(s).contains(x) <==> sorted(s).to_multiset().count(x) > 0);
        assert(s.contains(x) <==> s.to_multiset().count(x) > 0);
    }
    assert(sorted(s).to_set() =~= s.to_set());
}

/// Sorting a sequence in which nothing occurs twice gives a strictly ascending one.
pub proof fn lemma_sorted_ascending(s: Seq<usize>)
    requires
        s.no_duplicates(),
    ensures
        ascending(sorted(s)),
{
    law_sorted(s);
    let r = sorted(s);
    s.lemma_multiset_has_no_duplicates();
    r.lemma_multiset_has_no_duplicates_conv();
    assert forall|i: int, j: int| 0 <= i < j < r.len() implies r[i] < r[j] by {
        assert(r[i] != r[j]);
    }
}

/// Two ascending sequences with the same members are the same.
pub proof fn lemma_ascending_unique(a: Seq<usize>, b: Seq<usize>)
    requires
        ascending(a),
        ascending(b),
        a.to_set() == b.to_set(),
    ensures
        a == b,
    decreases a.len(),
{
    assert(a.no_duplicates());
    assert(b.no_duplicates());
    a.unique_seq_to_set();
    b.unique_seq_to_set();
    if a.len() > 0 {
        let x = a.last();
        let y = b.last();
        assert(a.to_set().contains(x));
        assert(b.to_set().contains(y));
        assert(b.contains(x));
        assert(a.contains(y));
        assert(x == y);
        let a1 = a.drop_last();
        let b1 = b.drop_last();
        assert forall|v: usize| a1.to_set().contains(v) == b1.to_set().contains(v) by {
            if a1.contains(v) {
                let i = choose|i: int| 0 <= i < a1.len() && a1[i] == v;
                assert(a[i] == v && v < x);
                assert(a.to_set().contains(v));
                let j = choose|j: int| 0 <= j < b.len() && b[j] == v;
                assert(b1[j] == v);
            }
            if b1.contains(v) {
                let i = choose|i: int| 0 <= i < b1.len() && b1[i] == v;
                assert(b[i] == v && v < x);
                assert(b.to_set().contains(v));
                let j = choose|j: int| 0 <= j < a.len() && a[j] == v;
                assert(a1[j] == v);
            }
        }
        assert(a1.to_set() =~= b1.to_set());
        lemma_ascending_unique(a1, b1);
        assert(a == a1.push(x));
        assert(b == b1.push(y));
    } else {
        assert(b == a);
    }
}

/// An ascending sequence is its members in order.
pub proof fn lemma_in_order(s: Seq<usize>)
    requires
        ascending(s),
    ensures
        in_order(s.to_set()) == s,
{
    let t = in_order(s.to_set());
    assert(ascending(s) && s.to_set() == s.to_set());
    assert(ascending(t) && t.to_set() == s.to_set());
    lemma_ascending_unique(t, s);
}

proof fn lemma_listed(ids: Set<usize>) -> (s: Seq<usize>)
    requires
        ids.finite(),
    ensures
        s.no_duplicates(),
        s.to_set() == ids,
    decreases ids.len(),
{
    if ids.len() == 0 {
        assert(ids =~= Set::<usize>::empty());
        let s = Seq::<usize>::empty();
        assert(s.to_set() =~= ids);
        s
    } else {
        let x = ids.choose();
        let rest = lemma_listed(ids.remove(x));
        let s = rest.push(x);
        assert forall|i: int| 0 <= i < rest.len() implies #[trigger] rest[i] != x by {
            assert(rest.to_set().contains(rest[i]));
        }
        assert forall|y: usize| s.to_set().contains(y) == ids.contains(y) by {
            if ids.contains(y) && y != x {
                assert(rest.to_set().contains(y));
                let i = choose|i: int| 0 <= i < rest.len() && rest[i] == y;
                assert(s[i] == y);
            }
            if y == x {
                assert(s[rest.len() as int] == x);
            }
            if s.contains(y) && y != x {
                let i = choose|i: int| 0 <= i < s.len() && s[i] == y;
                assert(rest[i] == y);
                assert(rest.to_set().contains(y));
            }
        }
        assert(s.to_set() =~= ids);
        s
    }
}

/// Every finite set has its members in ascending order.
pub proof fn lemma_in_order_of(ids: Set<usize>)
    requires
        ids.finite(),
    ensures
        ascending(in_order(ids)),
        in_order(ids).to_set() == ids,
{
    let s = lemma_listed(ids);
    law_sorted(s);
    lemma_sorted_ascending(s);
    lemma_in_order(sorted(s));
}

fn insert_sorted(v: &mut Vec<usize>, x: usize)
    ensures
        final(v)@ == inserted(old(v)@, x),
{
    let n = v.len();
    let mut k: usize = n;
    assert(v@.subrange(n as int, n as int) == Seq::<usize>::empty());
    assert(v@.take(n as int) == v@);
    assert(inserted(v@.take(k as int), x) + v@.skip(k as int) == inserted(v@, x));
    while k > 0 && v[k - 1] > x
        invariant
            k <= n,
            n == v.len(),
            v@ == old(v)@,
            inserted(v@.take(k as int), x) + v@.skip(k as int) == inserted(old(v)@, x),
        decreases k,
    {
        proof {
            let t = v@.take(k as int);
            assert(t.last() == v@[k - 1]);
            assert(t.drop_last() == v@.take(k - 1));
            assert(inserted(t, x) + v@.skip(k as int) == inserted(v@.take(k - 1), x) + v@.skip(
                k - 1,
            ));
        }
        k = k - 1;
    }
    assert(inserted(v@.take(k as int), x) == v@.take(k as int).push(x)) by {
        if k > 0 {
            assert(v@.take(k as int).last() == v@[k - 1]);
        }
    }
    v.insert(k, x);
    assert(v@ == inserted(old(v)@, x));
}

/// The members of a vector in ascending order.
pub fn sort_ids(v: &Vec<usize>) -> (r: Vec<usize>)
    ensures
        r@ == sorted(v@),
{
    let mut out: Vec<usize> = Vec::new();
    let mut i: usize = 0;
    assert(v@.take(0) == Seq::<usize>::empty());
    while i < v.len()
        invariant
            i <= v.len(),
            out@ == sorted(v@.take(i as int)),
        decreases v.len() - i,
    {
        insert_sorted(&mut out, v[i]);
        assert(v@.take(i + 1).drop_last() == v@.take(i as int));
        assert(v@.take(i + 1).last() == v@[i as int]);
        i = i + 1;
    }
    assert(v@.take(i as int) == v@);
    out
}

/// Two vectors hold the same numbers in the same order.
pub fn same_ids(a: &Vec<usize>, b: &Vec<usize>) -> (r: bool)
    ensures
        r == (a@ == b@),
{
    if a.len() != b.len() {
        return false;
    }
    let mut i: usize = 0;
    while i < a.len()
        invariant
            i <= a.len(),
            a.len() == b.len(),
            forall|k: int| 0 <= k < i ==> a@[k] == b@[k],
        decreases a.len() - i,
    {
        if a[i] != b[i] {
            return false;
        }
        i = i + 1;
    }
    assert(a@ == b@);
    true
}

} // verus!
