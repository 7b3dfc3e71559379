//! A stable sort by integer keys compared lexicographically.
use vstd::prelude::*;

verus! {

/// A sort key: four integers compared lexicographically.
#[derive(Clone, Copy, Debug, PartialEq, Eq, Structural)]
pub struct SortKey(pub i64, pub i64, pub i64, pub i64);

/// `a` comes strictly before `b` in lexicographic order.
pub open spec fn key_lt(a: SortKey, b: SortKey) -> bool {
    a.0 < b.0 || (a.0 == b.0 && (a.1 < b.1 || (a.1 == b.1 && (a.2 < b.2 || (a.2 == b.2
        && a.3 < b.3)))))
}

pub fn key_less(a: &SortKey, b: &SortKey) -> (r: bool)
    ensures
        r == key_lt(*a, *b),
{
    a.0 < b.0 || (a.0 == b.0 && (a.1 < b.1 || (a.1 == b.1 && (a.2 < b.2 || (a.2 == b.2 && a.3
        < b.3)))))
}

/// Values that are sorted by a key.
pub trait Keyed {
    spec fn sort_key(&self) -> SortKey;

    fn key(&self) -> (k: SortKey)
        ensures
            k == self.sort_key(),
    ;
}

/// No value comes after one with a larger key.
pub open spec fn sorted_by_key<T: Keyed>(s: Seq<T>) -> bool {
    forall|i: int, j: int| 0 <= i < j < s.len() ==> !key_lt(#[trigger] s[j].sort_key(), #[trigger] s[i].sort_key())
}

/// The values of `s` whose key is `k`, in their order in `s`.
pub open spec fn with_key<T: Keyed>(s: Seq<T>, k: SortKey) -> Seq<T> {
    s.filter(key_is::<T>(k))
}

/// Whether a value has the key `k`.
pub open spec fn key_is<T: Keyed>(k: SortKey) -> spec_fn(T) -> bool {
    |x: T| x.sort_key() == k
}

proof fn lemma_insert_keeps_groups<T: Keyed>(out: Seq<T>, p: int, x: T, k: SortKey)
    requires
        0 <= p <= out.len(),
        forall|q: int| 0 <= q < p ==> key_lt(#[trigger] out[q].sort_key(), x.sort_key()),
    ensures
        with_key(out.insert(p, x), k) == if k == x.sort_key() {
            seq![x] + with_key(out, k)
        } else {
            with_key(out, k)
        },
{
    let pred = key_is::<T>(k);
    let front = out.take(p);
    let back = out.skip(p);
    assert(out.insert(p, x) =~= front + (seq![x] + back));
    assert(out =~= front + back);
    Seq::filter_distributes_over_add(front, seq![x] + back, pred);
    Seq::filter_distributes_over_add(front, back, pred);
    back.lemma_filter_prepend(x, pred);
    if k == x.sort_key() {
        assert forall|q: int| 0 <= q < front.len() implies !pred(#[trigger] front[q]) by {
            assert(key_lt(out[q].sort_key(), x.sort_key()));
        }
        assert(front.all(|y: T| !pred(y)));
        front.lemma_all_neg_filter_empty(pred);
        assert(front.filter(pred) =~= Seq::<T>::empty());
        assert(Seq::<T>::empty() + (seq![x] + back.filter(pred)) =~= seq![x] + (Seq::<T>::empty()
            + back.filter(pred)));
    } else {
        assert(Seq::<T>::empty() + back.filter(pred) =~= back.filter(pred));
    }
}

/// The values of `v` sorted by key; values with equal keys keep their order.
pub fn stable_sort<T: Keyed>(v: Vec<T>) -> (r: Vec<T>)
    ensures
        sorted_by_key(r@),
        forall|k: SortKey| #[trigger] with_key(r@, k) == with_key(v@, k),
{
    let ghost orig = v@;
    let mut v = v;
    let mut out: Vec<T> = Vec::new();
    proof {
        assert(orig.skip(orig.len() as int) =~= Seq::<T>::empty());
        assert(out@ =~= Seq::<T>::empty());
    }
    // Values are taken from the back; each goes in front of the first value
    // whose key is not smaller, so it lands before the equal keys that
    // follow it in `v`.
    while v.len() > 0
        invariant
            v@ == orig.take(v@.len() as int),
            v@.len() <= orig.len(),
            sorted_by_key(out@),
            forall|k: SortKey| #[trigger] with_key(out@, k) == with_key(orig.skip(v@.len() as int), k),
        decreases v.len(),
    {
        let ghost m = v@.len() as int;
        let x = v.pop().unwrap();
        proof {
            assert(x == orig[m - 1]);
            assert(v@ =~= orig.take(m - 1));
        }
        let kx = x.key();
        let mut p: usize = 0;
        while p < out.len() && key_less(&out[p].key(), &kx)
            invariant
                p <= out@.len(),
                forall|q: int| 0 <= q < p ==> key_lt(#[trigger] out@[q].sort_key(), kx),
            decreases out@.len() - p,
        {
            p = p + 1;
        }
        let ghost before = out@;
        proof {
            assert forall|k: SortKey| #[trigger] with_key(before.insert(p as int, x), k) == with_key(orig.skip(m - 1), k) by {
                lemma_insert_keeps_groups(before, p as int, x, k);
                assert(orig.skip(m - 1) =~= seq![x] + orig.skip(m));
                orig.skip(m).lemma_filter_prepend(x, key_is::<T>(k));
            }
            // Everything from position `p` on has a key at least `kx`.
            assert forall|q: int| p <= q < before.len() implies !key_lt(#[trigger] before[q].sort_key(), kx) by {
                if p < before.len() {
                    assert(!key_lt(before[p as int].sort_key(), kx));
                    if q > p {
                        assert(!key_lt(before[q].sort_key(), before[p as int].sort_key()));
                    }
                }
            }
        }
        out.insert(p, x);
        proof {
            assert(out@ == before.insert(p as int, x));
            assert forall|i: int, j: int| 0 <= i < j < out@.len() implies !key_lt(
                #[trigger] out@[j].sort_key(),
                #[trigger] out@[i].sort_key(),
            ) by {
                if j < p {
                    assert(out@[i] == before[i] && out@[j] == before[j]);
                } else if j == p {
                    assert(out@[i] == before[i]);
                } else if i > p {
                    assert(out@[i] == before[i - 1] && out@[j] == before[j - 1]);
                } else if i == p {
                    assert(out@[j] == before[j - 1]);
                } else {
                    assert(out@[i] == before[i] && out@[j] == before[j - 1]);
                    assert(!key_lt(before[j - 1].sort_key(), kx));
                }
            }
        }
    }
    proof {
        assert(orig.skip(0) =~= orig);
    }
    out
}

proof fn lemma_count_in_group<T: Keyed>(s: Seq<T>, x: T)
    ensures
        s.to_multiset().count(x) == with_key(s, x.sort_key()).to_multiset().count(x),
    decreases s.len(),
{
    broadcast use vstd::seq_lib::group_seq_properties;
    if s.len() == 0 {
        assert(with_key(s, x.sort_key()) =~= Seq::<T>::empty());
    } else {
        let rest = s.drop_last();
        let e = s.last();
        lemma_count_in_group(rest, x);
        assert(s =~= rest.push(e));
        rest.lemma_filter_push(e, key_is::<T>(x.sort_key()));
    }
}

/// Sequences whose values agree key by key hold the same values, each as
/// often: sorting neither loses nor adds a value.
pub proof fn equal_groups_hold_the_same_values<T: Keyed>(a: Seq<T>, b: Seq<T>)
    requires
        forall|k: SortKey| #[trigger] with_key(a, k) == with_key(b, k),
    ensures
        a.to_multiset() == b.to_multiset(),
{
    assert forall|x: T| a.to_multiset().count(x) == b.to_multiset().count(x) by {
        lemma_count_in_group(a, x);
        lemma_count_in_group(b, x);
        assert(with_key(a, x.sort_key()) == with_key(b, x.sort_key()));
    }
    assert(a.to_multiset() =~= b.to_multiset());
}

proof fn lemma_drop_last_keeps_other_groups<T: Keyed>(s: Seq<T>, k: SortKey)
    requires
        s.len() > 0,
        k != s.last().sort_key(),
    ensures
        with_key(s.drop_last(), k) == with_key(s, k),
{
    assert(s =~= s.drop_last().push(s.last()));
    s.drop_last().lemma_filter_push(s.last(), key_is::<T>(k));
}

proof fn lemma_last_of_group<T: Keyed>(s: Seq<T>)
    requires
        s.len() > 0,
    ensures
        with_key(s, s.last().sort_key()) == with_key(s.drop_last(), s.last().sort_key()).push(s.last()),
{
    assert(s =~= s.drop_last().push(s.last()));
    s.drop_last().lemma_filter_push(s.last(), key_is::<T>(s.last().sort_key()));
}

/// Two sorted sequences whose values agree key by key are the same sequence:
/// a stable sort has exactly one possible result.
pub proof fn sorted_arrangement_is_unique<T: Keyed>(a: Seq<T>, b: Seq<T>)
    requires
        sorted_by_key(a),
        sorted_by_key(b),
        forall|k: SortKey| #[trigger] with_key(a, k) == with_key(b, k),
    ensures
        a == b,
    decreases a.len(),
{
    equal_groups_hold_the_same_values(a, b);
    a.to_multiset_ensures();
    b.to_multiset_ensures();
    assert(a.len() == b.len()) by {
        assert(a.to_multiset().len() == a.len());
        assert(b.to_multiset().len() == b.len());
    }
    if a.len() == 0 {
        assert(a =~= b);
    } else {
        let x = a.last();
        let y = b.last();
        let kx = x.sort_key();
        let ky = y.sort_key();
        lemma_last_of_group(a);
        lemma_last_of_group(b);
        // Some value of `b` has the key `kx`, and none has a key above `ky`.
        let gx = with_key(b, kx);
        assert(gx.len() > 0);
        let z = gx[gx.len() - 1];
        b.lemma_filter_pred(key_is::<T>(kx), gx.len() - 1);
        assert(gx.contains(z));
        b.lemma_filter_contains_rev(key_is::<T>(kx), z);
        assert(b.contains(z) && z.sort_key() == kx);
        let iz = choose|i: int| 0 <= i < b.len() && b[i] == z;
        assert(!key_lt(ky, kx)) by {
            if iz < b.len() - 1 {
                assert(!key_lt(b[b.len() - 1].sort_key(), b[iz].sort_key()));
            }
        }
        let gy = with_key(a, ky);
        assert(gy.len() > 0);
        let w = gy[gy.len() - 1];
        a.lemma_filter_pred(key_is::<T>(ky), gy.len() - 1);
        assert(gy.contains(w));
        a.lemma_filter_contains_rev(key_is::<T>(ky), w);
        assert(a.contains(w) && w.sort_key() == ky);
        let iw = choose|i: int| 0 <= i < a.len() && a[i] == w;
        assert(!key_lt(kx, ky)) by {
            if iw < a.len() - 1 {
                assert(!key_lt(a[a.len() - 1].sort_key(), a[iw].sort_key()));
            }
        }
        assert(kx == ky);
        assert(with_key(a, kx).last() == x);
        assert(with_key(b, kx).last() == y);
        assert(x == y);
        assert forall|k: SortKey| #[trigger] with_key(a.drop_last(), k) == with_key(b.drop_last(), k) by {
            if k == kx {
                assert(with_key(a.drop_last(), k) =~= with_key(a, k).drop_last());
                assert(with_key(b.drop_last(), k) =~= with_key(b, k).drop_last());
            } else {
                lemma_drop_last_keeps_other_groups(a, k);
                lemma_drop_last_keeps_other_groups(b, k);
            }
        }
        assert(sorted_by_key(a.drop_last())) by {
            assert forall|i: int, j: int| 0 <= i < j < a.drop_last().len() implies !key_lt(
                #[trigger] a.drop_last()[j].sort_key(),
                #[trigger] a.drop_last()[i].sort_key(),
            ) by {
                assert(a.drop_last()[i] == a[i] && a.drop_last()[j] == a[j]);
            }
        }
        assert(sorted_by_key(b.drop_last())) by {
            assert forall|i: int, j: int| 0 <= i < j < b.drop_last().len() implies !key_lt(
                #[trigger] b.drop_last()[j].sort_key(),
                #[trigger] b.drop_last()[i].sort_key(),
            ) by {
                assert(b.drop_last()[i] == b[i] && b.drop_last()[j] == b[j]);
            }
        }
        sorted_arrangement_is_unique(a.drop_last(), b.drop_last());
        assert(a =~= a.drop_last().push(x));
        assert(b =~= b.drop_last().push(y));
    }
}

} // verus!
