//! Identifier lists as the error messages print them: each id once, ascending.
use std::collections::HashSet;
use vstd::prelude::*;
use vstd::std_specs::iter::IteratorSpec;

verus! {

broadcast use vstd::std_specs::hash::group_hash_axioms;

/// Each element of `l` is smaller than the next.
pub open spec fn strictly_ascending(l: Seq<usize>) -> bool {
    forall|i: int, j: int| 0 <= i < j < l.len() ==> l[i] < l[j]
}

/// `l` holds exactly the elements of `s`.
pub open spec fn lists_exactly(l: Seq<usize>, s: Set<usize>) -> bool {
    forall|x: usize| #[trigger] l.contains(x) <==> s.contains(x)
}

/// The elements of `s`, each once, in ascending order.
pub open spec fn ascending_ids(s: Set<usize>) -> Seq<usize> {
    choose|l: Seq<usize>| strictly_ascending(l) && lists_exactly(l, s)
}

/// Two ascending lists of the same elements are equal.
proof fn lemma_ascending_unique(a: Seq<usize>, b: Seq<usize>)
    requires
        strictly_ascending(a),
        strictly_ascending(b),
        forall|x: usize| #![trigger a.contains(x)] #![trigger b.contains(x)] a.contains(x) <==> b.contains(x),
    ensures
        a == b,
    decreases a.len(),
{
    if a.len() == 0 {
        if b.len() > 0 {
            assert(b.contains(b[0]));
        }
        assert(a =~= b);
    } else {
        assert(a.contains(a[0]));
        assert(b.len() > 0);
        assert(b.contains(b[0]));
        let j = choose|j: int| 0 <= j < b.len() && b[j] == a[0];
        let k = choose|k: int| 0 <= k < a.len() && a[k] == b[0];
        assert(b[0] <= b[j]);
        assert(a[0] <= a[k]);
        assert(a[0] == b[0]);
        let ta = a.drop_first();
        let tb = b.drop_first();
        assert forall|x: usize| #[trigger] ta.contains(x) <==> tb.contains(x) by {
            if ta.contains(x) {
                let p = choose|p: int| 0 <= p < ta.len() && ta[p] == x;
                assert(a[p + 1] == x);
                assert(a[0] < a[p + 1]);
                assert(a.contains(x));
                let q = choose|q: int| 0 <= q < b.len() && b[q] == x;
                assert(q != 0);
                assert(tb[q - 1] == x);
            }
            if tb.contains(x) {
                let p = choose|p: int| 0 <= p < tb.len() && tb[p] == x;
                assert(b[p + 1] == x);
                assert(b[0] < b[p + 1]);
                assert(b.contains(x));
                let q = choose|q: int| 0 <= q < a.len() && a[q] == x;
                assert(q != 0);
                assert(ta[q - 1] == x);
            }
        }
        lemma_ascending_unique(ta, tb);
        assert(a.len() == b.len());
        assert forall|i: int| 0 <= i < a.len() implies a[i] == b[i] by {
            if i > 0 {
                assert(a[i] == ta[i - 1]);
                assert(b[i] == tb[i - 1]);
            }
        }
        assert(a =~= b);
    }
}

/// An ascending list of exactly the elements of `s` is `ascending_ids(s)`.
pub proof fn lemma_ascending_ids(l: Seq<usize>, s: Set<usize>)
    requires
        strictly_ascending(l),
        lists_exactly(l, s),
    ensures
        l == ascending_ids(s),
{
    let c = ascending_ids(s);
    assert(strictly_ascending(c) && lists_exactly(c, s));
    lemma_ascending_unique(l, c);
}

/// Inserts `x` into the ascending list `out`, unless it is there already.
pub fn insert_ascending(out: &mut Vec<usize>, x: usize)
    requires
        strictly_ascending(old(out)@),
    ensures
        strictly_ascending(final(out)@),
        forall|y: usize| #[trigger]
            final(out)@.contains(y) <==> (old(out)@.contains(y) || y == x),
{
    let mut p: usize = 0;
    while p < out.len() && out[p] < x
        invariant
            p <= out@.len(),
            forall|k: int| 0 <= k < p ==> out@[k] < x,
        decreases out@.len() - p,
    {
        p += 1;
    }
    if p < out.len() && out[p] == x {
        assert(out@.contains(x));
        return ;
    }
    let ghost before = out@;
    out.insert(p, x);
    proof {
        assert(p == before.len() || x < before[p as int]);
        assert forall|i: int, j: int| 0 <= i < j < out@.len() implies out@[i] < out@[j] by {
            if j < p {
            } else if j == p {
            } else if i < p {
                assert(out@[j] == before[j - 1]);
                assert(before[i] < x);
                assert(x <= before[p as int]);
            } else if i == p {
                assert(out@[j] == before[j - 1]);
                assert(x <= before[p as int]);
            } else {
                assert(out@[i] == before[i - 1]);
                assert(out@[j] == before[j - 1]);
            }
        }
        assert forall|y: usize| #[trigger]
            out@.contains(y) <==> (before.contains(y) || y == x) by {
            if out@.contains(y) {
                let q = choose|q: int| 0 <= q < out@.len() && out@[q] == y;
                if q < p {
                    assert(before[q] == y);
                } else if q > p {
                    assert(before[q - 1] == y);
                }
            }
            if before.contains(y) {
                let q = choose|q: int| 0 <= q < before.len() && before[q] == y;
                if q < p {
                    assert(out@[q] == y);
                } else {
                    assert(out@[q + 1] == y);
                }
            }
            if y == x {
                assert(out@[p as int] == x);
            }
        }
    }
}

/// The elements of `ids`, each once, in ascending order.
pub fn sorted_ids_from_vec(ids: &Vec<usize>) -> (r: Vec<usize>)
    ensures
        r@ == ascending_ids(ids@.to_set()),
{
    let mut out: Vec<usize> = Vec::new();
    let mut i: usize = 0;
    while i < ids.len()
        invariant
            i <= ids@.len(),
            strictly_ascending(out@),
            forall|y: usize| #[trigger] out@.contains(y) <==> ids@.take(i as int).contains(y),
        decreases ids@.len() - i,
    {
        insert_ascending(&mut out, ids[i]);
        proof {
            let t0 = ids@.take(i as int);
            let t1 = ids@.take(i + 1);
            assert(t1 =~= t0.push(ids@[i as int]));
            assert forall|y: usize| #[trigger] out@.contains(y) <==> t1.contains(y) by {
                if t0.contains(y) {
                    let q = choose|q: int| 0 <= q < t0.len() && t0[q] == y;
                    assert(t1[q] == y);
                }
                if t1.contains(y) {
                    let q = choose|q: int| 0 <= q < t1.len() && t1[q] == y;
                    if q < i {
                        assert(t0[q] == y);
                    }
                }
                if y == ids@[i as int] {
                    assert(t1[i as int] == y);
                }
            }
        }
        i += 1;
    }
    proof {
        assert(ids@.take(ids@.len() as int) =~= ids@);
        lemma_ascending_ids(out@, ids@.to_set());
    }
    out
}

/// The identifiers of `ids` in ascending order.
pub fn sorted_ids_from_set(ids: &HashSet<usize>) -> (r: Vec<usize>)
    ensures
        r@ == ascending_ids(ids@),
{
    let mut out: Vec<usize> = Vec::new();
    let ghost all = vstd::std_specs::hash::spec_hash_keys_iter(ids).remaining();
    let ghost mut count: int = 0;
    for x in it: ids.iter()
        invariant
            it.seq() == all,
            count == it.index(),
            strictly_ascending(out@),
            forall|y: usize| #[trigger]
                out@.contains(y) <==> exists|k: int| 0 <= k < count && *all[k] == y,
    {
        let ghost prev = out@;
        insert_ascending(&mut out, *x);
        proof {
            assert forall|y: usize| #[trigger]
                out@.contains(y) <==> exists|k: int| 0 <= k < count + 1 && *all[k] == y by {
                if prev.contains(y) {
                    let k = choose|k: int| 0 <= k < count && *all[k] == y;
                    assert(0 <= k < count + 1 && *all[k] == y);
                }
                if y == *x {
                    assert(*all[count] == y);
                }
            }
            count = count + 1;
        }
    }
    proof {
        assert(count == all.len());
        assert(all.unref().to_set() == ids@);
        assert forall|y: usize| #[trigger] out@.contains(y) <==> ids@.contains(y) by {
            if out@.contains(y) {
                let k = choose|k: int| 0 <= k < count && *all[k] == y;
                assert(all.unref()[k] == y);
                assert(all.unref().contains(y));
            }
            if ids@.contains(y) {
                assert(all.unref().to_set().contains(y));
                assert(all.unref().contains(y));
                let k = choose|k: int| 0 <= k < all.unref().len() && all.unref()[k] == y;
                assert(*all[k] == y);
            }
        }
        lemma_ascending_ids(out@, ids@);
    }
    out
}

} // verus!
