//! Putting numbered entries in order of their number, stably: entries with the same
//! number keep the order they came in.
use vstd::prelude::*;

verus! {

/// `s`, which is in order of the first components, with `e` put after every entry
/// whose number is not greater than its own.
pub open spec fn insert_in_order(s: Seq<(int, int)>, e: (int, int)) -> Seq<(int, int)>
    decreases s.len(),
{
    if s.len() == 0 {
        seq![e]
    } else if s.last().0 <= e.0 {
        s.push(e)
    } else {
        insert_in_order(s.drop_last(), e).push(s.last())
    }
}

/// The entries of `s` in order of their numbers (the first components), entries with the
/// same number in the order they have in `s`.
pub open spec fn in_order(s: Seq<(int, int)>) -> Seq<(int, int)>
    decreases s.len(),
{
    if s.len() == 0 {
        seq![]
    } else {
        insert_in_order(in_order(s.drop_last()), s.last())
    }
}

/// Whether the numbers of `s` never decrease.
pub open spec fn is_ordered(s: Seq<(int, int)>) -> bool {
    forall|i: int, j: int| 0 <= i <= j < s.len() ==> s[i].0 <= s[j].0
}

/// The entries as mathematical pairs.
pub open spec fn pairs_of(v: Seq<(usize, usize)>) -> Seq<(int, int)> {
    v.map_values(|p: (usize, usize)| (p.0 as int, p.1 as int))
}

proof fn lemma_insert_keeps_order(s: Seq<(int, int)>, e: (int, int))
    requires
        is_ordered(s),
    ensures
        is_ordered(insert_in_order(s, e)),
        insert_in_order(s, e).to_multiset() == s.to_multiset().insert(e),
        insert_in_order(s, e).len() == s.len() + 1,
    decreases s.len(),
{
    broadcast use vstd::seq_lib::group_seq_properties;
    if s.len() == 0 {
        assert(seq![e] == Seq::<(int, int)>::empty().push(e));
    } else if s.last().0 <= e.0 {
    } else {
        let r = insert_in_order(s.drop_last(), e);
        assert(is_ordered(s.drop_last()));
        lemma_insert_keeps_order(s.drop_last(), e);
        assert(s.drop_last().push(s.last()) == s);
        assert forall|i: int, j: int| 0 <= i <= j < r.len() + 1 implies r.push(s.last())[i].0 <= r.push(s.last())[j].0 by {
            if j == r.len() {
                if i < r.len() {
                    let x = r[i];
                    assert(r.to_multiset().count(x) > 0);
                    assert(r.to_multiset() == s.drop_last().to_multiset().insert(e));
                    if x != e {
                        assert(s.drop_last().to_multiset().count(x) > 0);
                        assert(s.drop_last().contains(x));
                        let k = choose|k: int| 0 <= k < s.drop_last().len() && s.drop_last()[k] == x;
                        assert(s[k] == x);
                    }
                }
            }
        }
    }
}

/// Putting entries in order keeps them all, loses none, and orders them.
pub proof fn lemma_in_order_sorts(s: Seq<(int, int)>)
    ensures
        is_ordered(in_order(s)),
        in_order(s).to_multiset() == s.to_multiset(),
        in_order(s).len() == s.len(),
    decreases s.len(),
{
    broadcast use vstd::seq_lib::group_seq_properties;
    if s.len() > 0 {
        lemma_in_order_sorts(s.drop_last());
        lemma_insert_keeps_order(in_order(s.drop_last()), s.last());
        assert(s.drop_last().push(s.last()) == s);
    }
}

/// Entries with equal numbers come in the order of their second components.
pub open spec fn keeps_ties(s: Seq<(int, int)>) -> bool {
    forall|i: int, j: int| 0 <= i < j < s.len() && s[i].0 == s[j].0 ==> s[i].1 < s[j].1
}

/// The second components of `s` grow strictly, as positions do.
pub open spec fn strictly_numbered(s: Seq<(int, int)>) -> bool {
    forall|i: int, j: int| 0 <= i < j < s.len() ==> s[i].1 < s[j].1
}

proof fn lemma_insert_members(s: Seq<(int, int)>, e: (int, int))
    ensures
        insert_in_order(s, e).len() == s.len() + 1,
        forall|i: int| 0 <= i < insert_in_order(s, e).len() ==>
            insert_in_order(s, e)[i] == e || s.contains(#[trigger] insert_in_order(s, e)[i]),
    decreases s.len(),
{
    if s.len() > 0 && s.last().0 > e.0 {
        lemma_insert_members(s.drop_last(), e);
        let r = insert_in_order(s.drop_last(), e);
        assert forall|i: int| 0 <= i < r.push(s.last()).len() implies
            r.push(s.last())[i] == e || s.contains(#[trigger] r.push(s.last())[i]) by {
            if i < r.len() {
                let x = r[i];
                if x != e {
                    assert(s.drop_last().contains(x));
                    let k = choose|k: int| 0 <= k < s.drop_last().len() && s.drop_last()[k] == x;
                    assert(s[k] == x);
                }
            } else {
                assert(s[s.len() - 1] == s.last());
            }
        }
    } else if s.len() > 0 {
        assert forall|i: int| 0 <= i < s.push(e).len() implies
            s.push(e)[i] == e || s.contains(#[trigger] s.push(e)[i]) by {
            if i < s.len() {
                assert(s[i] == s.push(e)[i]);
            }
        }
    }
}

proof fn lemma_insert_keeps_ties(s: Seq<(int, int)>, e: (int, int))
    requires
        keeps_ties(s),
        forall|i: int| 0 <= i < s.len() ==> #[trigger] s[i].1 < e.1,
    ensures
        keeps_ties(insert_in_order(s, e)),
    decreases s.len(),
{
    if s.len() > 0 && s.last().0 > e.0 {
        let d = s.drop_last();
        assert forall|i: int| 0 <= i < d.len() implies #[trigger] d[i].1 < e.1 by {
            assert(d[i] == s[i]);
        }
        lemma_insert_keeps_ties(d, e);
        lemma_insert_members(d, e);
        let r = insert_in_order(d, e);
        let l = s.last();
        assert forall|i: int, j: int| 0 <= i < j < r.push(l).len() && r.push(l)[i].0 == r.push(l)[j].0
            implies r.push(l)[i].1 < r.push(l)[j].1 by {
            if j == r.len() {
                let x = r[i];
                if x != e {
                    assert(d.contains(x));
                    let k = choose|k: int| 0 <= k < d.len() && d[k] == x;
                    assert(s[k] == x);
                    assert(s[s.len() - 1] == l);
                }
            } else {
                assert(r.push(l)[i] == r[i]);
                assert(r.push(l)[j] == r[j]);
            }
        }
    } else if s.len() > 0 {
        assert forall|i: int, j: int| 0 <= i < j < s.push(e).len() && s.push(e)[i].0 == s.push(e)[j].0
            implies s.push(e)[i].1 < s.push(e)[j].1 by {
            if j == s.len() {
                assert(s.push(e)[i] == s[i]);
            } else {
                assert(s.push(e)[i] == s[i]);
                assert(s.push(e)[j] == s[j]);
            }
        }
    }
}

/// Putting entries in order is stable: of entries with the same number, the one that
/// came first stays first.
pub proof fn lemma_in_order_stable(s: Seq<(int, int)>)
    requires
        strictly_numbered(s),
    ensures
        keeps_ties(in_order(s)),
    decreases s.len(),
{
    if s.len() > 0 {
        let d = s.drop_last();
        assert(strictly_numbered(d)) by {
            assert forall|i: int, j: int| 0 <= i < j < d.len() implies d[i].1 < d[j].1 by {
                assert(d[i] == s[i] && d[j] == s[j]);
            }
        }
        lemma_in_order_stable(d);
        lemma_in_order_sorts(d);
        let r = in_order(d);
        assert forall|i: int| 0 <= i < r.len() implies #[trigger] r[i].1 < s.last().1 by {
            broadcast use vstd::seq_lib::group_seq_properties;
            let x = r[i];
            assert(r.contains(x));
            assert(r.to_multiset().count(x) > 0);
            assert(d.to_multiset().count(x) > 0);
            assert(d.contains(x));
            let k = choose|k: int| 0 <= k < d.len() && d[k] == x;
            assert(s[k] == x);
            assert(s[s.len() - 1] == s.last());
        }
        lemma_insert_keeps_ties(r, s.last());
    }
}

/// Inserts `e` into `v`, which is in order, after every entry whose number is not greater.
fn insert_entry(v: &mut Vec<(usize, usize)>, e: (usize, usize))
    ensures
        pairs_of(final(v)@) == insert_in_order(pairs_of(old(v)@), (e.0 as int, e.1 as int)),
{
    let ghost s = pairs_of(v@);
    let ghost pe = (e.0 as int, e.1 as int);
    let mut p: usize = v.len();
    assert(s.take(p as int) == s);
    assert(s.skip(p as int) =~= Seq::<(int, int)>::empty());
    while p > 0 && v[p - 1].0 > e.0
        invariant
            p <= v.len(),
            v@ == old(v)@,
            s == pairs_of(v@),
            pe == (e.0 as int, e.1 as int),
            insert_in_order(s, pe) == insert_in_order(s.take(p as int), pe) + s.skip(p as int),
        decreases p,
    {
        let ghost t = s.take(p as int);
        assert(s[p - 1] == (v@[p - 1].0 as int, v@[p - 1].1 as int));
        assert(t.last() == s[p - 1]);
        assert(t.drop_last() == s.take(p - 1));
        assert(insert_in_order(t, pe) == insert_in_order(s.take(p - 1), pe).push(s[p - 1]));
        assert(insert_in_order(s.take(p - 1), pe).push(s[p - 1]) + s.skip(p as int)
            =~= insert_in_order(s.take(p - 1), pe) + s.skip(p - 1));
        p = p - 1;
    }
    proof {
        if p > 0 {
            assert(s[p - 1] == (v@[p - 1].0 as int, v@[p - 1].1 as int));
            assert(s.take(p as int).last() == s[p - 1]);
        }
        assert(insert_in_order(s.take(p as int), pe) == s.take(p as int).push(pe));
    }
    v.insert(p, e);
    assert(pairs_of(v@) =~= s.take(p as int).push(pe) + s.skip(p as int));
}

/// The entries of `v` in order of their numbers (see [`in_order`]).
pub fn put_in_order(v: &Vec<(usize, usize)>) -> (res: Vec<(usize, usize)>)
    ensures
        pairs_of(res@) == in_order(pairs_of(v@)),
{
    let mut out: Vec<(usize, usize)> = Vec::new();
    let ghost s = pairs_of(v@);
    let mut i: usize = 0;
    assert(pairs_of(out@) =~= in_order(s.take(0)));
    while i < v.len()
        invariant
            i <= v.len(),
            s == pairs_of(v@),
            pairs_of(out@) == in_order(s.take(i as int)),
        decreases v.len() - i,
    {
        assert(s.take(i as int + 1).drop_last() == s.take(i as int));
        assert(s.take(i as int + 1).last() == s[i as int]);
        insert_entry(&mut out, v[i]);
        i = i + 1;
    }
    assert(s.take(v.len() as int) == s);
    out
}

} // verus!
