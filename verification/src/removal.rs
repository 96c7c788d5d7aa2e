//! Taking several entries out of a list by index: the indices are sorted and
//! the entries swap-removed from the highest index down.
use vstd::prelude::*;

verus! {

/// `v` inserted into the sorted sequence `s` before its first element not below `v`.
pub open spec fn insert_sorted(s: Seq<usize>, v: usize) -> Seq<usize>
    decreases s.len(),
{
    if s.len() == 0 {
        seq![v]
    } else if v <= s[0] {
        seq![v] + s
    } else {
        seq![s[0]] + insert_sorted(s.drop_first(), v)
    }
}

/// `s` sorted in increasing order (by insertion, from the first element on).
pub open spec fn sorted(s: Seq<usize>) -> Seq<usize>
    decreases s.len(),
{
    if s.len() == 0 {
        Seq::empty()
    } else {
        insert_sorted(sorted(s.drop_last()), s.last())
    }
}

pub open spec fn is_sorted(s: Seq<usize>) -> bool {
    forall|i: int, j: int| 0 <= i < j < s.len() ==> s[i] <= s[j]
}

/// `s` with entry `i` replaced by the last entry, and the last entry dropped.
pub open spec fn swap_removed<T>(s: Seq<T>, i: int) -> Seq<T> {
    s.update(i, s.last()).drop_last()
}

/// Swap-removes the entries at `order`, one after the other; returns what is
/// left and what was taken out, in that order.
pub open spec fn remove_all<T>(s: Seq<T>, order: Seq<usize>) -> (Seq<T>, Seq<T>)
    decreases order.len(),
{
    if order.len() == 0 {
        (s, Seq::empty())
    } else {
        let (rest, taken) = remove_all(swap_removed(s, order[0] as int), order.drop_first());
        (rest, seq![s[order[0] as int]] + taken)
    }
}

/// Whether every index of `order` is in range when its turn comes.
pub open spec fn remove_ok(len: int, order: Seq<usize>) -> bool {
    forall|k: int| 0 <= k < order.len() ==> #[trigger] order[k] < len - k
}

/// The order in which `take_indices` removes: from the highest index down.
pub open spec fn removal_order(ids: Seq<usize>) -> Seq<usize> {
    sorted(ids).reverse()
}

proof fn lemma_insert_sorted(s: Seq<usize>, v: usize, p: int)
    requires
        is_sorted(s),
        0 <= p <= s.len(),
        forall|k: int| 0 <= k < p ==> #[trigger] s[k] < v,
        p < s.len() ==> v <= s[p],
    ensures
        insert_sorted(s, v) == s.insert(p, v),
        is_sorted(s.insert(p, v)),
        insert_sorted(s, v).len() == s.len() + 1,
    decreases s.len(),
{
    if s.len() == 0 {
        assert(s.insert(p, v) =~= seq![v]);
    } else if p == 0 {
        assert(s.insert(p, v) =~= seq![v] + s);
    } else {
        lemma_insert_sorted(s.drop_first(), v, p - 1);
        assert(s.insert(p, v) =~= seq![s[0]] + s.drop_first().insert(p - 1, v));
    }
}

/// Sorts a list of indices in increasing order.
pub fn sort_indices(ids: &Vec<usize>) -> (r: Vec<usize>)
    ensures
        r@ == sorted(ids@),
        is_sorted(r@),
{
    let mut r: Vec<usize> = Vec::new();
    let n = ids.len();
    let mut i: usize = 0;
    while i < n
        invariant
            n == ids@.len(),
            i <= n,
            r@ == sorted(ids@.take(i as int)),
            is_sorted(r@),
        decreases n - i,
    {
        let v = ids[i];
        let mut p: usize = 0;
        while p < r.len() && r[p] < v
            invariant
                p <= r@.len(),
                forall|k: int| 0 <= k < p ==> #[trigger] r@[k] < v,
            decreases r@.len() - p,
        {
            p += 1;
        }
        proof {
            lemma_insert_sorted(r@, v, p as int);
            assert(ids@.take(i + 1).drop_last() =~= ids@.take(i as int));
            assert(ids@.take(i + 1).last() == v);
        }
        r.insert(p, v);
        i += 1;
    }
    proof {
        assert(ids@.take(n as int) =~= ids@);
    }
    r
}

/// Swap-removes the entries of `v` at `ids`, from the highest index down, and
/// returns them in the order they were taken out.
pub fn take_indices<T>(v: &mut Vec<T>, ids: &Vec<usize>) -> (taken: Vec<T>)
    requires
        remove_ok(old(v)@.len() as int, removal_order(ids@)),
    ensures
        (final(v)@, taken@) == remove_all(old(v)@, removal_order(ids@)),
{
    let order = sort_indices(ids);
    let ghost all = order@.reverse();
    let mut taken: Vec<T> = Vec::new();
    let mut k = order.len();
    proof {
        assert(all.subrange(0, all.len() as int) =~= all);
        let (rest, tk) = remove_all(v@, all);
        assert(taken@ + tk =~= tk);
    }
    while k > 0
        invariant
            k <= order@.len(),
            all == order@.reverse(),
            remove_ok(old(v)@.len() as int, all),
            v@.len() == old(v)@.len() - (order@.len() - k),
            ({
                let done = (order@.len() - k) as int;
                let (rest, tk) = remove_all(v@, all.subrange(done, all.len() as int));
                remove_all(old(v)@, all) == (rest, taken@ + tk)
            }),
        decreases k,
    {
        let ghost done = (order@.len() - k) as int;
        let id = order[k - 1];
        proof {
            assert(all[done] == order@[k - 1]);
            assert(id < old(v)@.len() - done);
            let sub = all.subrange(done, all.len() as int);
            assert(sub[0] == id);
            assert(sub.drop_first() =~= all.subrange(done + 1, all.len() as int));
        }
        let ghost before = v@;
        let ghost taken_before = taken@;
        let e = v.swap_remove(id);
        taken.push(e);
        proof {
            assert(v@ =~= swap_removed(before, id as int));
            let (rest, tk) = remove_all(v@, all.subrange(done + 1, all.len() as int));
            assert(taken_before + (seq![before[id as int]] + tk) =~= taken@ + tk);
        }
        k -= 1;
    }
    proof {
        assert(all.subrange(order@.len() as int, all.len() as int) =~= Seq::<usize>::empty());
    }
    taken
}

} // verus!
