//! Puts the results of concurrently run work back into document order.
use vstd::prelude::*;

verus! {

/// Every position below `n` arrives exactly once.
pub open spec fn arrivals_complete<T>(n: nat, arrivals: Seq<(usize, T)>) -> bool {
    &&& arrivals.len() == n
    &&& forall|i: int| 0 <= i < arrivals.len() ==> (#[trigger] arrivals[i]).0 < n
    &&& forall|i: int, j: int|
        0 <= i < arrivals.len() && 0 <= j < arrivals.len() && i != j ==> (#[trigger] arrivals[i]).0
            != (#[trigger] arrivals[j]).0
    &&& forall|p: int| 0 <= p < n ==> #[trigger] has_arrival(arrivals, p)
}

/// Some result arrived for position `p`.
pub open spec fn has_arrival<T>(arrivals: Seq<(usize, T)>, p: int) -> bool {
    exists|i: int| 0 <= i < arrivals.len() && (#[trigger] arrivals[i]).0 == p
}

/// The result that arrived for position `p`.
pub open spec fn arrived_at<T>(arrivals: Seq<(usize, T)>, p: int) -> T {
    arrivals[choose|i: int| 0 <= i < arrivals.len() && (#[trigger] arrivals[i]).0 == p].1
}

/// The results in the order of their positions.
pub open spec fn placed<T>(n: nat, arrivals: Seq<(usize, T)>) -> Seq<T> {
    Seq::new(n, |p: int| arrived_at(arrivals, p))
}

/// Takes results in the order in which they finished, each with the position of the
/// work that gave it, and returns them in position order.
pub fn place_in_order<T>(n: usize, arrivals: Vec<(usize, T)>) -> (r: Vec<T>)
    requires
        arrivals_complete(n as nat, arrivals@),
    ensures
        r@ == placed(n as nat, arrivals@),
{
    let ghost arr = arrivals@;
    let mut slots: Vec<Option<T>> = Vec::new();
    let mut k: usize = 0;
    while k < n
        invariant
            k <= n,
            slots@.len() == k,
            forall|p: int| 0 <= p < k ==> (#[trigger] slots@[p]) is None,
        decreases n - k,
    {
        slots.push(None);
        k = k + 1;
    }
    let mut arrivals = arrivals;
    while arrivals.len() > 0
        invariant
            arrivals_complete(n as nat, arr),
            arrivals@.len() <= arr.len(),
            arrivals@ == arr.subrange(0, arrivals@.len() as int),
            slots@.len() == n,
            forall|i: int| arrivals@.len() <= i < arr.len() ==> slots@[(#[trigger] arr[i]).0 as int] == Some(arr[i].1),
            forall|i: int| 0 <= i < arrivals@.len() ==> slots@[(#[trigger] arr[i]).0 as int] is None,
        decreases arrivals.len(),
    {
        let ghost m = arrivals@.len() - 1;
        let ghost before = arrivals@;
        let item = arrivals.pop().unwrap();
        assert(before =~= arrivals@.push(item));
        let (pos, value) = item;
        assert(arrivals@ =~= arr.subrange(0, arrivals@.len() as int));
        assert(arr[m] == (pos, value));
        slots.set(pos, Some(value));
        assert forall|i: int| 0 <= i < arrivals@.len() implies slots@[(#[trigger] arr[i]).0 as int] is None by {
            assert(arr[i].0 != arr[m].0);
        }
        assert forall|i: int| arrivals@.len() <= i < arr.len() implies slots@[(#[trigger] arr[i]).0 as int] == Some(arr[i].1) by {
            if i != m {
                assert(arr[i].0 != arr[m].0);
            }
        }
    }
    assert forall|p: int| 0 <= p < n implies (#[trigger] slots@[p]) == Some(arrived_at(arr, p)) by {
        assert(has_arrival(arr, p));
        let i = choose|i: int| 0 <= i < arr.len() && (#[trigger] arr[i]).0 == p;
        assert(slots@[arr[i].0 as int] == Some(arr[i].1));
    }
    let mut rev: Vec<T> = Vec::new();
    while slots.len() > 0
        invariant
            slots@.len() + rev@.len() == n,
            forall|p: int| 0 <= p < slots@.len() ==> (#[trigger] slots@[p]) == Some(arrived_at(arr, p)),
            forall|j: int| 0 <= j < rev@.len() ==> #[trigger] rev@[j] == arrived_at(arr, n - 1 - j),
        decreases slots.len(),
    {
        let ghost last = slots@.len() - 1;
        let slot = slots.pop().unwrap();
        assert(slot == Some(arrived_at(arr, last)));
        match slot {
            Some(v) => rev.push(v),
            None => {},
        }
    }
    let mut out: Vec<T> = Vec::new();
    while rev.len() > 0
        invariant
            out@.len() + rev@.len() == n,
            forall|j: int| 0 <= j < rev@.len() ==> #[trigger] rev@[j] == arrived_at(arr, n - 1 - j),
            forall|p: int| 0 <= p < out@.len() ==> #[trigger] out@[p] == arrived_at(arr, p),
        decreases rev.len(),
    {
        let v = rev.pop().unwrap();
        out.push(v);
    }
    assert(out@ =~= placed(n as nat, arr));
    out
}

/// Reassembly does not depend on the order in which work finished: any two arrival
/// orders of the same results give the same sequence.
pub proof fn lemma_completion_order_irrelevant<T>(n: nat, a: Seq<(usize, T)>, b: Seq<(usize, T)>)
    requires
        arrivals_complete(n, a),
        arrivals_complete(n, b),
        forall|i: int| 0 <= i < a.len() ==> b.contains(#[trigger] a[i]),
    ensures
        placed(n, a) == placed(n, b),
{
    assert forall|p: int| 0 <= p < n implies #[trigger] arrived_at(a, p) == arrived_at(b, p) by {
        assert(has_arrival(a, p) && has_arrival(b, p));
        let i = choose|i: int| 0 <= i < a.len() && (#[trigger] a[i]).0 == p;
        assert(b.contains(a[i]));
        let j = choose|j: int| 0 <= j < b.len() && b[j] == a[i];
        let jb = choose|k: int| 0 <= k < b.len() && (#[trigger] b[k]).0 == p;
        assert(b[j].0 == p);
        if jb != j {
            assert(b[jb].0 != b[j].0);
        }
    }
    assert(placed(n, a) =~= placed(n, b));
}

/// The parts joined end to end.
pub open spec fn flattened<T>(parts: Seq<Vec<T>>) -> Seq<T>
    decreases parts.len(),
{
    if parts.len() == 0 {
        Seq::empty()
    } else {
        flattened(parts.drop_last()) + parts.last()@
    }
}

/// Joins the events of a chapter's segments, in segment order.
pub fn flatten<T>(parts: Vec<Vec<T>>) -> (r: Vec<T>)
    ensures
        r@ == flattened(parts@),
{
    let ghost orig = parts@;
    let n = parts.len();
    let mut parts = parts;
    let mut rev: Vec<Vec<T>> = Vec::new();
    while parts.len() > 0
        invariant
            parts@ == orig.subrange(0, parts@.len() as int),
            rev@.len() + parts@.len() == orig.len(),
            forall|j: int| 0 <= j < rev@.len() ==> #[trigger] rev@[j] == orig[orig.len() - 1 - j],
        decreases parts.len(),
    {
        let p = parts.pop().unwrap();
        rev.push(p);
        assert(parts@ =~= orig.subrange(0, parts@.len() as int));
    }
    let mut out: Vec<T> = Vec::new();
    let mut i: usize = 0;
    assert(orig.subrange(0, 0) =~= Seq::<Vec<T>>::empty());
    while rev.len() > 0
        invariant
            n == orig.len(),
            i + rev@.len() == orig.len(),
            forall|j: int| 0 <= j < rev@.len() ==> #[trigger] rev@[j] == orig[orig.len() - 1 - j],
            out@ == flattened(orig.subrange(0, i as int)),
        decreases rev.len(),
    {
        let mut p = rev.pop().unwrap();
        assert(p == orig[i as int]);
        assert(orig.subrange(0, i + 1).drop_last() =~= orig.subrange(0, i as int));
        out.append(&mut p);
        i = i + 1;
    }
    assert(orig.subrange(0, orig.len() as int) =~= orig);
    out
}

} // verus!
