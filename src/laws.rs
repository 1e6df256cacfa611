use vstd::prelude::*;
use crate::cell::{CellView, heap_step};

verus! {

/// A run of heap states, each one reached from the one before by a single
/// operation, with every cell well formed.
pub open spec fn valid_trace<T>(t: Seq<Seq<CellView<T>>>) -> bool {
    &&& forall|k: int, i: int| 0 <= k < t.len() && 0 <= i < t[k].len() ==> (#[trigger] t[k][i]).wf()
    &&& forall|k: int| 0 <= k < t.len() - 1 ==> heap_step(#[trigger] t[k], t[k + 1])
}

/// Between states `k` and `k + 1` the value of cell `c` was destroyed.
pub open spec fn destroyed_at<T>(t: Seq<Seq<CellView<T>>>, c: int, k: int) -> bool {
    &&& 0 <= k
    &&& k + 1 < t.len()
    &&& 0 <= c < t[k].len()
    &&& t[k][c].value is Some
    &&& t[k + 1][c].value is None
}

/// Once a cell's strong count is zero it stays zero, and its value stays
/// gone, whatever operations follow.
pub proof fn lemma_dead_stays_dead<T>(t: Seq<Seq<CellView<T>>>, c: int, i: int, j: int)
    requires
        valid_trace(t),
        0 <= i <= j < t.len(),
        0 <= c < t[i].len(),
        t[i][c].strong == 0,
    ensures
        c < t[j].len(),
        t[j][c].strong == 0,
        t[j][c].value is None,
    decreases j - i,
{
    if i < j {
        assert(heap_step(t[i], t[i + 1]));
        lemma_dead_stays_dead(t, c, i + 1, j);
    }
    assert(t[j][c].wf());
}

/// A cell's value is destroyed in a step exactly when its strong count goes
/// from one to zero in that step.
pub proof fn lemma_destroyed_when_last_strong_leaves<T>(t: Seq<Seq<CellView<T>>>, c: int, k: int)
    requires
        valid_trace(t),
        0 <= k,
        k + 1 < t.len(),
        0 <= c < t[k].len(),
    ensures
        destroyed_at(t, c, k) <==> (t[k][c].strong == 1 && t[k + 1][c].strong == 0),
{
    assert(heap_step(t[k], t[k + 1]));
    assert(t[k][c].wf());
    assert(t[k + 1][c].wf());
}

/// A cell's value is destroyed at most once in any run.
pub proof fn lemma_destroyed_once<T>(t: Seq<Seq<CellView<T>>>, c: int, k1: int, k2: int)
    requires
        valid_trace(t),
        destroyed_at(t, c, k1),
        destroyed_at(t, c, k2),
    ensures
        k1 == k2,
{
    if k1 != k2 {
        let (a, b) = if k1 < k2 { (k1, k2) } else { (k2, k1) };
        assert(t[a + 1][c].wf());
        lemma_dead_stays_dead(t, c, a + 1, b);
    }
}

} // verus!
