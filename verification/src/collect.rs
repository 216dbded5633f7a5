//! Sequences of what a series of steps yields, where a step may yield nothing.
use vstd::prelude::*;

verus! {

/// What the steps `0` to `n - 1` yield, in order.
pub open spec fn collect<T>(n: nat, step: spec_fn(int) -> Option<T>) -> Seq<T>
    decreases n,
{
    if n == 0 {
        Seq::empty()
    } else {
        let earlier = collect((n - 1) as nat, step);
        match step(n - 1) {
            Some(item) => earlier.push(item),
            None => earlier,
        }
    }
}

/// Steps that yield nothing collect to nothing.
pub proof fn lemma_collect_none<T>(n: nat, step: spec_fn(int) -> Option<T>)
    requires
        forall|i: int| 0 <= i < n ==> #[trigger] step(i) is None,
    ensures
        collect(n, step) == Seq::<T>::empty(),
    decreases n,
{
    if n > 0 {
        assert(step(n - 1) is None);
        lemma_collect_none((n - 1) as nat, step);
    }
}

/// More steps yield no less.
pub proof fn lemma_collect_grows<T>(m: nat, n: nat, step: spec_fn(int) -> Option<T>)
    requires
        m <= n,
    ensures
        collect(m, step).len() <= collect(n, step).len(),
    decreases n,
{
    if m < n {
        lemma_collect_grows(m, (n - 1) as nat, step);
    }
}

/// What a step yields is collected.
pub proof fn lemma_collect_has<T>(n: nat, step: spec_fn(int) -> Option<T>, i: int) -> (k: int)
    requires
        0 <= i < n,
        step(i) is Some,
    ensures
        0 <= k < collect(n, step).len(),
        collect(n, step)[k] == step(i)->0,
    decreases n,
{
    if i == n - 1 {
        collect(n, step).len() - 1
    } else {
        lemma_collect_has((n - 1) as nat, step, i)
    }
}

/// What is collected was yielded by a step.
pub proof fn lemma_collect_member<T>(n: nat, step: spec_fn(int) -> Option<T>, k: int) -> (i: int)
    requires
        0 <= k < collect(n, step).len(),
    ensures
        0 <= i < n,
        step(i) == Some(collect(n, step)[k]),
    decreases n,
{
    let earlier = collect((n - 1) as nat, step);
    if k < earlier.len() {
        lemma_collect_member((n - 1) as nat, step, k)
    } else {
        n - 1
    }
}

/// Whether positions are in order, each of them once.
pub open spec fn increasing(at: Seq<int>) -> bool {
    forall|k: int, l: int| 0 <= k < l < at.len() ==> #[trigger] at[k] < #[trigger] at[l]
}

/// What is collected comes from the steps that yield anything, each once and in
/// their order.
pub proof fn lemma_collect_order<T>(n: nat, step: spec_fn(int) -> Option<T>) -> (at: Seq<int>)
    ensures
        at.len() == collect(n, step).len(),
        increasing(at),
        forall|k: int|
            0 <= k < at.len() ==> 0 <= #[trigger] at[k] < n && step(at[k]) == Some(
                collect(n, step)[k],
            ),
        forall|i: int| 0 <= i < n && step(i) is Some ==> #[trigger] at.contains(i),
    decreases n,
{
    if n == 0 {
        Seq::empty()
    } else {
        let earlier = lemma_collect_order((n - 1) as nat, step);
        match step(n - 1) {
            Some(_) => {
                let at = earlier.push(n - 1);
                assert(at[at.len() - 1] == n - 1);
                assert forall|i: int| 0 <= i < n && step(i) is Some implies #[trigger] at.contains(
                    i,
                ) by {
                    if i < n - 1 {
                        assert(earlier.contains(i));
                        let k = choose|k: int| 0 <= k < earlier.len() && earlier[k] == i;
                        assert(at[k] == i);
                    }
                }
                at
            },
            None => earlier,
        }
    }
}

/// What the last item yields that yields anything.
pub open spec fn latest<T, U>(items: Seq<T>, pick: spec_fn(T) -> Option<U>) -> Option<U>
    decreases items.len(),
{
    if items.len() == 0 {
        None
    } else {
        match pick(items.last()) {
            Some(value) => Some(value),
            None => latest(items.drop_last(), pick),
        }
    }
}

/// Later items come first.
pub proof fn lemma_latest_concat<T, U>(
    earlier: Seq<T>,
    later: Seq<T>,
    pick: spec_fn(T) -> Option<U>,
)
    ensures
        latest(earlier + later, pick) == match latest(later, pick) {
            Some(value) => Some(value),
            None => latest(earlier, pick),
        },
    decreases later.len(),
{
    if later.len() == 0 {
        assert(earlier + later =~= earlier);
    } else {
        assert((earlier + later).drop_last() =~= earlier + later.drop_last());
        lemma_latest_concat(earlier, later.drop_last(), pick);
    }
}

/// Items that yield nothing have no last one that does.
pub proof fn lemma_latest_none<T, U>(items: Seq<T>, pick: spec_fn(T) -> Option<U>)
    requires
        forall|i: int| 0 <= i < items.len() ==> pick(#[trigger] items[i]) is None,
    ensures
        latest(items, pick) is None,
    decreases items.len(),
{
    if items.len() > 0 {
        assert(pick(items[items.len() - 1]) is None);
        lemma_latest_none(items.drop_last(), pick);
    }
}

} // verus!
