use vstd::arithmetic::power2::{lemma2_to64, lemma_pow2_unfold, pow2};
use vstd::prelude::*;

verus! {

/// The largest demand that doubling can serve without leaving `u64`.
pub const MAX_DEMAND: u64 = 0x8000_0000_0000_0000;

/// The capacity reached from `capacity` by doubling it until it holds `demand`.
/// A capacity that already holds the demand is kept as it is.
pub open spec fn grown_capacity(capacity: nat, demand: nat) -> nat
    decreases (if capacity < demand { demand - capacity } else { 0 }),
{
    if capacity == 0 || capacity >= demand {
        capacity
    } else {
        grown_capacity(2 * capacity, demand)
    }
}

/// How many doublings `grown_capacity` takes.
pub open spec fn doublings(capacity: nat, demand: nat) -> nat
    decreases (if capacity < demand { demand - capacity } else { 0 }),
{
    if capacity == 0 || capacity >= demand {
        0
    } else {
        1 + doublings(2 * capacity, demand)
    }
}

/// The capacity after a sequence of frame demands, starting from `initial`.
pub open spec fn capacity_after(initial: nat, demands: Seq<nat>) -> nat
    decreases demands.len(),
{
    if demands.len() == 0 {
        initial
    } else {
        grown_capacity(capacity_after(initial, demands.drop_last()), demands.last())
    }
}

/// Growth never shrinks, and a positive capacity always ends up holding the demand.
pub proof fn lemma_grown_bounds(capacity: nat, demand: nat)
    requires
        capacity >= 1,
    ensures
        grown_capacity(capacity, demand) >= capacity,
        grown_capacity(capacity, demand) >= demand,
        capacity >= demand ==> grown_capacity(capacity, demand) == capacity,
        capacity < demand ==> grown_capacity(capacity, demand) < 2 * demand,
    decreases (if capacity < demand { demand - capacity } else { 0 }),
{
    if capacity < demand {
        lemma_grown_bounds(2 * capacity, demand);
    }
}

/// Growth is geometric: the new capacity is the old one doubled some number of times,
/// and that number is the least that reaches the demand (no doubling when the demand
/// already fits, and one doubling fewer would not hold the demand).
pub proof fn lemma_growth_is_doubling(capacity: nat, demand: nat)
    requires
        capacity >= 1,
    ensures
        grown_capacity(capacity, demand) == capacity * pow2(doublings(capacity, demand)),
        capacity * pow2(doublings(capacity, demand)) >= demand,
        doublings(capacity, demand) > 0 ==> capacity * pow2(
            (doublings(capacity, demand) - 1) as nat,
        ) < demand,
    decreases (if capacity < demand { demand - capacity } else { 0 }),
{
    lemma_grown_bounds(capacity, demand);
    if capacity < demand {
        let k = doublings(2 * capacity, demand);
        lemma_growth_is_doubling(2 * capacity, demand);
        lemma_pow2_unfold(k + 1);
        assert(capacity * pow2(k + 1) == (2 * capacity) * pow2(k)) by (nonlinear_arith)
            requires
                pow2(k + 1) == 2 * pow2(k),
        ;
        if k > 0 {
            lemma_pow2_unfold(k);
            assert(capacity * pow2(k) == (2 * capacity) * pow2((k - 1) as nat)) by (nonlinear_arith)
                requires
                    pow2(k) == 2 * pow2((k - 1) as nat),
            ;
        } else {
            lemma2_to64();
        }
    } else {
        lemma2_to64();
    }
}

/// Over any sequence of frame demands, the capacity never decreases from one frame to
/// a later one, and after each frame it holds every demand seen so far.
pub proof fn lemma_capacity_sequence(initial: nat, demands: Seq<nat>)
    requires
        initial >= 1,
    ensures
        forall|i: int, j: int|
            0 <= i <= j <= demands.len() ==> capacity_after(initial, #[trigger] demands.take(i))
                <= capacity_after(initial, #[trigger] demands.take(j)),
        forall|i: int, k: int|
            0 <= k < i <= demands.len() ==> capacity_after(initial, #[trigger] demands.take(i))
                >= #[trigger] demands[k],
    decreases demands.len(),
{
    if demands.len() > 0 {
        let prev = demands.drop_last();
        lemma_capacity_sequence(initial, prev);
        lemma_capacity_positive(initial, prev);
        let c = capacity_after(initial, prev);
        lemma_grown_bounds(c, demands.last());
        assert(demands.take(demands.len() as int) =~= demands);
        assert forall|i: int| 0 <= i <= prev.len() implies #[trigger] demands.take(i)
            == prev.take(i) by {
            assert(demands.take(i) =~= prev.take(i));
        }
        assert(prev.take(prev.len() as int) =~= prev);
        assert forall|i: int, j: int|
            0 <= i <= j <= demands.len() implies capacity_after(
            initial,
            #[trigger] demands.take(i),
        ) <= capacity_after(initial, #[trigger] demands.take(j)) by {
            if j == demands.len() && i < j {
                assert(capacity_after(initial, demands.take(i)) <= c);
            }
        }
        assert forall|i: int, k: int|
            0 <= k < i <= demands.len() implies capacity_after(
            initial,
            #[trigger] demands.take(i),
        ) >= #[trigger] demands[k] by {
            if i == demands.len() {
                if k < prev.len() {
                    assert(prev[k] == demands[k]);
                    assert(c >= prev[k]);
                }
            } else {
                assert(prev[k] == demands[k]);
            }
        }
    }
}

proof fn lemma_capacity_positive(initial: nat, demands: Seq<nat>)
    requires
        initial >= 1,
    ensures
        capacity_after(initial, demands) >= 1,
    decreases demands.len(),
{
    if demands.len() > 0 {
        lemma_capacity_positive(initial, demands.drop_last());
        lemma_grown_bounds(capacity_after(initial, demands.drop_last()), demands.last());
    }
}

/// Decides whether a buffer of `capacity` elements must grow to hold `demand` elements.
/// Returns the new capacity, doubled from the old one until it holds the demand, and
/// whether it changed (the buffer must then be recreated and its bindings rebuilt).
pub fn grow_capacity(capacity: u64, demand: u64) -> (r: (u64, bool))
    requires
        capacity >= 1,
        demand <= MAX_DEMAND,
    ensures
        r.0 == grown_capacity(capacity as nat, demand as nat),
        r.1 == (demand > capacity),
        r.0 >= capacity,
        r.0 >= demand,
{
    proof {
        lemma_grown_bounds(capacity as nat, demand as nat);
    }
    if demand <= capacity {
        return (capacity, false);
    }
    let mut c: u64 = capacity;
    while c < demand
        invariant
            1 <= c,
            demand <= MAX_DEMAND,
            grown_capacity(c as nat, demand as nat) == grown_capacity(
                capacity as nat,
                demand as nat,
            ),
        decreases (if c < demand { demand - c } else { 0 }),
    {
        c = c * 2;
    }
    (c, true)
}

} // verus!
