//! Replaying a ticker's buy and sell operations in the order they happened:
//! how many shares were held after each one.

use vstd::prelude::*;

use crate::series::{day_bucket, MS_PER_DAY};

verus! {

/// One operation of the ledger, as far as the number of shares goes.
pub struct LedgerEntry {
    pub is_buy: bool,
    pub quantity: i32,
    /// When it happened, in milliseconds since the Unix epoch.
    pub created_at_ms: i64,
}

/// The state after one replayed operation.
pub struct QuantityCheckpoint {
    /// The position of the operation in the ledger that was given.
    pub op: usize,
    /// The UTC day it happened on.
    pub day: i64,
    /// The shares held right after it.
    pub quantity: i32,
}

/// The times of the operations.
pub open spec fn times(ops: Seq<LedgerEntry>) -> Seq<i64> {
    ops.map_values(|e: LedgerEntry| e.created_at_ms)
}

/// `order` lists every operation once, by time, operations of the same time
/// in the order they were given (what a stable sort by time gives).
pub open spec fn in_time_order(ts: Seq<i64>, order: Seq<usize>) -> bool {
    &&& order.len() == ts.len()
    &&& forall|k: int| 0 <= k < order.len() ==> #[trigger] order[k] < ts.len()
    &&& forall|a: int, b: int|
        0 <= a < b < order.len() ==> ts[#[trigger] order[a] as int] < ts[#[trigger] order[b] as int] || (
        ts[order[a] as int] == ts[order[b] as int] && order[a] < order[b])
    &&& forall|j: usize| j < ts.len() ==> #[trigger] order.contains(j)
}

/// Shares held after `ops`, replayed from none: a buy adds its quantity; a
/// sell takes its quantity away, and a position sold down to zero or below
/// is closed at zero.
pub open spec fn held_after(ops: Seq<(bool, int)>) -> int
    decreases ops.len(),
{
    if ops.len() == 0 {
        0
    } else {
        let q = held_after(ops.drop_last());
        let (buy, n) = ops.last();
        if buy {
            q + n
        } else if q - n <= 0 {
            0
        } else {
            q - n
        }
    }
}

/// The running count before an operation's closing-at-zero: what has to fit
/// in an `i32`.
pub open spec fn raw_step(q: int, op: (bool, int)) -> int {
    if op.0 {
        q + op.1
    } else {
        q - op.1
    }
}

/// The operations in the order `order` lists them, as (buy, quantity).
pub open spec fn ordered(ops: Seq<LedgerEntry>, order: Seq<usize>) -> Seq<(bool, int)> {
    order.map_values(|i: usize| (ops[i as int].is_buy, ops[i as int].quantity as int))
}

/// Replaying `seq` never takes the running count out of the `i32` range.
pub open spec fn replay_fits(seq: Seq<(bool, int)>) -> bool {
    forall|k: int|
        0 <= k < seq.len() ==> i32::MIN <= #[trigger] raw_step(held_after(seq.take(k)), seq[k])
            <= i32::MAX
}

/// Positions of `ts` sorted by time, equal times kept in the given order.
pub fn time_order(ts: &Vec<i64>) -> (order: Vec<usize>)
    ensures
        in_time_order(ts@, order@),
{
    let mut order: Vec<usize> = Vec::new();
    let mut i: usize = 0;
    while i < ts.len()
        invariant
            i <= ts@.len(),
            order@.len() == i,
            forall|k: int| 0 <= k < order@.len() ==> #[trigger] order@[k] < i,
            forall|a: int, b: int|
                0 <= a < b < order@.len() ==> ts@[#[trigger] order@[a] as int] < ts@[
                    #[trigger] order@[b] as int] || (ts@[order@[a] as int] == ts@[order@[b] as int]
                    && order@[a] < order@[b]),
            forall|j: usize| j < i ==> #[trigger] order@.contains(j),
        decreases ts@.len() - i,
    {
        let key = ts[i];
        let mut p: usize = order.len();
        while p > 0 && ts[order[p - 1]] > key
            invariant
                p <= order@.len(),
                order@.len() == i,
                i < ts@.len(),
                key == ts@[i as int],
                forall|k: int| 0 <= k < order@.len() ==> #[trigger] order@[k] < i,
                forall|k: int| p <= k < order@.len() ==> ts@[#[trigger] order@[k] as int] > key,
            decreases p,
        {
            p = p - 1;
        }
        let ghost before = order@;
        order.insert(p, i);
        assert(order@ == before.insert(p as int, i));
        assert forall|k: int| 0 <= k < order@.len() implies #[trigger] order@[k] < i + 1 by {
            if k < p {
                assert(order@[k] == before[k]);
            } else if k > p {
                assert(order@[k] == before[k - 1]);
            }
        }
        assert forall|a: int, b: int| 0 <= a < b < order@.len() implies ts@[#[trigger] order@[a] as int]
            < ts@[#[trigger] order@[b] as int] || (ts@[order@[a] as int] == ts@[order@[b] as int]
            && order@[a] < order@[b]) by {
            if b < p {
                assert(order@[a] == before[a]);
                assert(order@[b] == before[b]);
            } else if a > p {
                assert(order@[a] == before[a - 1]);
                assert(order@[b] == before[b - 1]);
            } else if a == p {
                assert(order@[b] == before[b - 1]);
                assert(ts@[before[b - 1] as int] > key);
            } else if b == p {
                assert(order@[a] == before[a]);
                if p > 0 {
                    assert(ts@[before[p - 1] as int] <= key);
                    if a < p - 1 {
                        assert(ts@[before[a] as int] < ts@[before[p - 1] as int] || ts@[before[a] as int]
                            == ts@[before[p - 1] as int]);
                    }
                }
                assert(before[a] < i);
            } else {
                assert(order@[a] == before[a]);
                assert(order@[b] == before[b - 1]);
            }
        }
        assert forall|j: usize| j < i + 1 implies #[trigger] order@.contains(j) by {
            if j == i {
                assert(order@[p as int] == i);
            } else {
                assert(before.contains(j));
                let k = choose|k: int| 0 <= k < before.len() && before[k] == j;
                if k < p {
                    assert(order@[k] == before[k]);
                } else {
                    assert(order@[k + 1] == before[k]);
                }
            }
        }
        i = i + 1;
    }
    order
}

/// The ledger replayed in time order: for each operation, in that order, its
/// position in `ops`, its UTC day and the shares held right after it. The
/// running count must stay within the `i32` range.
pub fn quantity_checkpoints(ops: &Vec<LedgerEntry>) -> (r: Vec<QuantityCheckpoint>)
    requires
        forall|order: Seq<usize>| #[trigger]
            in_time_order(times(ops@), order) ==> replay_fits(ordered(ops@, order)),
    ensures
        exists|order: Seq<usize>|
            #[trigger] in_time_order(times(ops@), order) && r@.len() == order.len() && forall|k: int|
                0 <= k < r@.len() ==> {
                    &&& (#[trigger] r@[k]).op == order[k]
                    &&& r@[k].day == ops@[order[k] as int].created_at_ms as int / MS_PER_DAY as int
                    &&& r@[k].quantity == held_after(ordered(ops@, order).take(k + 1))
                },
{
    let mut ts: Vec<i64> = Vec::new();
    let mut i: usize = 0;
    while i < ops.len()
        invariant
            i <= ops@.len(),
            ts@ == times(ops@).take(i as int),
        decreases ops@.len() - i,
    {
        ts.push(ops[i].created_at_ms);
        i = i + 1;
        assert(ts@ =~= times(ops@).take(i as int));
    }
    assert(ts@ =~= times(ops@));
    let order = time_order(&ts);
    let ghost seq = ordered(ops@, order@);
    assert(replay_fits(seq));
    let mut out: Vec<QuantityCheckpoint> = Vec::new();
    let mut quantity: i32 = 0;
    let mut k: usize = 0;
    while k < order.len()
        invariant
            k <= order@.len(),
            in_time_order(times(ops@), order@),
            seq == ordered(ops@, order@),
            replay_fits(seq),
            quantity == held_after(seq.take(k as int)),
            out@.len() == k,
            forall|m: int|
                0 <= m < k ==> {
                    &&& (#[trigger] out@[m]).op == order@[m]
                    &&& out@[m].day == ops@[order@[m] as int].created_at_ms as int / MS_PER_DAY as int
                    &&& out@[m].quantity == held_after(seq.take(m + 1))
                },
        decreases order@.len() - k,
    {
        let idx = order[k];
        let e = &ops[idx];
        assert(seq[k as int] == (e.is_buy, e.quantity as int));
        assert(seq.take(k + 1).drop_last() =~= seq.take(k as int));
        assert(seq.take(k + 1).last() == seq[k as int]);
        let ghost fits = raw_step(held_after(seq.take(k as int)), seq[k as int]);
        assert(i32::MIN <= fits <= i32::MAX);
        if e.is_buy {
            quantity = quantity + e.quantity;
        } else {
            quantity = quantity - e.quantity;
            if quantity <= 0 {
                quantity = 0;
            }
        }
        out.push(QuantityCheckpoint { op: idx, day: day_bucket(e.created_at_ms), quantity });
        k = k + 1;
    }
    out
}

proof fn lemma_time_order_prefix(ts: Seq<i64>, o1: Seq<usize>, o2: Seq<usize>, k: int)
    requires
        in_time_order(ts, o1),
        in_time_order(ts, o2),
        0 <= k <= o1.len(),
    ensures
        forall|j: int| 0 <= j < k ==> o1[j] == o2[j],
    decreases k,
{
    if k > 0 {
        lemma_time_order_prefix(ts, o1, o2, k - 1);
        let i = k - 1;
        let x = o1[i];
        let y = o2[i];
        if x != y {
            assert(o1[i] < ts.len());
            assert(o2[i] < ts.len());
            assert(o2.contains(x));
            let p = choose|p: int| 0 <= p < o2.len() && o2[p] == x;
            assert(o1.contains(y));
            let q = choose|q: int| 0 <= q < o1.len() && o1[q] == y;
            if p < i {
                assert(o1[p] == o2[p]);
            }
            if q < i {
                assert(o1[q] == o2[q]);
            }
            assert(p > i);
            assert(q > i);
            assert(ts[o2[i] as int] < ts[o2[p] as int] || (ts[o2[i] as int] == ts[o2[p] as int] && o2[i]
                < o2[p]));
            assert(ts[o1[i] as int] < ts[o1[q] as int] || (ts[o1[i] as int] == ts[o1[q] as int] && o1[i]
                < o1[q]));
        }
    }
}

/// There is exactly one time order of a ledger: the operations sorted by
/// time, ties kept in the order given.
pub proof fn time_order_is_unique(ts: Seq<i64>, o1: Seq<usize>, o2: Seq<usize>)
    requires
        in_time_order(ts, o1),
        in_time_order(ts, o2),
    ensures
        o1 == o2,
{
    lemma_time_order_prefix(ts, o1, o2, o1.len() as int);
    assert(o1 =~= o2);
}

/// Whether replaying `ops` in time order keeps the running count within the
/// `i32` range: what `quantity_checkpoints` requires of its ledger.
pub fn replay_stays_in_range(ops: &Vec<LedgerEntry>) -> (b: bool)
    ensures
        b == forall|order: Seq<usize>| #[trigger]
            in_time_order(times(ops@), order) ==> replay_fits(ordered(ops@, order)),
{
    let mut ts: Vec<i64> = Vec::new();
    let mut i: usize = 0;
    while i < ops.len()
        invariant
            i <= ops@.len(),
            ts@ == times(ops@).take(i as int),
        decreases ops@.len() - i,
    {
        ts.push(ops[i].created_at_ms);
        i = i + 1;
        assert(ts@ =~= times(ops@).take(i as int));
    }
    assert(ts@ =~= times(ops@));
    let order = time_order(&ts);
    let ghost seq = ordered(ops@, order@);
    proof {
        assert forall|o: Seq<usize>| #[trigger] in_time_order(times(ops@), o) implies o == order@ by {
            time_order_is_unique(times(ops@), o, order@);
        }
    }
    let mut held: i64 = 0;
    let mut k: usize = 0;
    while k < order.len()
        invariant
            k <= order@.len(),
            in_time_order(times(ops@), order@),
            seq == ordered(ops@, order@),
            held == held_after(seq.take(k as int)),
            i32::MIN <= held <= i32::MAX,
            forall|j: int|
                0 <= j < k ==> i32::MIN <= #[trigger] raw_step(held_after(seq.take(j)), seq[j])
                    <= i32::MAX,
        decreases order@.len() - k,
    {
        let e = &ops[order[k]];
        assert(seq[k as int] == (e.is_buy, e.quantity as int));
        assert(seq.take(k + 1).drop_last() =~= seq.take(k as int));
        assert(seq.take(k + 1).last() == seq[k as int]);
        let q = e.quantity as i64;
        let raw: i64 = if e.is_buy {
            held + q
        } else {
            held - q
        };
        assert(raw == raw_step(held_after(seq.take(k as int)), seq[k as int]));
        if raw < i32::MIN as i64 || raw > i32::MAX as i64 {
            assert(!replay_fits(seq));
            return false;
        }
        held = if !e.is_buy && raw <= 0 {
            0
        } else {
            raw
        };
        k = k + 1;
    }
    assert(replay_fits(seq));
    true
}

/// With no negative quantities in the ledger, the shares held never drop
/// below zero: selling more than is held closes the position at zero.
pub proof fn held_never_negative(ops: Seq<(bool, int)>)
    requires
        forall|k: int| 0 <= k < ops.len() ==> (#[trigger] ops[k]).1 >= 0,
    ensures
        held_after(ops) >= 0,
    decreases ops.len(),
{
    if ops.len() > 0 {
        held_never_negative(ops.drop_last());
        assert(ops.last().1 >= 0);
    }
}

} // verus!
