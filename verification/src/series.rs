//! Picking points out of price series and ledgers that are not trusted to be
//! ordered. Selection follows `Iterator::max_by_key`: among several points with
//! the same greatest key, the one that comes last wins.

use vstd::prelude::*;

verus! {

/// Milliseconds in a day.
pub const MS_PER_DAY: i64 = 86_400_000;

/// Milliseconds in a week.
pub const MS_PER_WEEK: i64 = 604_800_000;

/// Position `i` holds the greatest key among the positions whose guard is at
/// most `bound`, and no later such position holds the same key.
pub open spec fn is_last_max_within(keys: Seq<i64>, guards: Seq<i64>, bound: i64, i: int) -> bool {
    &&& 0 <= i < keys.len()
    &&& guards[i] <= bound
    &&& forall|j: int| 0 <= j < keys.len() && guards[j] <= bound ==> #[trigger] keys[j] <= keys[i]
    &&& forall|j: int| i < j < keys.len() && guards[j] <= bound ==> #[trigger] keys[j] < keys[i]
}

/// Some position has a guard that is at most `bound`.
pub open spec fn any_within(guards: Seq<i64>, bound: i64) -> bool {
    exists|j: int| 0 <= j < guards.len() && #[trigger] guards[j] <= bound
}

/// Position `i` holds the greatest key, and no later position holds the same key.
pub open spec fn is_last_max(keys: Seq<i64>, i: int) -> bool {
    &&& 0 <= i < keys.len()
    &&& forall|j: int| 0 <= j < keys.len() ==> #[trigger] keys[j] <= keys[i]
    &&& forall|j: int| i < j < keys.len() ==> #[trigger] keys[j] < keys[i]
}

/// Index of the last greatest key among positions whose guard is at most
/// `bound`; `None` when no guard is.
pub fn last_max_within(keys: &[i64], guards: &[i64], bound: i64) -> (r: Option<usize>)
    requires
        keys@.len() == guards@.len(),
    ensures
        r is None <==> !any_within(guards@, bound),
        r matches Some(i) ==> is_last_max_within(keys@, guards@, bound, i as int),
{
    let mut best: Option<usize> = None;
    let mut j: usize = 0;
    while j < keys.len()
        invariant
            j <= keys@.len(),
            keys@.len() == guards@.len(),
            best is None <==> !(exists|k: int| 0 <= k < j && #[trigger] guards@[k] <= bound),
            best matches Some(b) ==> {
                &&& b < j
                &&& guards@[b as int] <= bound
                &&& forall|k: int| 0 <= k < j && guards@[k] <= bound ==> #[trigger] keys@[k] <= keys@[b as int]
                &&& forall|k: int| b < k < j && guards@[k] <= bound ==> #[trigger] keys@[k] < keys@[b as int]
            },
        decreases keys@.len() - j,
    {
        if guards[j] <= bound {
            match best {
                None => {
                    best = Some(j);
                },
                Some(b) => {
                    if keys[j] >= keys[b] {
                        best = Some(j);
                    }
                },
            }
        }
        j = j + 1;
    }
    best
}

/// Index of the last greatest key; `None` for an empty series.
pub fn last_max(keys: &[i64]) -> (r: Option<usize>)
    ensures
        r is None <==> keys@.len() == 0,
        r matches Some(i) ==> is_last_max(keys@, i as int),
{
    let r = last_max_within(keys, keys, i64::MAX);
    proof {
        if keys@.len() > 0 {
            assert(keys@[0] <= i64::MAX);
        }
    }
    r
}

/// The UTC calendar day (days since 1970-01-01) of a unix timestamp in
/// milliseconds; timestamps of one UTC day share a bucket.
pub fn day_bucket(ts_ms: i64) -> (d: i64)
    ensures
        d == ts_ms as int / MS_PER_DAY as int,
{
    let q = ts_ms / MS_PER_DAY;
    let rem = ts_ms % MS_PER_DAY;
    if rem < 0 {
        q - 1
    } else {
        q
    }
}


/// One close of a ticker as the price collector reports it.
#[derive(Debug, Clone)]
pub struct PricePoint {
    /// The close, as the decimal text the collector sends.
    pub close_amount: String,
    /// Unix timestamp in milliseconds.
    pub ts: i64,
}

/// The timestamps of a price series.
pub open spec fn timestamps(history: Seq<PricePoint>) -> Seq<i64> {
    history.map_values(|p: PricePoint| p.ts)
}

/// The UTC days of the timestamps of a price series.
pub open spec fn days_of(history: Seq<PricePoint>) -> Seq<i64> {
    history.map_values(|p: PricePoint| (p.ts as int / MS_PER_DAY as int) as i64)
}

fn timestamps_of(history: &[PricePoint]) -> (ts: Vec<i64>)
    ensures
        ts@ == timestamps(history@),
{
    let mut ts: Vec<i64> = Vec::new();
    let mut i: usize = 0;
    while i < history.len()
        invariant
            i <= history@.len(),
            ts@ =~= timestamps(history@).take(i as int),
        decreases history@.len() - i,
    {
        ts.push(history[i].ts);
        i = i + 1;
    }
    assert(timestamps(history@).take(i as int) =~= timestamps(history@));
    ts
}

/// The point that gives the current price: the one with the greatest
/// timestamp (the last of them on a tie). `None` for an empty history.
pub fn latest_point(history: &[PricePoint]) -> (r: Option<usize>)
    ensures
        r is None <==> history@.len() == 0,
        r matches Some(i) ==> is_last_max(timestamps(history@), i as int),
{
    let ts = timestamps_of(history);
    last_max(ts.as_slice())
}

/// The point that gives the entry price of a purchase made at
/// `purchase_ts_ms`: among the points of that UTC day or an earlier one, the
/// one with the greatest timestamp (the close of that day if the market
/// traded, else the last close before it). `None` when the history starts
/// after that day.
pub fn entry_point_for_purchase(history: &[PricePoint], purchase_ts_ms: i64) -> (r: Option<usize>)
    ensures
        r is None <==> !any_within(days_of(history@), (purchase_ts_ms as int / MS_PER_DAY as int) as i64),
        r matches Some(i) ==> is_last_max_within(
            timestamps(history@),
            days_of(history@),
            (purchase_ts_ms as int / MS_PER_DAY as int) as i64,
            i as int,
        ),
{
    let target_day = day_bucket(purchase_ts_ms);
    let ts = timestamps_of(history);
    let mut days: Vec<i64> = Vec::new();
    let mut i: usize = 0;
    while i < history.len()
        invariant
            i <= history@.len(),
            days@ =~= days_of(history@).take(i as int),
        decreases history@.len() - i,
    {
        let d = day_bucket(history[i].ts);
        days.push(d);
        i = i + 1;
    }
    assert(days_of(history@).take(i as int) =~= days_of(history@));
    last_max_within(ts.as_slice(), days.as_slice(), target_day)
}

/// The current close of a ticker and, when the series reaches that far back,
/// the close of a week before it.
#[derive(Debug, Clone, Copy)]
pub struct TickerWeekPrices<T> {
    pub current: T,
    pub week_ago: Option<T>,
}

/// The first components of a sequence of pairs.
pub open spec fn firsts<T>(points: Seq<(i64, T)>) -> Seq<i64> {
    points.map_values(|p: (i64, T)| p.0)
}

/// Current and week-old close of a series of `(timestamp_ms, close)` points
/// in any order. The current close is the one with the greatest timestamp;
/// the week-old one is, among the points at least seven days older than it,
/// the one with the greatest timestamp (anchored to the last real close, not
/// to the clock). `None` when there are no points.
pub fn week_prices_from_points<T: Copy>(points: &[(i64, T)]) -> (r: Option<TickerWeekPrices<T>>)
    requires
        points@.len() == 0 || exists|k: int|
            0 <= k < points@.len() && #[trigger] points@[k].0 >= i64::MIN + MS_PER_WEEK,
    ensures
        r is None <==> points@.len() == 0,
        r matches Some(w) ==> exists|i: int| {
            &&& is_last_max(firsts(points@), i)
            &&& w.current == points@[i].1
            &&& {
                let cutoff = (points@[i].0 - MS_PER_WEEK) as i64;
                match w.week_ago {
                    None => !any_within(firsts(points@), cutoff),
                    Some(p) => exists|j: int| is_last_max_within(firsts(points@), firsts(points@), cutoff, j) && p == points@[j].1,
                }
            }
        },
{
    let mut keys: Vec<i64> = Vec::new();
    let mut k: usize = 0;
    while k < points.len()
        invariant
            k <= points@.len(),
            keys@ =~= firsts(points@).take(k as int),
        decreases points@.len() - k,
    {
        keys.push(points[k].0);
        k = k + 1;
    }
    assert(firsts(points@).take(k as int) =~= firsts(points@));
    match last_max(keys.as_slice()) {
        None => None,
        Some(i) => {
            let (latest_ts, current) = points[i];
            assert(keys@[i as int] == latest_ts);
            proof {
                let k = choose|k: int| 0 <= k < points@.len() && #[trigger] points@[k].0 >= i64::MIN + MS_PER_WEEK;
                assert(keys@[k] == points@[k].0);
            }
            let cutoff = latest_ts - MS_PER_WEEK;
            let week_ago = match last_max_within(keys.as_slice(), keys.as_slice(), cutoff) {
                None => None,
                Some(j) => Some(points[j].1),
            };
            Some(TickerWeekPrices { current, week_ago })
        },
    }
}

} // verus!
