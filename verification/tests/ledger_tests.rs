use backend_website::ledger::{quantity_checkpoints, replay_stays_in_range, time_order, LedgerEntry};
use backend_website::series::{day_bucket, entry_point_for_purchase, last_max_within, latest_point, PricePoint};

const DAY: i64 = 86_400_000;

fn op(is_buy: bool, quantity: i32, created_at_ms: i64) -> LedgerEntry {
    LedgerEntry { is_buy, quantity, created_at_ms }
}

#[test]
fn time_order_is_stable() {
    assert_eq!(time_order(&vec![30, 10, 30, 20, 10]), vec![1, 4, 3, 0, 2]);
    assert!(time_order(&vec![]).is_empty());
}

#[test]
fn replay_follows_time_and_closes_at_zero() {
    let ops = vec![
        op(false, 4, 3 * DAY + 5),
        op(true, 10, DAY),
        op(true, 5, 2 * DAY),
        op(false, 30, 4 * DAY),
        op(true, 2, 4 * DAY + 1),
    ];
    let checkpoints = quantity_checkpoints(&ops);
    let got: Vec<(usize, i64, i32)> = checkpoints.iter().map(|c| (c.op, c.day, c.quantity)).collect();
    assert_eq!(got, vec![(1, 1, 10), (2, 2, 15), (0, 3, 11), (3, 4, 0), (4, 4, 2)]);
}

#[test]
fn holdings_on_a_day_come_from_its_last_checkpoint() {
    let days = vec![1, 2, 2, 5];
    assert_eq!(last_max_within(&days, &days, 3), Some(2));
    assert_eq!(last_max_within(&days, &days, 0), None);
    assert_eq!(last_max_within(&days, &days, 9), Some(3));
}

#[test]
fn days_are_utc_buckets() {
    assert_eq!(day_bucket(0), 0);
    assert_eq!(day_bucket(DAY - 1), 0);
    assert_eq!(day_bucket(DAY), 1);
    assert_eq!(day_bucket(-1), -1);
    assert_eq!(day_bucket(-DAY), -1);
    assert_eq!(day_bucket(-DAY - 1), -2);
}

fn point(close: &str, ts: i64) -> PricePoint {
    PricePoint { close_amount: close.to_string(), ts }
}

#[test]
fn current_price_is_the_latest_point() {
    let history = vec![point("1", 5), point("2", 9), point("3", 9), point("4", 1)];
    assert_eq!(latest_point(&history), Some(2));
    assert_eq!(latest_point(&[]), None);
}

#[test]
fn entry_price_is_the_close_of_the_purchase_day_or_before() {
    let history = vec![point("10", DAY + 100), point("11", 2 * DAY + 100), point("12", 4 * DAY)];
    assert_eq!(entry_point_for_purchase(&history, 2 * DAY + 50), Some(1));
    assert_eq!(entry_point_for_purchase(&history, 3 * DAY + 50), Some(1));
    assert_eq!(entry_point_for_purchase(&history, DAY - 1), None);
    assert_eq!(entry_point_for_purchase(&history, 9 * DAY), Some(2));
}

#[test]
fn replay_range_is_checked_in_time_order() {
    let e = |is_buy: bool, quantity: i32, created_at_ms: i64| LedgerEntry { is_buy, quantity, created_at_ms };
    assert!(replay_stays_in_range(&vec![e(true, 5, 2), e(false, 9, 1)]));
    assert!(replay_stays_in_range(&vec![e(true, i32::MAX, 1), e(false, 10, 2)]));
    // Sold first (closing at zero), then bought twice: the second buy overflows.
    assert!(!replay_stays_in_range(&vec![e(true, i32::MAX, 3), e(true, 1, 4), e(false, 10, 1)]));
    // In time order the sell comes between the buys, so the count stays in range.
    assert!(replay_stays_in_range(&vec![e(true, i32::MAX, 1), e(true, 1, 4), e(false, 10, 2)]));
    assert!(replay_stays_in_range(&vec![]));
}
