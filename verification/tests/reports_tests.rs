use backend_website::reports::{group_by_user, is_report_day, report_tickers, Weekday};
use backend_website::series::week_prices_from_points;

fn ts(day: i64) -> i64 {
    day * 86_400_000
}

#[test]
fn week_prices_picks_latest_close_and_closest_before_cutoff() {
    let points = vec![(ts(0), 100.0), (ts(6), 108.0), (ts(7), 110.0), (ts(14), 130.0)];
    let result = week_prices_from_points(&points).unwrap();
    assert_eq!(result.current, 130.0);
    assert_eq!(result.week_ago, Some(110.0));
}

#[test]
fn week_prices_returns_none_week_ago_when_ticker_is_new() {
    let points = vec![(ts(0), 100.0), (ts(1), 105.0)];
    let result = week_prices_from_points(&points).unwrap();
    assert_eq!(result.current, 105.0);
    assert_eq!(result.week_ago, None);
}

#[test]
fn week_prices_returns_none_when_no_points() {
    let points: Vec<(i64, f64)> = vec![];
    assert!(week_prices_from_points(&points).is_none());
}

#[test]
fn week_prices_ignores_order_of_input() {
    let points = vec![(ts(14), 130.0), (ts(0), 100.0), (ts(7), 110.0)];
    let result = week_prices_from_points(&points).unwrap();
    assert_eq!(result.current, 130.0);
    assert_eq!(result.week_ago, Some(110.0));
}

#[test]
fn week_prices_takes_the_last_of_equal_timestamps() {
    let points = vec![(ts(7), 1.0), (ts(14), 2.0), (ts(14), 3.0), (ts(7), 4.0)];
    let result = week_prices_from_points(&points).unwrap();
    assert_eq!(result.current, 3.0);
    assert_eq!(result.week_ago, Some(4.0));
}

#[test]
fn is_report_day_matches_only_monday() {
    assert!(is_report_day(Weekday::Mon));
    assert!(!is_report_day(Weekday::Tue));
    assert!(!is_report_day(Weekday::Sun));
}

#[test]
fn report_tickers_are_distinct_and_sorted() {
    let held = vec!["YPFD".to_string(), "GGAL".to_string(), "YPFD".to_string(), "BMA".to_string()];
    assert_eq!(report_tickers(&held), vec!["BMA", "GGAL", "YPFD"]);
}

#[test]
fn holdings_are_grouped_by_user() {
    let users = vec![7, 3, 7, 9, 3, 7];
    let groups = group_by_user(&users);
    assert_eq!(groups.len(), 3);
    assert_eq!(groups[0].user_id, 7);
    assert_eq!(groups[0].holdings, vec![0, 2, 5]);
    assert_eq!(groups[1].user_id, 3);
    assert_eq!(groups[1].holdings, vec![1, 4]);
    assert_eq!(groups[2].user_id, 9);
    assert_eq!(groups[2].holdings, vec![3]);
    assert!(group_by_user(&vec![]).is_empty());
}

#[test]
fn grouping_makes_no_empty_group() {
    assert!(group_by_user(&vec![]).is_empty());
    let groups = group_by_user(&vec![7, 3, 7, 3, 9]);
    let seen: Vec<(i32, Vec<usize>)> = groups.iter().map(|g| (g.user_id, g.holdings.clone())).collect();
    assert_eq!(seen, vec![(7, vec![0, 2]), (3, vec![1, 3]), (9, vec![4])]);
}
