use backend_website::alerts::{
    check_interval_hours, condition_changed, summarize_subscriptions, trend_action, trend_alert,
    SubscriptionRefusal, TrendAction, TrendSnapshot,
};

fn snapshot(available: bool, condition: Option<&str>) -> TrendSnapshot {
    TrendSnapshot {
        available,
        condition: condition.map(|c| c.to_string()),
        signal: None,
        as_of: None,
    }
}

#[test]
fn condition_changed_detects_difference() {
    let previous = snapshot(true, Some("sobrecompra"));
    let fresh = snapshot(true, Some("sobreventa"));
    assert!(condition_changed(&previous, &fresh));
}

#[test]
fn condition_changed_is_false_when_equal() {
    let previous = snapshot(true, Some("neutral"));
    let fresh = snapshot(true, Some("neutral"));
    assert!(!condition_changed(&previous, &fresh));
}

#[test]
fn condition_changed_is_false_when_fresh_missing_condition() {
    let previous = snapshot(true, Some("neutral"));
    let fresh = snapshot(true, None);
    assert!(!condition_changed(&previous, &fresh));
}

#[test]
fn condition_changed_when_first_condition_appears() {
    let previous = snapshot(true, None);
    let fresh = snapshot(true, Some("neutral"));
    assert!(condition_changed(&previous, &fresh));
}

#[test]
fn unavailable_trend_is_skipped() {
    let previous = snapshot(true, Some("neutral"));
    let fresh = snapshot(false, Some("sobreventa"));
    assert_eq!(trend_action(Some(&previous), &fresh), TrendAction::Skip);
    assert_eq!(trend_action(None, &fresh), TrendAction::Skip);
}

#[test]
fn first_trend_is_stored_without_alert() {
    let fresh = snapshot(true, Some("sobreventa"));
    assert_eq!(trend_action(None, &fresh), TrendAction::Store);
}

#[test]
fn changed_trend_notifies_then_stores() {
    let previous = snapshot(true, Some("neutral"));
    let fresh = snapshot(true, Some("sobreventa"));
    assert_eq!(trend_action(Some(&previous), &fresh), TrendAction::NotifyAndStore);
    let same = snapshot(true, Some("neutral"));
    assert_eq!(trend_action(Some(&previous), &same), TrendAction::Store);
}

#[test]
fn alert_names_missing_conditions_unknown() {
    let previous = snapshot(true, None);
    let fresh = TrendSnapshot {
        available: true,
        condition: Some("sobreventa".to_string()),
        signal: Some("baja".to_string()),
        as_of: Some("2026-06-17".to_string()),
    };
    let alert = trend_alert("GGAL", &previous, &fresh);
    assert_eq!(alert.ticker, "GGAL");
    assert_eq!(alert.previous_condition, "desconocido");
    assert_eq!(alert.new_condition, "sobreventa");
    assert_eq!(alert.signal, Some("baja"));
    assert_eq!(alert.as_of, Some("2026-06-17"));
}

#[test]
fn subscriptions_are_summarized_sorted() {
    let rows = vec![
        Some("YPFD".to_string()),
        None,
        Some("GGAL".to_string()),
        Some("BMA".to_string()),
    ];
    let summary = summarize_subscriptions(&rows);
    assert!(summary.portfolio);
    assert_eq!(summary.tickers, vec!["BMA", "GGAL", "YPFD"]);
    let only_tickers = summarize_subscriptions(&vec![Some("YPFD".to_string())]);
    assert!(!only_tickers.portfolio);
    assert_eq!(only_tickers.tickers, vec!["YPFD"]);
    let none = summarize_subscriptions(&vec![]);
    assert!(!none.portfolio);
    assert!(none.tickers.is_empty());
}

#[test]
fn check_interval_defaults_to_a_day() {
    assert_eq!(check_interval_hours(None), 24);
    assert_eq!(check_interval_hours(Some("invalid")), 24);
    assert_eq!(check_interval_hours(Some("-3")), 24);
    assert_eq!(check_interval_hours(Some("")), 24);
    assert_eq!(check_interval_hours(Some("6")), 6);
    assert_eq!(check_interval_hours(Some("+12")), 12);
}

#[test]
fn subscription_refusals_have_their_answers() {
    assert_eq!(SubscriptionRefusal::NotInPortfolio.status(), 404);
    assert_eq!(SubscriptionRefusal::NotInPortfolio.message(), "Share not found in your portfolio");
    assert_eq!(SubscriptionRefusal::AlreadySubscribedToTicker.status(), 409);
    assert_eq!(
        SubscriptionRefusal::AlreadySubscribedToTicker.message(),
        "Already subscribed to this ticker"
    );
    assert_eq!(SubscriptionRefusal::AlreadySubscribedToPortfolio.status(), 409);
    assert_eq!(
        SubscriptionRefusal::AlreadySubscribedToPortfolio.message(),
        "Already subscribed to your whole portfolio"
    );
    assert_eq!(SubscriptionRefusal::NotFound.status(), 404);
    assert_eq!(SubscriptionRefusal::NotFound.message(), "Subscription not found");
}
