//! Trend alerts: when a ticker's trend counts as changed, what the periodic
//! check does with each fresh trend, the alert it sends, and the user's list
//! of subscriptions.

use vstd::prelude::*;

use crate::decimal::{parse_u64, parsed_unsigned};
use crate::mail::TrendAlert;
use crate::ordering::{sort_strings, sorted_strings, views};
use crate::text::{opt_view, str_eq};

verus! {

broadcast use vstd::string::group_string_axioms;

/// Hours between two runs of a periodic job when none is configured.
pub const DEFAULT_CHECK_INTERVAL_HOURS: u64 = 24;

/// The hours between runs that a setting gives: its value when it parses as
/// a `u64`, else 24.
pub open spec fn interval_setting(raw: Option<Seq<char>>) -> u64 {
    match raw {
        Some(s) => match parsed_unsigned(s, u64::MAX as nat) {
            Some(v) => v as u64,
            None => DEFAULT_CHECK_INTERVAL_HOURS,
        },
        None => DEFAULT_CHECK_INTERVAL_HOURS,
    }
}

/// The hours between runs of a periodic job, from the raw setting.
pub fn check_interval_hours(raw: Option<&str>) -> (h: u64)
    ensures
        h == interval_setting(
            match raw {
                Some(s) => Some(s@),
                None => None,
            },
        ),
{
    match raw {
        Some(s) => match parse_u64(s) {
            Some(v) => v,
            None => DEFAULT_CHECK_INTERVAL_HOURS,
        },
        None => DEFAULT_CHECK_INTERVAL_HOURS,
    }
}

/// What the alert logic reads of a trend answer: whether a prediction is
/// available, and its condition, signal and last trading day when they are
/// texts.
pub struct TrendSnapshot {
    pub available: bool,
    pub condition: Option<String>,
    pub signal: Option<String>,
    pub as_of: Option<String>,
}

/// The condition moved to a new, known value (overbought, oversold, ...):
/// the two differ and the fresh one is present.
pub open spec fn condition_moved(previous: Option<Seq<char>>, fresh: Option<Seq<char>>) -> bool {
    previous != fresh && fresh is Some
}

fn same_text(a: &Option<String>, b: &Option<String>) -> (r: bool)
    ensures
        r == (opt_view(*a) == opt_view(*b)),
{
    match (a, b) {
        (Some(x), Some(y)) => str_eq(x.as_str(), y.as_str()),
        (None, None) => true,
        _ => false,
    }
}

/// Whether the trend's condition changed from `previous` to `fresh` in a way
/// that is worth an alert.
pub fn condition_changed(previous: &TrendSnapshot, fresh: &TrendSnapshot) -> (b: bool)
    ensures
        b == condition_moved(opt_view(previous.condition), opt_view(fresh.condition)),
{
    !same_text(&previous.condition, &fresh.condition) && fresh.condition.is_some()
}

/// What the periodic check does with a ticker's fresh trend.
#[derive(Debug, Clone, Copy, PartialEq, Eq, Structural)]
pub enum TrendAction {
    /// No fresh prediction: nothing to compare and the stored trend stays.
    Skip,
    /// Store the fresh trend without alerting.
    Store,
    /// Alert the subscribers, then store the fresh trend.
    NotifyAndStore,
}

/// The check's decision for one ticker. The first trend ever seen for a
/// ticker is stored as the base to compare against, with no alert.
pub fn trend_action(previous: Option<&TrendSnapshot>, fresh: &TrendSnapshot) -> (a: TrendAction)
    ensures
        !fresh.available ==> a == TrendAction::Skip,
        fresh.available && previous is None ==> a == TrendAction::Store,
        previous matches Some(p) ==> fresh.available ==> a == (if condition_moved(
            opt_view(p.condition),
            opt_view(fresh.condition),
        ) {
            TrendAction::NotifyAndStore
        } else {
            TrendAction::Store
        }),
{
    if !fresh.available {
        return TrendAction::Skip;
    }
    match previous {
        Some(p) => {
            if condition_changed(p, fresh) {
                TrendAction::NotifyAndStore
            } else {
                TrendAction::Store
            }
        },
        None => TrendAction::Store,
    }
}

/// A condition as the alert names it: `desconocido` when it is missing.
pub open spec fn condition_label(c: Option<Seq<char>>) -> Seq<char> {
    match c {
        Some(s) => s,
        None => "desconocido"@,
    }
}

fn label_of<'a>(c: &'a Option<String>) -> (s: &'a str)
    ensures
        s@ == condition_label(opt_view(*c)),
{
    match c {
        Some(s) => s.as_str(),
        None => "desconocido",
    }
}

fn text_of<'a>(c: &'a Option<String>) -> (s: Option<&'a str>)
    ensures
        match s {
            Some(t) => opt_view(*c) == Some(t@),
            None => c is None,
        },
{
    match c {
        Some(s) => Some(s.as_str()),
        None => None,
    }
}

/// The alert about `ticker` going from `previous` to `fresh`.
pub fn trend_alert<'a>(ticker: &'a str, previous: &'a TrendSnapshot, fresh: &'a TrendSnapshot) -> (a: TrendAlert<'a>)
    ensures
        a.ticker@ == ticker@,
        a.previous_condition@ == condition_label(opt_view(previous.condition)),
        a.new_condition@ == condition_label(opt_view(fresh.condition)),
        match a.signal {
            Some(s) => opt_view(fresh.signal) == Some(s@),
            None => fresh.signal is None,
        },
        match a.as_of {
            Some(d) => opt_view(fresh.as_of) == Some(d@),
            None => fresh.as_of is None,
        },
{
    TrendAlert {
        ticker,
        previous_condition: label_of(&previous.condition),
        new_condition: label_of(&fresh.condition),
        signal: text_of(&fresh.signal),
        as_of: text_of(&fresh.as_of),
    }
}

/// The user's alert subscriptions.
pub struct ListAlertSubscriptionsResponse {
    /// Subscribed to the whole portfolio, not only to `tickers`.
    pub portfolio: bool,
    pub tickers: Vec<String>,
}

/// A newly created subscription: to a ticker, or to the whole portfolio
/// when `ticker` is `None`.
pub struct AlertSubscriptionResponse {
    pub id: i32,
    pub ticker: Option<String>,
}

/// The tickers of the subscriptions to a single ticker, in order.
pub open spec fn subscribed_tickers(rows: Seq<Option<String>>) -> Seq<Seq<char>>
    decreases rows.len(),
{
    if rows.len() == 0 {
        Seq::empty()
    } else {
        let before = subscribed_tickers(rows.drop_last());
        match rows.last() {
            Some(t) => before.push(t@),
            None => before,
        }
    }
}

/// The user's subscriptions, from one row per subscription: the ticker, or
/// `None` for the whole portfolio. Tickers come sorted.
pub fn summarize_subscriptions(rows: &Vec<Option<String>>) -> (r: ListAlertSubscriptionsResponse)
    ensures
        r.portfolio <==> exists|i: int| 0 <= i < rows@.len() && #[trigger] rows@[i] is None,
        sorted_strings(views(r.tickers@)),
        views(r.tickers@).to_multiset() == subscribed_tickers(rows@).to_multiset(),
{
    let mut portfolio = false;
    let mut tickers: Vec<String> = Vec::new();
    let mut i: usize = 0;
    while i < rows.len()
        invariant
            i <= rows@.len(),
            portfolio <==> exists|k: int| 0 <= k < i && #[trigger] rows@[k] is None,
            views(tickers@) == subscribed_tickers(rows@.take(i as int)),
        decreases rows@.len() - i,
    {
        assert(rows@.take(i + 1).drop_last() =~= rows@.take(i as int));
        assert(rows@.take(i + 1).last() == rows@[i as int]);
        match &rows[i] {
            Some(t) => {
                tickers.push(t.clone());
                assert(views(tickers@) =~= subscribed_tickers(rows@.take(i + 1)));
            },
            None => {
                portfolio = true;
            },
        }
        i = i + 1;
    }
    assert(rows@.take(rows@.len() as int) =~= rows@);
    let sorted = sort_strings(&tickers);
    ListAlertSubscriptionsResponse { portfolio, tickers: sorted }
}

/// Why a subscription request was refused.
#[derive(Debug, Clone, Copy, PartialEq, Eq, Structural)]
pub enum SubscriptionRefusal {
    /// The ticker is not in the user's portfolio.
    NotInPortfolio,
    /// The user is already subscribed to the ticker.
    AlreadySubscribedToTicker,
    /// The user is already subscribed to the whole portfolio.
    AlreadySubscribedToPortfolio,
    /// There was no such subscription to remove.
    NotFound,
}

impl SubscriptionRefusal {
    /// The HTTP status of the answer.
    pub fn status(self) -> (code: u16)
        ensures
            code == (match self {
                SubscriptionRefusal::NotInPortfolio => 404u16,
                SubscriptionRefusal::AlreadySubscribedToTicker => 409u16,
                SubscriptionRefusal::AlreadySubscribedToPortfolio => 409u16,
                SubscriptionRefusal::NotFound => 404u16,
            }),
    {
        match self {
            SubscriptionRefusal::NotInPortfolio => 404,
            SubscriptionRefusal::AlreadySubscribedToTicker => 409,
            SubscriptionRefusal::AlreadySubscribedToPortfolio => 409,
            SubscriptionRefusal::NotFound => 404,
        }
    }

    /// The message of the answer.
    pub fn message(self) -> (m: &'static str)
        ensures
            m@ == (match self {
                SubscriptionRefusal::NotInPortfolio => "Share not found in your portfolio"@,
                SubscriptionRefusal::AlreadySubscribedToTicker => "Already subscribed to this ticker"@,
                SubscriptionRefusal::AlreadySubscribedToPortfolio =>
                    "Already subscribed to your whole portfolio"@,
                SubscriptionRefusal::NotFound => "Subscription not found"@,
            }),
    {
        match self {
            SubscriptionRefusal::NotInPortfolio => "Share not found in your portfolio",
            SubscriptionRefusal::AlreadySubscribedToTicker => "Already subscribed to this ticker",
            SubscriptionRefusal::AlreadySubscribedToPortfolio =>
                "Already subscribed to your whole portfolio",
            SubscriptionRefusal::NotFound => "Subscription not found",
        }
    }
}

} // verus!
