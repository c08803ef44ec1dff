//! Mail settings and the texts of the trend alert mails.

use vstd::prelude::*;

use crate::decimal::{parse_u16, parsed_unsigned};
use crate::text::{opt_view, owned, push_str};

verus! {

broadcast use vstd::string::group_string_axioms;

/// SMTP port used when none is given or the one given does not parse.
pub const DEFAULT_SMTP_PORT: u16 = 587;

/// Where the mails come from.
pub struct MailConfig {
    pub host: String,
    pub port: u16,
    pub username: String,
    pub password: String,
    pub from_email: String,
    pub from_name: String,
}

/// `v`, or `default` when it is absent.
pub open spec fn or_default(v: Option<Seq<char>>, default: Seq<char>) -> Seq<char> {
    match v {
        Some(s) => s,
        None => default,
    }
}

/// The port a setting gives: its value when it parses as a `u16`, else 587.
pub open spec fn port_setting(raw: Option<Seq<char>>) -> u16 {
    match raw {
        Some(s) => match parsed_unsigned(s, u16::MAX as nat) {
            Some(v) => v as u16,
            None => DEFAULT_SMTP_PORT,
        },
        None => DEFAULT_SMTP_PORT,
    }
}

fn owned_or(v: Option<String>, default: &str) -> (s: String)
    ensures
        s@ == or_default(opt_view(v), default@),
{
    match v {
        Some(s) => s,
        None => owned(default),
    }
}

impl MailConfig {
    /// The settings read from the values of `SMTP_HOST`, `SMTP_PORT`,
    /// `SMTP_USERNAME`, `SMTP_PASSWORD`, `SMTP_FROM_EMAIL` and
    /// `SMTP_FROM_NAME` (`None` for an unset one). Without a host there is no
    /// mail configuration; the others have defaults: port 587, empty
    /// credentials, `alertas@financiar.app` and `FinanciAr`.
    pub fn from_values(
        host: Option<String>,
        port: Option<String>,
        username: Option<String>,
        password: Option<String>,
        from_email: Option<String>,
        from_name: Option<String>,
    ) -> (r: Option<MailConfig>)
        ensures
            r is None <==> host is None,
            r matches Some(c) ==> {
                &&& Some(c.host@) == opt_view(host)
                &&& c.port == port_setting(opt_view(port))
                &&& c.username@ == or_default(opt_view(username), ""@)
                &&& c.password@ == or_default(opt_view(password), ""@)
                &&& c.from_email@ == or_default(opt_view(from_email), "alertas@financiar.app"@)
                &&& c.from_name@ == or_default(opt_view(from_name), "FinanciAr"@)
            },
    {
        let host = match host {
            Some(h) => h,
            None => return None,
        };
        let port = match port {
            Some(p) => match parse_u16(p.as_str()) {
                Some(v) => v,
                None => DEFAULT_SMTP_PORT,
            },
            None => DEFAULT_SMTP_PORT,
        };
        Some(
            MailConfig {
                host,
                port,
                username: owned_or(username, ""),
                password: owned_or(password, ""),
                from_email: owned_or(from_email, "alertas@financiar.app"),
                from_name: owned_or(from_name, "FinanciAr"),
            },
        )
    }
}

/// `Name <address>`, the form of a mailbox in a header.
pub open spec fn mailbox_of(name: Seq<char>, email: Seq<char>) -> Seq<char> {
    name + " <"@ + email + ">"@
}

/// The mailbox text for `name` at `email`.
pub fn mailbox_text(name: &str, email: &str) -> (s: String)
    ensures
        s@ == mailbox_of(name@, email@),
{
    let mut s = owned(name);
    push_str(&mut s, " <");
    push_str(&mut s, email);
    push_str(&mut s, ">");
    s
}

/// A change of trend of one ticker, to tell its subscribers about.
pub struct TrendAlert<'a> {
    pub ticker: &'a str,
    pub previous_condition: &'a str,
    pub new_condition: &'a str,
    pub signal: Option<&'a str>,
    pub as_of: Option<&'a str>,
}

/// The subject of a trend alert mail.
pub open spec fn trend_alert_subject_of(ticker: Seq<char>) -> Seq<char> {
    "FinanciAr: "@ + ticker + " cambio de tendencia"@
}

/// The line about the current signal, when there is one.
pub open spec fn signal_line(signal: Option<Seq<char>>) -> Seq<char> {
    match signal {
        Some(s) => "Senal actual: "@ + s + ".\n"@,
        None => Seq::empty(),
    }
}

/// The line about the last trading day considered, when it is known.
pub open spec fn as_of_line(as_of: Option<Seq<char>>) -> Seq<char> {
    match as_of {
        Some(d) => "Ultima rueda considerada: "@ + d + ".\n"@,
        None => Seq::empty(),
    }
}

/// The plain text of a trend alert mail to `to_name`.
pub open spec fn trend_alert_body_of(
    to_name: Seq<char>,
    ticker: Seq<char>,
    previous: Seq<char>,
    new: Seq<char>,
    signal: Option<Seq<char>>,
    as_of: Option<Seq<char>>,
) -> Seq<char> {
    "Hola "@ + to_name + ",\n\n"@ + ticker + " paso de "@ + previous + " a "@ + new + ".\n"@
        + signal_line(signal) + as_of_line(as_of) + "\n"@
        + "Podes ver el detalle actualizado ingresando a tu cuenta de FinanciAr.\n\n"@
        + "Este mail se envio porque estas suscripto a alertas de este ticker o de tu cartera."@
}

/// The plain value of an optional text.
pub open spec fn opt_str_view(o: Option<&str>) -> Option<Seq<char>> {
    match o {
        Some(s) => Some(s@),
        None => None,
    }
}

/// The subject of the alert mail about `alert`.
pub fn trend_alert_subject(alert: &TrendAlert) -> (s: String)
    ensures
        s@ == trend_alert_subject_of(alert.ticker@),
{
    let mut s = owned("FinanciAr: ");
    push_str(&mut s, alert.ticker);
    push_str(&mut s, " cambio de tendencia");
    s
}

/// The body of the alert mail about `alert` to `to_name`.
pub fn trend_alert_body(to_name: &str, alert: &TrendAlert) -> (s: String)
    ensures
        s@ == trend_alert_body_of(
            to_name@,
            alert.ticker@,
            alert.previous_condition@,
            alert.new_condition@,
            opt_str_view(alert.signal),
            opt_str_view(alert.as_of),
        ),
{
    let mut s = owned("Hola ");
    push_str(&mut s, to_name);
    push_str(&mut s, ",\n\n");
    push_str(&mut s, alert.ticker);
    push_str(&mut s, " paso de ");
    push_str(&mut s, alert.previous_condition);
    push_str(&mut s, " a ");
    push_str(&mut s, alert.new_condition);
    push_str(&mut s, ".\n");
    let ghost head = s@;
    match alert.signal {
        Some(signal) => {
            push_str(&mut s, "Senal actual: ");
            push_str(&mut s, signal);
            push_str(&mut s, ".\n");
        },
        None => {},
    }
    assert(s@ =~= head + signal_line(opt_str_view(alert.signal)));
    let ghost mid = s@;
    match alert.as_of {
        Some(as_of) => {
            push_str(&mut s, "Ultima rueda considerada: ");
            push_str(&mut s, as_of);
            push_str(&mut s, ".\n");
        },
        None => {},
    }
    assert(s@ =~= mid + as_of_line(opt_str_view(alert.as_of)));
    push_str(&mut s, "\n");
    push_str(&mut s, "Podes ver el detalle actualizado ingresando a tu cuenta de FinanciAr.\n\n");
    push_str(
        &mut s,
        "Este mail se envio porque estas suscripto a alertas de este ticker o de tu cartera.",
    );
    assert(s@ =~= trend_alert_body_of(
        to_name@,
        alert.ticker@,
        alert.previous_condition@,
        alert.new_condition@,
        opt_str_view(alert.signal),
        opt_str_view(alert.as_of),
    ));
    s
}

/// The signal line of an alert mail depends on the signal alone: whatever
/// the date of the last trading day, the mail opens with the greeting and
/// the change of condition, and a known signal `s` adds exactly the line
/// `Senal actual: s.` right after it to the mail without a signal.
pub proof fn alert_signal_line_follows_condition(
    to_name: Seq<char>,
    ticker: Seq<char>,
    previous: Seq<char>,
    new: Seq<char>,
    signal: Seq<char>,
    as_of: Option<Seq<char>>,
)
    ensures
        ({
            let head = "Hola "@ + to_name + ",\n\n"@ + ticker + " paso de "@ + previous + " a "@ + new
                + ".\n"@;
            let line = "Senal actual: "@ + signal + ".\n"@;
            let with = trend_alert_body_of(to_name, ticker, previous, new, Some(signal), as_of);
            let without = trend_alert_body_of(to_name, ticker, previous, new, None, as_of);
            &&& without.take(head.len() as int) == head
            &&& with == head + line + without.skip(head.len() as int)
        }),
{
    let head = "Hola "@ + to_name + ",\n\n"@ + ticker + " paso de "@ + previous + " a "@ + new + ".\n"@;
    let line = "Senal actual: "@ + signal + ".\n"@;
    let tail = as_of_line(as_of) + "\n"@
        + "Podes ver el detalle actualizado ingresando a tu cuenta de FinanciAr.\n\n"@
        + "Este mail se envio porque estas suscripto a alertas de este ticker o de tu cartera."@;
    let with = trend_alert_body_of(to_name, ticker, previous, new, Some(signal), as_of);
    let without = trend_alert_body_of(to_name, ticker, previous, new, None, as_of);
    assert(without =~= head + tail);
    assert(with =~= head + line + tail);
    assert(without.take(head.len() as int) =~= head);
    assert(without.skip(head.len() as int) =~= tail);
}

} // verus!
