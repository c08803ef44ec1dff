//! The two-factor life cycle of an account: setting up a secret, enabling
//! two-factor login with a code, and disabling it again.

use vstd::prelude::*;

use crate::text::opt_view;
use crate::totp::{
    checkable_time, code_verifies, current_code_verifies, is_code_shaped, is_current_code, unix_now,
    verify_code_at,
};
use crate::text::trim_seq;

verus! {

/// A request carrying a code from the user's authenticator app.
pub struct TwoFactorCodeRequest {
    pub code: String,
}

/// What is stored of an account's two-factor login: the secret (once set up)
/// and whether two-factor login is on.
pub struct TwoFactorState {
    pub secret: Option<String>,
    pub enabled: bool,
}

/// The plain value of a two-factor state: secret, enabled.
pub type StateView = (Option<Seq<char>>, bool);

impl View for TwoFactorState {
    type V = StateView;

    open spec fn view(&self) -> StateView {
        (opt_view(self.secret), self.enabled)
    }
}

/// The plain value of an account's state, `None` when there is no account.
pub open spec fn account_view(state: Option<&TwoFactorState>) -> Option<StateView> {
    match state {
        Some(s) => Some(s@),
        None => None,
    }
}

/// Two-factor login is never on without a secret.
pub open spec fn consistent(s: StateView) -> bool {
    s.1 ==> s.0 is Some
}

/// Why a two-factor request was refused.
#[derive(Debug, Clone, Copy, PartialEq, Eq, Structural)]
pub enum TwoFactorRefusal {
    /// The account no longer exists.
    UserNotFound,
    /// Setting up again while two-factor login is on.
    AlreadyEnabled,
    /// Enabling before any secret was set up.
    SetupNotStarted,
    /// Disabling while two-factor login is off.
    NotEnabled,
    /// The code does not verify against the secret.
    InvalidCode,
}

impl TwoFactorRefusal {
    /// The HTTP status of the answer.
    pub fn status(self) -> (code: u16)
        ensures
            code == (match self {
                TwoFactorRefusal::UserNotFound => 404u16,
                TwoFactorRefusal::AlreadyEnabled => 409u16,
                _ => 400u16,
            }),
    {
        match self {
            TwoFactorRefusal::UserNotFound => 404,
            TwoFactorRefusal::AlreadyEnabled => 409,
            _ => 400,
        }
    }

    /// The message of the answer.
    pub fn message(self) -> (m: &'static str)
        ensures
            m@ == (match self {
                TwoFactorRefusal::UserNotFound => "User not found"@,
                TwoFactorRefusal::AlreadyEnabled => "Two-factor authentication is already enabled"@,
                TwoFactorRefusal::SetupNotStarted => "Two-factor setup has not been started"@,
                TwoFactorRefusal::NotEnabled => "Two-factor authentication is not enabled"@,
                TwoFactorRefusal::InvalidCode => "Invalid verification code"@,
            }),
    {
        match self {
            TwoFactorRefusal::UserNotFound => "User not found",
            TwoFactorRefusal::AlreadyEnabled => "Two-factor authentication is already enabled",
            TwoFactorRefusal::SetupNotStarted => "Two-factor setup has not been started",
            TwoFactorRefusal::NotEnabled => "Two-factor authentication is not enabled",
            TwoFactorRefusal::InvalidCode => "Invalid verification code",
        }
    }
}

/// Setting up `secret`: refused while two-factor login is on; otherwise the
/// secret is stored, pending until a code confirms it.
pub open spec fn setup_outcome(state: Option<StateView>, secret: Seq<char>) -> Result<
    StateView,
    TwoFactorRefusal,
> {
    match state {
        None => Err(TwoFactorRefusal::UserNotFound),
        Some(s) => if s.1 {
            Err(TwoFactorRefusal::AlreadyEnabled)
        } else {
            Ok((Some(secret), false))
        },
    }
}

/// Enabling: needs a secret set up, and a code that verifies (`code_ok`).
pub open spec fn enable_outcome(state: Option<StateView>, code_ok: bool) -> Result<
    StateView,
    TwoFactorRefusal,
> {
    match state {
        None => Err(TwoFactorRefusal::UserNotFound),
        Some((None, _)) => Err(TwoFactorRefusal::SetupNotStarted),
        Some((Some(secret), _)) => if code_ok {
            Ok((Some(secret), true))
        } else {
            Err(TwoFactorRefusal::InvalidCode)
        },
    }
}

/// Disabling: needs two-factor login on, and a code that verifies
/// (`code_ok`); the secret is dropped.
pub open spec fn disable_outcome(state: Option<StateView>, code_ok: bool) -> Result<
    StateView,
    TwoFactorRefusal,
> {
    match state {
        None => Err(TwoFactorRefusal::UserNotFound),
        Some((Some(_), true)) => if code_ok {
            Ok((None, false))
        } else {
            Err(TwoFactorRefusal::InvalidCode)
        },
        Some(_) => Err(TwoFactorRefusal::NotEnabled),
    }
}

/// The plain value of a transition's result.
pub open spec fn outcome_view(r: Result<TwoFactorState, TwoFactorRefusal>) -> Result<
    StateView,
    TwoFactorRefusal,
> {
    match r {
        Ok(s) => Ok(s@),
        Err(e) => Err(e),
    }
}

/// The state after setting up `secret` (see `setup_outcome`).
pub fn setup(state: Option<&TwoFactorState>, secret: String) -> (r: Result<
    TwoFactorState,
    TwoFactorRefusal,
>)
    ensures
        outcome_view(r) == setup_outcome(account_view(state), secret@),
{
    match state {
        None => Err(TwoFactorRefusal::UserNotFound),
        Some(s) => {
            if s.enabled {
                Err(TwoFactorRefusal::AlreadyEnabled)
            } else {
                Ok(TwoFactorState { secret: Some(secret), enabled: false })
            }
        },
    }
}

/// The state after enabling, given whether the code verified.
pub fn enable_with(state: Option<&TwoFactorState>, code_ok: bool) -> (r: Result<
    TwoFactorState,
    TwoFactorRefusal,
>)
    ensures
        outcome_view(r) == enable_outcome(account_view(state), code_ok),
{
    match state {
        None => Err(TwoFactorRefusal::UserNotFound),
        Some(s) => match &s.secret {
            None => Err(TwoFactorRefusal::SetupNotStarted),
            Some(secret) => {
                if code_ok {
                    Ok(TwoFactorState { secret: Some(secret.clone()), enabled: true })
                } else {
                    Err(TwoFactorRefusal::InvalidCode)
                }
            },
        },
    }
}

/// The state after disabling, given whether the code verified.
pub fn disable_with(state: Option<&TwoFactorState>, code_ok: bool) -> (r: Result<
    TwoFactorState,
    TwoFactorRefusal,
>)
    ensures
        outcome_view(r) == disable_outcome(account_view(state), code_ok),
{
    match state {
        None => Err(TwoFactorRefusal::UserNotFound),
        Some(s) => {
            if s.secret.is_some() && s.enabled {
                if code_ok {
                    Ok(TwoFactorState { secret: None, enabled: false })
                } else {
                    Err(TwoFactorRefusal::InvalidCode)
                }
            } else {
                Err(TwoFactorRefusal::NotEnabled)
            }
        },
    }
}

/// Whether `code` verifies against the account's secret at `time`; `false`
/// without an account or a secret.
pub open spec fn code_ok_at(state: Option<StateView>, code: Seq<char>, time: u64) -> bool {
    match state {
        Some((Some(secret), _)) => code_verifies(secret, code, time),
        _ => false,
    }
}

fn check_code_at(state: Option<&TwoFactorState>, email: &str, code: &str, time: u64) -> (b: bool)
    ensures
        b == code_ok_at(account_view(state), code@, time),
{
    match state {
        Some(s) => match &s.secret {
            Some(secret) => verify_code_at(secret.as_str(), email, code, time),
            None => false,
        },
        None => false,
    }
}

/// Enabling with a code, checked at `time` (unix seconds).
pub fn enable_at(state: Option<&TwoFactorState>, email: &str, code: &str, time: u64) -> (r: Result<
    TwoFactorState,
    TwoFactorRefusal,
>)
    ensures
        outcome_view(r) == enable_outcome(
            account_view(state),
            code_ok_at(account_view(state), code@, time),
        ),
{
    let ok = check_code_at(state, email, code, time);
    enable_with(state, ok)
}

/// Disabling with a code, checked at `time` (unix seconds).
pub fn disable_at(state: Option<&TwoFactorState>, email: &str, code: &str, time: u64) -> (r: Result<
    TwoFactorState,
    TwoFactorRefusal,
>)
    ensures
        outcome_view(r) == disable_outcome(
            account_view(state),
            code_ok_at(account_view(state), code@, time),
        ),
{
    let ok = check_code_at(state, email, code, time);
    disable_with(state, ok)
}

/// Whether a code checked now could have been accepted: it verifies at some
/// time.
pub open spec fn code_ok_sometime(state: Option<StateView>, code: Seq<char>) -> bool {
    exists|t: u64| code_ok_at(state, code, t)
}

/// Enabling with a code checked against the clock. The clock decides which
/// time the code is checked at; whatever it reads, the outcome is that of a
/// code that either failed or verifies at some time, and a code that is not
/// six digits always fails.
pub fn enable(state: Option<&TwoFactorState>, email: &str, code: &str) -> (r: Result<
    TwoFactorState,
    TwoFactorRefusal,
>)
    ensures
        exists|ok: bool|
            (ok ==> code_ok_sometime(account_view(state), code@)) && (!is_code_shaped(trim_seq(code@))
                ==> !ok) && outcome_view(r) == #[trigger] enable_outcome(account_view(state), ok),
{
    let ok = match unix_now() {
        Some(t) => check_code_at(state, email, code, t),
        None => false,
    };
    let r = enable_with(state, ok);
    assert(outcome_view(r) == enable_outcome(account_view(state), ok));
    r
}

/// Disabling with a code checked against the clock (see `enable`).
pub fn disable(state: Option<&TwoFactorState>, email: &str, code: &str) -> (r: Result<
    TwoFactorState,
    TwoFactorRefusal,
>)
    ensures
        exists|ok: bool|
            (ok ==> code_ok_sometime(account_view(state), code@)) && (!is_code_shaped(trim_seq(code@))
                ==> !ok) && outcome_view(r) == #[trigger] disable_outcome(account_view(state), ok),
{
    let ok = match unix_now() {
        Some(t) => check_code_at(state, email, code, t),
        None => false,
    };
    let r = disable_with(state, ok);
    assert(outcome_view(r) == disable_outcome(account_view(state), ok));
    r
}

/// Every step of the life cycle leaves a consistent state: two-factor login
/// is never on without a secret.
pub proof fn steps_stay_consistent(state: Option<StateView>, secret: Seq<char>, code_ok: bool)
    ensures
        setup_outcome(state, secret) matches Ok(s) ==> consistent(s),
        enable_outcome(state, code_ok) matches Ok(s) ==> consistent(s),
        disable_outcome(state, code_ok) matches Ok(s) ==> consistent(s),
{
}

/// Setting up a secret and confirming it with a code that verifies turns
/// two-factor login on with that secret; disabling it then with a verifying
/// code turns it off and drops the secret, after which a new setup is
/// accepted.
pub proof fn setup_enable_disable_cycle(s: StateView, secret: Seq<char>, other: Seq<char>)
    requires
        !s.1,
    ensures
        setup_outcome(Some(s), secret) == Ok::<StateView, TwoFactorRefusal>((Some(secret), false)),
        enable_outcome(Some((Some(secret), false)), true) == Ok::<StateView, TwoFactorRefusal>(
            (Some(secret), true),
        ),
        disable_outcome(Some((Some(secret), true)), true) == Ok::<StateView, TwoFactorRefusal>(
            (None, false),
        ),
        setup_outcome(Some((None, false)), other) == Ok::<StateView, TwoFactorRefusal>(
            (Some(other), false),
        ),
{
}

/// While two-factor login is on, setting up again is refused and the secret
/// stays; a wrong code neither enables nor disables anything.
pub proof fn refusals_change_nothing(s: StateView, secret: Seq<char>)
    ensures
        s.1 ==> setup_outcome(Some(s), secret) == Err::<StateView, TwoFactorRefusal>(
            TwoFactorRefusal::AlreadyEnabled,
        ),
        enable_outcome(Some(s), false) is Err,
        disable_outcome(Some(s), false) is Err,
{
}

/// The code an authenticator app shows for the pending secret, checked at
/// the time it shows it, turns two-factor login on.
pub proof fn current_code_enables(s: StateView, secret: Seq<char>, time: u64, code: Seq<char>)
    requires
        s.0 == Some(secret),
        is_current_code(secret, time, code),
        checkable_time(time),
    ensures
        enable_outcome(Some(s), code_ok_at(Some(s), code, time)) == Ok::<StateView, TwoFactorRefusal>(
            (Some(secret), true),
        ),
{
    current_code_verifies(secret, time, code);
}

} // verus!
