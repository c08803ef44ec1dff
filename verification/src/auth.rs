//! Session tokens: their claims, the authenticated user they name, and the
//! `Authorization` header that carries them.

use vstd::prelude::*;

use crate::text::{starts_with, strip_prefix, trim, trim_seq};

verus! {

/// Seconds in an hour.
pub const SECS_PER_HOUR: i64 = 3600;

/// The claims of a session token.
pub struct Claims {
    /// The user's id.
    pub sub: i32,
    pub email: String,
    /// Expiry, unix seconds.
    pub exp: usize,
    /// Issue time, unix seconds.
    pub iat: usize,
}

/// The signing secret and the lifetime of session tokens.
#[derive(Clone)]
pub struct JwtConfig {
    secret: String,
    expiration_hours: i64,
}

impl JwtConfig {
    pub closed spec fn secret_spec(&self) -> Seq<char> {
        self.secret@
    }

    pub closed spec fn expiration_hours_spec(&self) -> i64 {
        self.expiration_hours
    }

    pub fn new(secret: String, expiration_hours: i64) -> (c: Self)
        ensures
            c.secret_spec() == secret@,
            c.expiration_hours_spec() == expiration_hours,
    {
        JwtConfig { secret, expiration_hours }
    }

    /// The signing secret.
    pub fn secret(&self) -> (s: &str)
        ensures
            s@ == self.secret_spec(),
    {
        self.secret.as_str()
    }

    /// How many hours a token lasts.
    pub fn expiration_hours(&self) -> (h: i64)
        ensures
            h == self.expiration_hours_spec(),
    {
        self.expiration_hours
    }

    /// The claims of a token issued at `now_secs` (unix seconds) for the
    /// user: it expires `expiration_hours` later. Both times are stored as
    /// `usize`, as the token format keeps them.
    pub fn claims_at(&self, user_id: i32, email: &str, now_secs: i64) -> (c: Claims)
        requires
            i64::MIN <= now_secs + self.expiration_hours_spec() * SECS_PER_HOUR <= i64::MAX,
            i64::MIN <= self.expiration_hours_spec() * SECS_PER_HOUR <= i64::MAX,
        ensures
            c.sub == user_id,
            c.email@ == email@,
            c.iat == now_secs as usize,
            c.exp == (now_secs + self.expiration_hours_spec() * SECS_PER_HOUR) as usize,
    {
        let exp = now_secs + self.expiration_hours * SECS_PER_HOUR;
        Claims { sub: user_id, email: crate::text::owned(email), exp: exp as usize, iat: now_secs as usize }
    }
}

/// The authenticated user that a request acts for.
#[derive(Clone, Debug)]
pub struct AuthUser {
    pub user_id: i32,
    pub email: String,
}

impl From<Claims> for AuthUser {
    fn from(claims: Claims) -> (u: Self) {
        AuthUser { user_id: claims.sub, email: claims.email }
    }
}

impl vstd::std_specs::convert::FromSpecImpl<Claims> for AuthUser {
    open spec fn obeys_from_spec() -> bool {
        true
    }

    open spec fn from_spec(claims: Claims) -> AuthUser {
        AuthUser { user_id: claims.sub, email: claims.email }
    }
}

/// The token that an `Authorization` header value carries: what follows
/// `Bearer `, without surrounding whitespace.
pub open spec fn bearer_token_of(header: Seq<char>) -> Option<Seq<char>> {
    if starts_with(header, "Bearer "@) {
        Some(trim_seq(header.skip("Bearer "@.len() as int)))
    } else {
        None
    }
}

/// The token of an `Authorization` header value of the form `Bearer <token>`;
/// `None` for any other form.
pub fn bearer_token(header: &str) -> (r: Option<String>)
    ensures
        match bearer_token_of(header@) {
            Some(t) => r matches Some(s) && s@ == t,
            None => r is None,
        },
{
    match strip_prefix(header, "Bearer ") {
        Some(rest) => Some(trim(rest.as_str())),
        None => None,
    }
}

/// Whether a request may use the features that need a risk profile.
#[derive(PartialEq, Eq, Structural, Debug, Clone, Copy)]
pub enum ProfileAccess {
    /// The latest profile is still in force.
    Granted,
    /// The latest profile expired at the given time (unix milliseconds).
    Expired(i64),
    /// The user never set a profile.
    Required,
}

/// Decides access from the expiry of the user's latest risk profile (unix
/// milliseconds, `None` when there is none) and the current time: a profile
/// is in force while its expiry lies strictly in the future.
pub fn profile_access(latest_expires_at_ms: Option<i64>, now_ms: i64) -> (a: ProfileAccess)
    ensures
        a == match latest_expires_at_ms {
            Some(exp) => if exp > now_ms {
                ProfileAccess::Granted
            } else {
                ProfileAccess::Expired(exp)
            },
            None => ProfileAccess::Required,
        },
{
    match latest_expires_at_ms {
        Some(exp) => if exp > now_ms {
            ProfileAccess::Granted
        } else {
            ProfileAccess::Expired(exp)
        },
        None => ProfileAccess::Required,
    }
}

} // verus!
