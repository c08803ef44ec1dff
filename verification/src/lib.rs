//! Verified core of the FinanciAr backend: request validation, credentials
//! and two-factor codes, session claims, portfolio and ledger rules, price
//! series, trend alerts and reports, mail texts, and the team's retro board.

pub mod text;
pub mod decimal;
pub mod calendar;
pub mod ordering;
pub mod series;
pub mod ledger;
pub mod registration;
pub mod credentials;
pub mod totp;
pub mod two_factor;
pub mod auth;
pub mod shares;
pub mod mail;
pub mod alerts;
pub mod reports;
pub mod retro;
pub mod hello;
