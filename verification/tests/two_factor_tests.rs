use backend_website::totp::{current_code_at, generate_secret};
use backend_website::two_factor::{
    disable_at, disable_with, enable_at, enable_with, setup, TwoFactorRefusal, TwoFactorState,
};

const T: u64 = 1_700_000_000;

#[test]
fn setup_then_enable_then_disable() {
    let fresh = TwoFactorState { secret: None, enabled: false };
    let secret = generate_secret();
    let pending = setup(Some(&fresh), secret.clone()).ok().unwrap();
    assert_eq!(pending.secret.as_deref(), Some(secret.as_str()));
    assert!(!pending.enabled);

    let code = current_code_at(&secret, "a@b.com", T).unwrap();
    let enabled = enable_at(Some(&pending), "a@b.com", &code, T).ok().unwrap();
    assert!(enabled.enabled);
    assert_eq!(enabled.secret.as_deref(), Some(secret.as_str()));

    assert_eq!(setup(Some(&enabled), generate_secret()).err(), Some(TwoFactorRefusal::AlreadyEnabled));

    let disabled = disable_at(Some(&enabled), "a@b.com", &code, T).ok().unwrap();
    assert!(!disabled.enabled);
    assert!(disabled.secret.is_none());
}

#[test]
fn wrong_codes_are_refused() {
    let secret = generate_secret();
    let pending = TwoFactorState { secret: Some(secret.clone()), enabled: false };
    assert_eq!(
        enable_at(Some(&pending), "a@b.com", "abcdef", T).err(),
        Some(TwoFactorRefusal::InvalidCode)
    );
    let on = TwoFactorState { secret: Some(secret), enabled: true };
    assert_eq!(disable_with(Some(&on), false).err(), Some(TwoFactorRefusal::InvalidCode));
}

#[test]
fn steps_out_of_order_are_refused() {
    let off = TwoFactorState { secret: None, enabled: false };
    assert_eq!(enable_with(Some(&off), true).err(), Some(TwoFactorRefusal::SetupNotStarted));
    assert_eq!(disable_with(Some(&off), true).err(), Some(TwoFactorRefusal::NotEnabled));
    let pending = TwoFactorState { secret: Some("JBSWY3DPEHPK3PXP".to_string()), enabled: false };
    assert_eq!(disable_with(Some(&pending), true).err(), Some(TwoFactorRefusal::NotEnabled));
    assert_eq!(enable_with(None, true).err(), Some(TwoFactorRefusal::UserNotFound));
    assert_eq!(setup(None, "X".to_string()).err(), Some(TwoFactorRefusal::UserNotFound));
}

#[test]
fn refusals_have_their_answers() {
    assert_eq!(TwoFactorRefusal::UserNotFound.status(), 404);
    assert_eq!(TwoFactorRefusal::UserNotFound.message(), "User not found");
    assert_eq!(TwoFactorRefusal::AlreadyEnabled.status(), 409);
    assert_eq!(
        TwoFactorRefusal::AlreadyEnabled.message(),
        "Two-factor authentication is already enabled"
    );
    assert_eq!(TwoFactorRefusal::SetupNotStarted.status(), 400);
    assert_eq!(TwoFactorRefusal::SetupNotStarted.message(), "Two-factor setup has not been started");
    assert_eq!(TwoFactorRefusal::NotEnabled.status(), 400);
    assert_eq!(TwoFactorRefusal::NotEnabled.message(), "Two-factor authentication is not enabled");
    assert_eq!(TwoFactorRefusal::InvalidCode.status(), 400);
    assert_eq!(TwoFactorRefusal::InvalidCode.message(), "Invalid verification code");
}

#[test]
fn the_code_shown_now_enables() {
    let secret = generate_secret();
    let pending = TwoFactorState { secret: Some(secret.clone()), enabled: false };
    let code = backend_website::totp::current_code(&secret, "a@b.com").unwrap();
    let on = backend_website::two_factor::enable(Some(&pending), "a@b.com", &code).ok().unwrap();
    assert!(on.enabled);
    let off = backend_website::two_factor::disable(Some(&on), "a@b.com", &code).ok().unwrap();
    assert!(!off.enabled);
}
