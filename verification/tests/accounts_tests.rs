use backend_website::auth::{bearer_token, profile_access, AuthUser, Claims, JwtConfig, ProfileAccess};
use backend_website::credentials::{
    hash_password, login_fields_are_missing, login_reply, verify_password, LoginUserRequest,
};
use backend_website::hello::HelloResponse;
use backend_website::registration::{
    is_valid_risk_profile, validate_registration, validate_risk_profile_update, EmailValidator,
    PasswordValidator, RegisterUserRequest, UpdateRiskProfileRequest, Validator,
};

fn request(email: &str, password: &str, risk: Option<&str>) -> RegisterUserRequest {
    RegisterUserRequest {
        email: email.to_string(),
        password: password.to_string(),
        full_name: "Ana Perez".to_string(),
        risk_profile: risk.map(|r| r.to_string()),
    }
}

#[test]
fn hashed_passwords_verify() {
    let hash = hash_password("StrongPassword123!").unwrap();
    assert!(hash.starts_with("$argon2"));
    assert!(verify_password("StrongPassword123!", &hash));
    assert!(!verify_password("strongpassword123!", &hash));
    assert!(!verify_password("StrongPassword123!", "not a hash"));
}

#[test]
fn login_answers() {
    let hash = hash_password("StrongPassword123!").unwrap();
    let ok = LoginUserRequest { email: "a@b.com".to_string(), password: "StrongPassword123!".to_string() };
    let reply = login_reply(&ok, Some(&hash));
    assert_eq!((reply.code, reply.message.as_str()), (200, "Login successful"));
    let wrong = LoginUserRequest { email: "a@b.com".to_string(), password: "nope".to_string() };
    let reply = login_reply(&wrong, Some(&hash));
    assert_eq!((reply.code, reply.message.as_str()), (401, "Invalid email or password"));
    let reply = login_reply(&ok, None);
    assert_eq!((reply.code, reply.message.as_str()), (401, "Invalid email or password"));
    let blank = LoginUserRequest { email: "   ".to_string(), password: "x".to_string() };
    assert!(login_fields_are_missing(&blank));
    let reply = login_reply(&blank, Some(&hash));
    assert_eq!((reply.code, reply.message.as_str()), (400, "Email and password are required"));
    let no_password = LoginUserRequest { email: "a@b.com".to_string(), password: String::new() };
    assert!(login_fields_are_missing(&no_password));
    assert!(!login_fields_are_missing(&ok));
}

#[test]
fn registration_rules_in_order() {
    assert_eq!(validate_registration(&request("a@b.com", "StrongPassword123!", Some("moderate"))), Ok(()));
    assert_eq!(validate_registration(&request("a@b.com", "StrongPassword123!", None)), Ok(()));
    assert_eq!(
        validate_registration(&request("not-an-email", "StrongPassword123!", None)),
        Err("Invalid email format".to_string())
    );
    assert_eq!(
        validate_registration(&request("a@b.com", "Short1!", None)),
        Err("Password must be at least 8 characters long".to_string())
    );
    assert_eq!(
        validate_registration(&request("a@b.com", "lowercase123!", None)),
        Err("Password must contain at least one uppercase letter".to_string())
    );
    assert_eq!(
        validate_registration(&request("a@b.com", "UPPERCASE123!", None)),
        Err("Password must contain at least one lowercase letter".to_string())
    );
    assert_eq!(
        validate_registration(&request("a@b.com", "NoDigitsHere!", None)),
        Err("Password must contain at least one digit".to_string())
    );
    assert_eq!(
        validate_registration(&request("a@b.com", "NoSpecial123", None)),
        Err("Password must contain at least one special character".to_string())
    );
    assert_eq!(
        validate_registration(&request("a@b.com", "StrongPassword123!", Some("yolo"))),
        Err("Invalid risk profile. Must be 'conservative', 'moderate', or 'aggressive'.".to_string())
    );
}

#[test]
fn validators_check_their_own_rule() {
    let email = EmailValidator::new();
    assert!(email.validate(&request("  a@b.com ", "x", None)).is_ok());
    assert!(email.validate(&request("a@b", "x", None)).is_err());
    assert!(PasswordValidator.validate(&request("x", "  Abcdef1! ", None)).is_ok());
    assert!(PasswordValidator.validate(&request("x", "Abc1!", None)).is_err());
}

#[test]
fn risk_profiles() {
    assert!(is_valid_risk_profile("conservative"));
    assert!(is_valid_risk_profile("aggressive"));
    assert!(!is_valid_risk_profile("Moderate"));
    let ok = UpdateRiskProfileRequest { risk_profile: "moderate".to_string() };
    assert_eq!(validate_risk_profile_update(&ok), Ok(()));
    let bad = UpdateRiskProfileRequest { risk_profile: "risky".to_string() };
    assert_eq!(validate_risk_profile_update(&bad), Err("Invalid risk_profile value".to_string()));
}

#[test]
fn tokens_and_claims() {
    let config = JwtConfig::new("s3cret".to_string(), 24);
    assert_eq!(config.secret(), "s3cret");
    assert_eq!(config.expiration_hours(), 24);
    let claims = config.claims_at(7, "a@b.com", 1_000);
    assert_eq!(claims.sub, 7);
    assert_eq!(claims.email, "a@b.com");
    assert_eq!(claims.iat, 1_000);
    assert_eq!(claims.exp, 1_000 + 24 * 3600);
    let user = AuthUser::from(Claims { sub: 3, email: "c@d.com".to_string(), exp: 1, iat: 0 });
    assert_eq!(user.user_id, 3);
    assert_eq!(user.email, "c@d.com");
}

#[test]
fn bearer_tokens() {
    assert_eq!(bearer_token("Bearer abc.def "), Some("abc.def".to_string()));
    assert_eq!(bearer_token("bearer abc"), None);
    assert_eq!(bearer_token("Basic abc"), None);
    assert_eq!(bearer_token("Bearer "), Some(String::new()));
}

#[test]
fn profile_access_by_expiry() {
    assert_eq!(profile_access(Some(2_000), 1_000), ProfileAccess::Granted);
    assert_eq!(profile_access(Some(1_000), 1_000), ProfileAccess::Expired(1_000));
    assert_eq!(profile_access(None, 1_000), ProfileAccess::Required);
}

#[test]
fn hello_greets() {
    let hello = HelloResponse::new("0.1.0");
    assert_eq!(hello.status, "ok");
    assert_eq!(hello.version, "0.1.0");
    assert_eq!(hello.message, "Hello from Financiar backend!");
}

#[test]
fn every_short_password_hashes_with_a_fresh_salt() {
    let empty = hash_password("").unwrap();
    assert!(verify_password("", &empty));
    let a = hash_password("\u{f1}and\u{fa}-\u{3a9}").unwrap();
    let b = hash_password("\u{f1}and\u{fa}-\u{3a9}").unwrap();
    assert_ne!(a, b);
    assert!(verify_password("\u{f1}and\u{fa}-\u{3a9}", &a));
    assert!(verify_password("\u{f1}and\u{fa}-\u{3a9}", &b));
}

#[test]
fn password_length_counts_characters() {
    assert_eq!(
        PasswordValidator.validate(&request("x", "\u{d1}\u{e1}1!Ab", None)),
        Err("Password must be at least 8 characters long".to_string())
    );
    assert!(PasswordValidator.validate(&request("x", "\u{d1}\u{e1}1!Abcd", None)).is_ok());
}
