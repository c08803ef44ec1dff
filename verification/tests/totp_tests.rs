use backend_website::totp::{
    current_code, current_code_at, generate_secret, otpauth_url, qr_base64, verify_code, verify_code_at,
};

#[test]
fn current_code_verifies() {
    let secret = generate_secret();
    let code = current_code(&secret, "a@b.com").unwrap();
    assert!(verify_code(&secret, "a@b.com", &code));
}

#[test]
fn malformed_codes_are_rejected() {
    let secret = generate_secret();
    assert!(!verify_code(&secret, "a@b.com", ""));
    assert!(!verify_code(&secret, "a@b.com", "12345"));
    assert!(!verify_code(&secret, "a@b.com", "abcdef"));
    assert!(!verify_code(&secret, "a@b.com", "1234567"));
}

#[test]
fn otpauth_url_carries_issuer_and_account() {
    let secret = generate_secret();
    let url = otpauth_url(&secret, "a@b.com").unwrap();
    assert!(url.starts_with("otpauth://totp/"));
    assert!(url.contains("FinanciAr"));
    assert!(url.contains("a%40b.com") || url.contains("a@b.com"));
}

#[test]
fn codes_are_accepted_one_step_each_way() {
    let secret = generate_secret();
    let t = 1_700_000_010u64;
    let code = current_code_at(&secret, "a@b.com", t).unwrap();
    assert_eq!(code.len(), 6);
    assert!(verify_code_at(&secret, "a@b.com", &code, t));
    assert!(verify_code_at(&secret, "a@b.com", &format!(" {code} "), t));
    assert!(verify_code_at(&secret, "a@b.com", &code, t + 30));
    assert!(!verify_code_at(&secret, "a@b.com", &code, t + 600));
}

#[test]
fn unusable_secrets_are_refused() {
    assert!(otpauth_url("not base32!", "a@b.com").is_err());
    assert!(qr_base64("not base32!", "a@b.com").is_err());
    assert!(current_code_at("not base32!", "a@b.com", 1_700_000_000).is_err());
    assert!(!verify_code_at("not base32!", "a@b.com", "123456", 1_700_000_000));
}

#[test]
fn secrets_are_fresh_and_enrollable() {
    let a = generate_secret();
    let b = generate_secret();
    assert_ne!(a, b);
    assert!(!qr_base64(&a, "a@b.com").unwrap().is_empty());
    assert!(otpauth_url(&a, "a:b@c.com").unwrap().starts_with("otpauth://totp/FinanciAr:"));
}

#[test]
fn short_secrets_are_refused() {
    let ten_bytes = "JBSWY3DPEHPK3PXP";
    assert!(otpauth_url(ten_bytes, "a@b.com").is_err());
    assert!(current_code_at(ten_bytes, "a@b.com", 1_700_000_000).is_err());
    assert!(!verify_code_at(ten_bytes, "a@b.com", "123456", 1_700_000_000));
}

#[test]
fn invalid_base32_is_reported_by_current_code() {
    assert_eq!(
        current_code("not base32!", "a@b.com"),
        Err("Secreto TOTP invalido: ParseBase32".to_string())
    );
    assert_eq!(
        current_code_at("not base32!", "a@b.com", 1_700_000_000),
        Err("Secreto TOTP invalido: ParseBase32".to_string())
    );
}

#[test]
fn otpauth_url_is_exact() {
    let secret = "GEZDGNBVGY3TQOJQGEZDGNBVGY3TQOJQ";
    assert_eq!(
        otpauth_url(secret, "a b@c.com:x~y").unwrap(),
        "otpauth://totp/FinanciAr:a%20b%40c.comx~y?secret=GEZDGNBVGY3TQOJQGEZDGNBVGY3TQOJQ&issuer=FinanciAr"
    );
}

#[test]
fn qr_is_drawn_for_long_emails() {
    let secret = generate_secret();
    let email = format!("{}@example.com", "\u{f1}".repeat(243));
    assert!(email.len() < 500);
    assert!(!qr_base64(&secret, &email).unwrap().is_empty());
}

#[test]
fn codes_verify_one_step_each_way_with_blanks() {
    let secret = generate_secret();
    let t: u64 = 1_700_000_010;
    let code = current_code_at(&secret, "a@b.com", t).unwrap();
    let padded = format!(" \t{code} \n");
    assert!(verify_code_at(&secret, "a@b.com", &padded, t));
    assert!(verify_code_at(&secret, "a@b.com", &padded, t - 30));
    assert!(verify_code_at(&secret, "a@b.com", &padded, t + 30));
}

#[test]
fn short_secret_error_names_the_step() {
    let err = otpauth_url("JBSWY3DPEHPK3PXP", "a@b.com").unwrap_err();
    assert!(err.starts_with("No se pudo construir el TOTP: "));
    assert!(err.len() > "No se pudo construir el TOTP: ".len());
}

#[test]
fn qr_is_drawn_up_to_the_capacity_of_a_qr_code() {
    let secret = "GEZDGNBVGY3TQOJQGEZDGNBVGY3TQOJQ";
    let fits = "@".repeat(749);
    assert_eq!(otpauth_url(secret, &fits).unwrap().len(), 2329);
    assert!(qr_base64(secret, &fits).is_ok());
    let too_long = "@".repeat(750);
    assert_eq!(otpauth_url(secret, &too_long).unwrap().len(), 2332);
    assert!(qr_base64(secret, &too_long).is_err());
}
