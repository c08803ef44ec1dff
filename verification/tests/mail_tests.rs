use backend_website::mail::{mailbox_text, trend_alert_body, trend_alert_subject, MailConfig, TrendAlert};

fn some(s: &str) -> Option<String> {
    Some(s.to_string())
}

#[test]
fn mail_config_reads_defaults_and_explicit_values() {
    assert!(MailConfig::from_values(None, None, None, None, None, None).is_none());

    let defaults =
        MailConfig::from_values(some("smtp.example.test"), some("invalid"), None, None, None, None)
            .unwrap();
    assert_eq!(defaults.port, 587);
    assert_eq!(defaults.from_email, "alertas@financiar.app");
    assert_eq!(defaults.from_name, "FinanciAr");

    let explicit = MailConfig::from_values(
        some("smtp.example.test"),
        some("2525"),
        some("mailer"),
        some("secret"),
        some("mail@example.test"),
        some("Coverage"),
    )
    .unwrap();
    assert_eq!(explicit.port, 2525);
    assert_eq!(explicit.username, "mailer");
    assert_eq!(explicit.password, "secret");
    assert_eq!(explicit.from_email, "mail@example.test");
    assert_eq!(explicit.from_name, "Coverage");
}

#[test]
fn mail_config_defaults_credentials_and_port() {
    let config = MailConfig::from_values(some("smtp.example.test"), None, None, None, None, None).unwrap();
    assert_eq!(config.host, "smtp.example.test");
    assert_eq!(config.port, 587);
    assert_eq!(config.username, "");
    assert_eq!(config.password, "");
    let out_of_range =
        MailConfig::from_values(some("h"), some("70000"), None, None, None, None).unwrap();
    assert_eq!(out_of_range.port, 587);
}

#[test]
fn trend_alert_texts_are_exact() {
    let alert = TrendAlert {
        ticker: "GGAL",
        previous_condition: "neutral",
        new_condition: "sobreventa",
        signal: Some("baja"),
        as_of: Some("2026-06-17"),
    };
    assert_eq!(trend_alert_subject(&alert), "FinanciAr: GGAL cambio de tendencia");
    assert_eq!(
        trend_alert_body("Ana", &alert),
        "Hola Ana,\n\nGGAL paso de neutral a sobreventa.\nSenal actual: baja.\nUltima rueda considerada: 2026-06-17.\n\nPodes ver el detalle actualizado ingresando a tu cuenta de FinanciAr.\n\nEste mail se envio porque estas suscripto a alertas de este ticker o de tu cartera."
    );
}

#[test]
fn trend_alert_body_without_optional_lines() {
    let alert = TrendAlert {
        ticker: "YPFD",
        previous_condition: "desconocido",
        new_condition: "neutral",
        signal: None,
        as_of: None,
    };
    assert_eq!(
        trend_alert_body("Bruno", &alert),
        "Hola Bruno,\n\nYPFD paso de desconocido a neutral.\n\nPodes ver el detalle actualizado ingresando a tu cuenta de FinanciAr.\n\nEste mail se envio porque estas suscripto a alertas de este ticker o de tu cartera."
    );
}

#[test]
fn mailbox_text_puts_address_in_brackets() {
    assert_eq!(mailbox_text("FinanciAr", "alertas@financiar.app"), "FinanciAr <alertas@financiar.app>");
}
