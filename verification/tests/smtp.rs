use fazuh_utils::smtp::config::{SmtpConfig, SmtpSecurity};
use fazuh_utils::smtp::{
    build_message, build_transport, message_body, message_subject, reply_to_address, transport_plan,
    EmailData, RelayKind, TlsOverride,
};
use lettre::transport::stub::StubTransport;
use lettre::Message;
use lettre::Transport;

fn base_config() -> SmtpConfig {
    SmtpConfig {
        smtp_host: "smtp.example.com".into(),
        smtp_port: 587,
        smtp_username: String::new(),
        smtp_password: String::new(),
        smtp_from: "Site <site@example.com>".into(),
        smtp_to: "Owner <owner@example.com>".into(),
        smtp_security: SmtpSecurity::StartTls,
    }
}

fn base_data() -> EmailData {
    EmailData {
        name: "Alice".into(),
        email: Some("alice@test.com".into()),
        phone: None,
        subject: Some("Hello".into()),
        message: "I would like to discuss a project.".into(),
    }
}

/// Send a Message through StubTransport and return the raw MIME string.
fn capture(msg: &Message) -> String {
    let transport = StubTransport::new_ok();
    transport.send(msg).unwrap();
    transport.messages().into_iter().next().unwrap().1
}

// ── build_message: reply-to ─────────────────────────────────────────

#[test]
fn reply_to_uses_email_when_present() {
    let msg = build_message(&base_data(), &base_config()).unwrap();
    let raw = capture(&msg);

    assert!(
        raw.contains("Reply-To: Alice <alice@test.com>"),
        "reply-to should be Name <email> when email is Some: {raw}"
    );
}

#[test]
fn reply_to_falls_back_to_from_when_email_none() {
    let data = EmailData {
        email: None,
        ..base_data()
    };
    let msg = build_message(&data, &base_config()).unwrap();
    let raw = capture(&msg);

    assert!(
        raw.contains("Reply-To: Site <site@example.com>"),
        "reply-to should match From when email is None: {raw}"
    );
}

// ── build_message: subject ──────────────────────────────────────────

#[test]
fn subject_uses_data_when_present() {
    let msg = build_message(&base_data(), &base_config()).unwrap();
    let raw = capture(&msg);

    assert!(raw.contains("Subject: Hello"));
}

#[test]
fn subject_defaults_when_none() {
    let data = EmailData {
        subject: None,
        ..base_data()
    };
    let msg = build_message(&data, &base_config()).unwrap();
    let raw = capture(&msg);

    assert!(
        raw.contains("Subject: [fazuh-site] Message from Alice"),
        "subject should default to '[fazuh-site] Message from {{name}}': {raw}"
    );
}

// ── build_message: body ─────────────────────────────────────────────

#[test]
fn includes_phone_in_body_when_present() {
    let data = EmailData {
        phone: Some("08123456789".into()),
        ..base_data()
    };
    let msg = build_message(&data, &base_config()).unwrap();
    let raw = capture(&msg);

    assert!(raw.contains("Phone: 08123456789"));
}

#[test]
fn shows_dash_for_missing_phone() {
    let msg = build_message(&base_data(), &base_config()).unwrap();
    let raw = capture(&msg);

    assert!(raw.contains("Phone: -"));
}

#[test]
fn body_lines_end_in_crlf() {
    let msg = build_message(&base_data(), &base_config()).unwrap();
    let raw = capture(&msg);

    assert!(
        raw.contains("From: Alice <alice@test.com>\r\nPhone: -\r\n\r\nI would like to discuss a project."),
        "body should carry CRLF line endings: {raw}"
    );
}

// ── build_message: from / to ────────────────────────────────────────

#[test]
fn from_and_to_match_config() {
    let msg = build_message(&base_data(), &base_config()).unwrap();
    let raw = capture(&msg);

    assert!(raw.contains("From: Site <site@example.com>"));
    assert!(raw.contains("To: Owner <owner@example.com>"));
}

// ── build_message: content-type ─────────────────────────────────────

#[test]
fn content_type_is_text_plain() {
    let msg = build_message(&base_data(), &base_config()).unwrap();
    let raw = capture(&msg);

    assert!(raw.contains("Content-Type: text/plain"));
}

// ── build_message: error paths ──────────────────────────────────────

#[test]
fn rejects_invalid_from_address() {
    let mut config = base_config();
    config.smtp_from = "not-an-address".into();

    let result = build_message(&base_data(), &config);
    assert!(result.is_err());
    assert!(result.unwrap_err().contains("SMTP_FROM"));
}

#[test]
fn rejects_invalid_to_address() {
    let mut config = base_config();
    config.smtp_to = "also-not-valid".into();

    let result = build_message(&base_data(), &config);
    assert!(result.is_err());
    assert!(result.unwrap_err().contains("SMTP_TO"));
}

#[test]
fn rejects_invalid_reply_to_when_name_contains_brackets() {
    let data = EmailData {
        name: "Alice <hacker>".into(),
        ..base_data()
    };
    let result = build_message(&data, &base_config());
    assert!(result.is_err(), "bracket in name should make reply-to fail");
    assert!(result.unwrap_err().contains("reply-to"));
}

// ── pieces of the message ───────────────────────────────────────────

#[test]
fn message_pieces_are_exact() {
    let data = EmailData {
        name: "Bob".into(),
        email: None,
        phone: Some("0811".into()),
        subject: None,
        message: "Hi there".into(),
    };
    assert_eq!(reply_to_address(&data), None);
    assert_eq!(message_subject(&data), "[fazuh-site] Message from Bob");
    assert_eq!(message_body(&data), "From: Bob <no-reply>\nPhone: 0811\n\nHi there");
    assert_eq!(reply_to_address(&base_data()), Some("Alice <alice@test.com>".to_string()));
    assert_eq!(
        message_body(&base_data()),
        "From: Alice <alice@test.com>\nPhone: -\n\nI would like to discuss a project."
    );
}

#[test]
fn from_error_comes_before_to_error() {
    let mut config = base_config();
    config.smtp_from = "bad".into();
    config.smtp_to = "worse".into();
    let err = build_message(&base_data(), &config).unwrap_err();
    assert!(err.starts_with("Invalid SMTP_FROM address: "), "{err}");
}

// ── transport ───────────────────────────────────────────────────────

#[test]
fn transport_plan_follows_security_and_password() {
    let mut config = base_config();
    let plan = transport_plan(&config);
    assert_eq!(plan.relay, RelayKind::StartTls);
    assert_eq!(plan.tls, TlsOverride::Keep);
    assert!(!plan.with_credentials);

    config.smtp_password = "pw".into();
    assert!(transport_plan(&config).with_credentials);

    config.smtp_security = SmtpSecurity::Tls;
    let plan = transport_plan(&config);
    assert_eq!(plan.relay, RelayKind::Tls);
    assert_eq!(plan.tls, TlsOverride::Wrapper);
    assert!(plan.with_credentials);

    config.smtp_security = SmtpSecurity::Plain;
    let plan = transport_plan(&config);
    assert_eq!(plan.relay, RelayKind::StartTls);
    assert_eq!(plan.tls, TlsOverride::Opportunistic);
    assert!(!plan.with_credentials);
}

#[test]
fn builds_transport_for_each_security_mode() {
    for security in [SmtpSecurity::StartTls, SmtpSecurity::Tls, SmtpSecurity::Plain] {
        for password in ["", "pw"] {
            let config = SmtpConfig {
                smtp_security: security,
                smtp_password: password.into(),
                ..base_config()
            };
            assert!(build_transport(&config).is_ok(), "{security:?} {password:?}");
        }
    }
}

#[test]
fn transport_settings_follow_config() {
    let config = SmtpConfig {
        smtp_port: 2525,
        smtp_security: SmtpSecurity::Tls,
        smtp_username: "user".into(),
        smtp_password: "pw".into(),
        ..base_config()
    };
    let shown = format!("{:?}", build_transport(&config).unwrap());
    assert!(shown.contains("server: \"smtp.example.com\""), "{shown}");
    assert!(shown.contains("port: 2525"), "{shown}");
    assert!(shown.contains("tls: Wrapper"), "{shown}");
    assert!(shown.contains("credentials: Some(Credentials)"), "{shown}");

    let plain = SmtpConfig {
        smtp_security: SmtpSecurity::Plain,
        smtp_password: "pw".into(),
        ..base_config()
    };
    let shown = format!("{:?}", build_transport(&plain).unwrap());
    assert!(shown.contains("port: 587"), "{shown}");
    assert!(shown.contains("tls: Opportunistic"), "{shown}");
    assert!(shown.contains("credentials: None"), "{shown}");

    let starttls = base_config();
    let shown = format!("{:?}", build_transport(&starttls).unwrap());
    assert!(shown.contains("tls: Required"), "{shown}");
    assert!(shown.contains("credentials: None"), "{shown}");
}
