use fazuh_utils::config::{Config, EnvVars};
use fazuh_utils::logging::LoggingConfig;
use fazuh_utils::smtp::config::{parse_port, SmtpConfig, SmtpSecurity};

#[test]
fn parses_security_names_ignoring_case() {
    assert_eq!(SmtpSecurity::from_security_str("tls"), Some(SmtpSecurity::Tls));
    assert_eq!(SmtpSecurity::from_security_str("WRAPPER"), Some(SmtpSecurity::Tls));
    assert_eq!(SmtpSecurity::from_security_str("Implicit"), Some(SmtpSecurity::Tls));
    assert_eq!(SmtpSecurity::from_security_str("STARTTLS"), Some(SmtpSecurity::StartTls));
    assert_eq!(SmtpSecurity::from_security_str("start_tls"), Some(SmtpSecurity::StartTls));
}

#[test]
fn rejects_unknown_security_names() {
    assert_eq!(SmtpSecurity::from_security_str(""), None);
    assert_eq!(SmtpSecurity::from_security_str("ssl"), None);
    assert_eq!(SmtpSecurity::from_security_str(" tls"), None);
    assert_eq!(SmtpSecurity::from_security_str("start-tls"), None);
    assert_eq!(SmtpSecurity::from_security_str("tlsx"), None);
    assert_eq!(SmtpSecurity::from_security_str("plain"), None);
}

#[test]
fn default_ports_follow_security() {
    assert_eq!(SmtpSecurity::Tls.default_port(), 465);
    assert_eq!(SmtpSecurity::StartTls.default_port(), 587);
    assert_eq!(SmtpSecurity::Plain.default_port(), 587);
}

#[test]
fn parses_ports_like_u16_from_str() {
    for s in ["0", "25", "+587", "0465", "65535", "", "+", "-1", "65536", " 25", "25 ", "2a", "99999999999"] {
        assert_eq!(parse_port(s), s.parse::<u16>().ok(), "input {s:?}");
    }
}

fn env_with(f: impl FnOnce(&mut EnvVars)) -> EnvVars {
    let mut env = EnvVars::empty();
    f(&mut env);
    env
}

#[test]
fn smtp_config_defaults() {
    let config = SmtpConfig::new(&EnvVars::empty());
    assert_eq!(config.smtp_host, "localhost");
    assert_eq!(config.smtp_port, 587);
    assert_eq!(config.smtp_username, "");
    assert_eq!(config.smtp_password, "");
    assert_eq!(config.smtp_from, "FAZuH Site <site@fazuh.com>");
    assert_eq!(config.smtp_to, "mail@fazuh.com");
    assert_eq!(config.smtp_security, SmtpSecurity::StartTls);
}

#[test]
fn smtp_port_defaults_to_security_port() {
    let env = env_with(|e| e.smtp_security = Some("tls".into()));
    let config = SmtpConfig::new(&env);
    assert_eq!(config.smtp_security, SmtpSecurity::Tls);
    assert_eq!(config.smtp_port, 465);

    let env = env_with(|e| {
        e.smtp_security = Some("TLS".into());
        e.smtp_port = Some("not-a-port".into());
    });
    assert_eq!(SmtpConfig::new(&env).smtp_port, 465);
}

#[test]
fn smtp_config_reads_every_variable() {
    let env = env_with(|e| {
        e.smtp_security = Some("bogus".into());
        e.smtp_port = Some("2525".into());
        e.smtp_host = Some("mail.example.com".into());
        e.smtp_username = Some("user".into());
        e.smtp_password = Some("pass-word".into());
        e.smtp_from = Some("A <a@example.com>".into());
        e.smtp_to = Some("b@example.com".into());
    });
    let config = SmtpConfig::new(&env);
    assert_eq!(config.smtp_security, SmtpSecurity::StartTls);
    assert_eq!(config.smtp_port, 2525);
    assert_eq!(config.smtp_host, "mail.example.com");
    assert_eq!(config.smtp_username, "user");
    assert_eq!(config.smtp_password, "pass-word");
    assert_eq!(config.smtp_from, "A <a@example.com>");
    assert_eq!(config.smtp_to, "b@example.com");
}

#[test]
fn logging_config_defaults_and_overrides() {
    let config = LoggingConfig::new(&EnvVars::empty());
    assert_eq!(config.log_level, "INFO");
    assert_eq!(config.default_log_dir, "./logs");
    assert_eq!(config.log_filename, "app.log");

    let env = env_with(|e| {
        e.log_level = Some("debug".into());
        e.default_log_dir = Some("/var/log/site".into());
        e.log_filename = Some("site.log".into());
    });
    let config = LoggingConfig::new(&env);
    assert_eq!(config.log_level, "debug");
    assert_eq!(config.default_log_dir, "/var/log/site");
    assert_eq!(config.log_filename, "site.log");
}

#[test]
fn config_combines_logging_and_smtp() {
    let env = env_with(|e| {
        e.log_level = Some("WARN".into());
        e.smtp_host = Some("smtp.example.org".into());
    });
    let config = Config::new(&env);
    assert_eq!(config.logging.log_level, "WARN");
    assert_eq!(config.smtp.smtp_host, "smtp.example.org");
}
