use troop::config::{AccountConfig, AccountType};
use troop::smtp::{extract_email_address, reply_settings, ReplyError};

fn account() -> AccountConfig {
    AccountConfig {
        name: "work".into(),
        account_type: AccountType::Imap,
        host: Some("imap.example.com".into()),
        port: Some(993),
        username: Some("me@example.com".into()),
        password: Some("pw".into()),
        tls: true,
        token: None,
        webhook_secret: None,
        enabled: true,
        poll_interval_secs: 60,
        smtp_host: Some("smtp.example.com".into()),
        smtp_port: None,
        smtp_username: Some("me".into()),
        smtp_password: Some("secret".into()),
        smtp_tls: true,
        reply_from: None,
    }
}

#[test]
fn extract_bare_address() {
    assert_eq!(extract_email_address("alice@example.com"), "alice@example.com");
}

#[test]
fn extract_display_name_address() {
    assert_eq!(
        extract_email_address("Alice Smith <alice@example.com>"),
        "alice@example.com"
    );
}

#[test]
fn extract_address_with_whitespace() {
    assert_eq!(
        extract_email_address("  Bob <bob@example.com>  "),
        "bob@example.com"
    );
}

#[test]
fn reply_settings_defaults_port_by_tls_and_uses_username_as_sender() {
    let s = reply_settings(&account(), "Alice <alice@example.com>").ok().unwrap();
    assert_eq!(s.host, "smtp.example.com");
    assert_eq!(s.port, 465);
    assert!(s.tls);
    assert_eq!(s.from, "me@example.com");
    assert_eq!(s.to, "alice@example.com");
    assert_eq!(s.credentials, Some(("me".to_string(), "secret".to_string())));

    let mut a = account();
    a.smtp_tls = false;
    a.reply_from = Some("bot@example.com".into());
    a.smtp_password = None;
    let s = reply_settings(&a, "bob@example.com").ok().unwrap();
    assert_eq!(s.port, 587);
    assert!(!s.tls);
    assert_eq!(s.from, "bot@example.com");
    assert_eq!(s.credentials, None);

    let mut a = account();
    a.smtp_port = Some(2525);
    assert_eq!(reply_settings(&a, "x@y").ok().unwrap().port, 2525);
}

#[test]
fn reply_settings_errors() {
    let mut a = account();
    a.smtp_host = None;
    assert_eq!(reply_settings(&a, "x@y").err(), Some(ReplyError::NoSmtpHost));
    assert_eq!(ReplyError::NoSmtpHost.message(), "SMTP host not configured");

    let mut a = account();
    a.username = None;
    assert_eq!(reply_settings(&a, "x@y").err(), Some(ReplyError::NoSender));
    assert_eq!(
        ReplyError::NoSender.message(),
        "No sender address: set reply_from or username in the account config"
    );
}
